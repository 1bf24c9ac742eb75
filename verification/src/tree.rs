//! What a setup builds and what a cleanup takes away.

use crate::ascending::{ascending, lemma_ascending_exists};
use crate::config::{Bank, BankView, Offset};
use crate::layout::{
    bank_cleanup, bank_dir, bank_head, bank_setup, banks_cleanup, banks_setup, cleanup_script,
    for_each, hog_cleanup, hog_dir, hog_setup, hogs_setup, line_cleanup, line_dir, name_setup,
    names_setup, setup_script,
};
use crate::paths::{
    in_bank, in_line, lemma_bank_dir, lemma_bank_paths, lemma_in_bank_unique,
    lemma_in_line_is_not_head, lemma_in_line_unique, lemma_join_relative, lemma_line_paths, slashy,
    under,
};
use crate::request::RequestView;
use crate::text::{join, lemma_cancel};
use vstd::prelude::*;

verus! {

/// Whether `script` creates the directory at `path`.
pub open spec fn creates(script: Seq<RequestView>, path: Seq<char>) -> bool {
    script.contains(RequestView::CreateDir(path))
}

/// Whether `script` removes the directory at `path`.
pub open spec fn removes(script: Seq<RequestView>, path: Seq<char>) -> bool {
    script.contains(RequestView::RemoveDir(path))
}

impl BankView {
    /// Whether the bank names and hogs finitely many lines, as every bank
    /// that is held in memory does.
    pub open spec fn finite(self) -> bool {
        self.names.dom().finite() && self.hogs.dom().finite()
    }
}

/// Every bank that is held in memory is finite.
pub proof fn lemma_bank_is_finite(bank: Bank)
    ensures
        bank@.finite(),
{
    assert(bank@.names.dom() =~= bank.names@.dom());
    assert(bank@.hogs.dom() =~= bank.hogs@.dom());
}

/// Whether each of `banks` is finite.
pub open spec fn all_finite(banks: Seq<BankView>) -> bool {
    forall|i: int| 0 <= i < banks.len() ==> (#[trigger] banks[i]).finite()
}

/// A request of a part of a script is a request of the script.
pub proof fn lemma_contains_add(a: Seq<RequestView>, b: Seq<RequestView>, r: RequestView)
    ensures
        (a + b).contains(r) <==> a.contains(r) || b.contains(r),
{
    if a.contains(r) {
        let i = choose|i: int| 0 <= i < a.len() && a[i] == r;
        assert((a + b)[i] == r);
    }
    if b.contains(r) {
        let i = choose|i: int| 0 <= i < b.len() && b[i] == r;
        assert((a + b)[a.len() + i] == r);
    }
    if (a + b).contains(r) {
        let i = choose|i: int| 0 <= i < (a + b).len() && (a + b)[i] == r;
        if i < a.len() {
            assert(a[i] == r);
        } else {
            assert(b[i - a.len()] == r);
        }
    }
}

/// What is asked for one of the offsets is asked for all of them.
pub proof fn lemma_for_each_has(
    offsets: Seq<Offset>,
    f: spec_fn(Offset) -> Seq<RequestView>,
    offset: Offset,
    r: RequestView,
)
    requires
        offsets.contains(offset),
        f(offset).contains(r),
    ensures
        for_each(offsets, f).contains(r),
    decreases offsets.len(),
{
    lemma_contains_add(for_each(offsets.drop_last(), f), f(offsets.last()), r);
    if offsets.last() != offset {
        let i = choose|i: int| 0 <= i < offsets.len() && offsets[i] == offset;
        assert(offsets.drop_last()[i] == offset);
        lemma_for_each_has(offsets.drop_last(), f, offset, r);
    }
}

/// What is asked for all of the offsets is asked for one of them.
pub proof fn lemma_for_each_from(
    offsets: Seq<Offset>,
    f: spec_fn(Offset) -> Seq<RequestView>,
    r: RequestView,
) -> (offset: Offset)
    requires
        for_each(offsets, f).contains(r),
    ensures
        offsets.contains(offset),
        f(offset).contains(r),
    decreases offsets.len(),
{
    if offsets.len() == 0 {
        arbitrary()
    } else {
        lemma_contains_add(for_each(offsets.drop_last(), f), f(offsets.last()), r);
        if f(offsets.last()).contains(r) {
            assert(offsets[offsets.len() - 1] == offsets.last());
            offsets.last()
        } else {
            let offset = lemma_for_each_from(offsets.drop_last(), f, r);
            let front = offsets.drop_last();
            let i = choose|i: int| 0 <= i < front.len() && front[i] == offset;
            assert(offsets[i] == offset);
            offset
        }
    }
}

/// Where a request of the setup of a bank comes from.
pub enum Origin {
    /// The directory of the bank, its label or its line count.
    Bank,
    /// The name of the line at this offset.
    Name(Offset),
    /// The hog of the line at this offset.
    Hog(Offset),
}

/// Every request of the setup of a bank is for the bank itself, for a line
/// that the bank names, or for a line that the bank hogs.
pub proof fn lemma_bank_setup_from(
    dir: Seq<char>,
    index: nat,
    bank: BankView,
    r: RequestView,
) -> (origin: Origin)
    requires
        bank.finite(),
        bank_setup(dir, index, bank).contains(r),
    ensures
        match origin {
            Origin::Bank => bank_head(bank_dir(dir, index), bank).contains(r),
            Origin::Name(offset) => bank.names.contains_key(offset) && name_setup(
                bank_dir(dir, index),
                offset,
                bank.names[offset],
            ).contains(r),
            Origin::Hog(offset) => bank.hogs.contains_key(offset) && hog_setup(
                bank_dir(dir, index),
                offset,
                bank.hogs[offset],
            ).contains(r),
        },
{
    let at = bank_dir(dir, index);
    let head = bank_head(at, bank);
    let named = for_each(ascending(bank.names.dom()), names_setup(at, bank));
    let hogged = for_each(ascending(bank.hogs.dom()), hogs_setup(at, bank));
    assert(bank_setup(dir, index, bank) == head + named + hogged);
    lemma_contains_add(head + named, hogged, r);
    lemma_contains_add(head, named, r);
    lemma_ascending_exists(bank.names.dom());
    lemma_ascending_exists(bank.hogs.dom());
    if head.contains(r) {
        Origin::Bank
    } else if named.contains(r) {
        let offset = lemma_for_each_from(ascending(bank.names.dom()), names_setup(at, bank), r);
        assert(ascending(bank.names.dom()).to_set().contains(offset));
        Origin::Name(offset)
    } else {
        let offset = lemma_for_each_from(ascending(bank.hogs.dom()), hogs_setup(at, bank), r);
        assert(ascending(bank.hogs.dom()).to_set().contains(offset));
        Origin::Hog(offset)
    }
}

/// A setup asks for each bank what [`bank_setup`] says.
pub proof fn lemma_banks_setup_has(dir: Seq<char>, banks: Seq<BankView>, index: int, r: RequestView)
    requires
        0 <= index < banks.len(),
        bank_setup(dir, index as nat, banks[index]).contains(r),
    ensures
        banks_setup(dir, banks).contains(r),
        setup_script(dir, banks).contains(r),
    decreases banks.len(),
{
    let last = bank_setup(dir, (banks.len() - 1) as nat, banks.last());
    lemma_contains_add(banks_setup(dir, banks.drop_last()), last, r);
    if index < banks.len() - 1 {
        lemma_banks_setup_has(dir, banks.drop_last(), index, r);
    }
    let live = RequestView::Write { path: join(dir, "live"@), data: "1"@ };
    assert(setup_script(dir, banks) =~= banks_setup(dir, banks) + seq![live]);
    lemma_contains_add(banks_setup(dir, banks), seq![live], r);
}

/// Every request of the setups of the banks is of the setup of one bank.
pub proof fn lemma_banks_setup_from(dir: Seq<char>, banks: Seq<BankView>, r: RequestView) -> (index:
    int)
    requires
        banks_setup(dir, banks).contains(r),
    ensures
        0 <= index < banks.len(),
        bank_setup(dir, index as nat, banks[index]).contains(r),
    decreases banks.len(),
{
    if banks.len() == 0 {
        arbitrary()
    } else {
        let last = bank_setup(dir, (banks.len() - 1) as nat, banks.last());
        lemma_contains_add(banks_setup(dir, banks.drop_last()), last, r);
        if last.contains(r) {
            banks.len() - 1
        } else {
            lemma_banks_setup_from(dir, banks.drop_last(), r)
        }
    }
}

/// A cleanup asks for each bank what [`bank_cleanup`] says.
pub proof fn lemma_banks_cleanup_has(
    dir: Seq<char>,
    banks: Seq<BankView>,
    index: int,
    r: RequestView,
)
    requires
        0 <= index < banks.len(),
        bank_cleanup(dir, index as nat, banks[index]).contains(r),
    ensures
        banks_cleanup(dir, banks).contains(r),
        cleanup_script(dir, banks).contains(r),
    decreases banks.len(),
{
    let last = bank_cleanup(dir, (banks.len() - 1) as nat, banks.last());
    lemma_contains_add(banks_cleanup(dir, banks.drop_last()), last, r);
    if index < banks.len() - 1 {
        lemma_banks_cleanup_has(dir, banks.drop_last(), index, r);
    }
    let clear = seq![RequestView::Write { path: join(dir, "live"@), data: "0"@ }];
    let leave = seq![RequestView::RemoveDir(dir)];
    assert(cleanup_script(dir, banks) =~= clear + banks_cleanup(dir, banks) + leave);
    lemma_contains_add(clear + banks_cleanup(dir, banks), leave, r);
    lemma_contains_add(clear, banks_cleanup(dir, banks), r);
}

/// The cleanup of a bank removes every directory that its setup creates.
pub proof fn lemma_bank_cleanup_covers_setup(
    dir: Seq<char>,
    index: nat,
    bank: BankView,
    path: Seq<char>,
)
    requires
        bank.finite(),
        creates(bank_setup(dir, index, bank), path),
    ensures
        removes(bank_cleanup(dir, index, bank), path),
{
    let at = bank_dir(dir, index);
    let hogged = for_each(ascending(bank.hogs.dom()), hog_cleanup(at));
    let named = for_each(ascending(bank.names.dom()), line_cleanup(at));
    let leave = seq![RequestView::RemoveDir(at)];
    let gone = RequestView::RemoveDir(path);
    assert(bank_cleanup(dir, index, bank) == hogged + named + leave);
    lemma_contains_add(hogged + named, leave, gone);
    lemma_contains_add(hogged, named, gone);
    lemma_ascending_exists(bank.names.dom());
    lemma_ascending_exists(bank.hogs.dom());
    match lemma_bank_setup_from(dir, index, bank, RequestView::CreateDir(path)) {
        Origin::Bank => {
            assert(leave[0] == gone);
        },
        Origin::Name(offset) => {
            assert(ascending(bank.names.dom()).to_set().contains(offset));
            assert(line_cleanup(at)(offset)[0] == gone);
            lemma_for_each_has(ascending(bank.names.dom()), line_cleanup(at), offset, gone);
        },
        Origin::Hog(offset) => {
            assert(ascending(bank.hogs.dom()).to_set().contains(offset));
            let both = hog_cleanup(at)(offset);
            if path == line_dir(at, offset) {
                assert(both[1] == gone);
            } else {
                assert(both[0] == gone);
            }
            lemma_for_each_has(ascending(bank.hogs.dom()), hog_cleanup(at), offset, gone);
        },
    }
}

/// The cleanup of a simulator removes every directory that its setup
/// creates, and the directory of the simulator last of all.
pub proof fn lemma_cleanup_covers_setup(dir: Seq<char>, banks: Seq<BankView>, path: Seq<char>)
    requires
        all_finite(banks),
        creates(setup_script(dir, banks), path),
    ensures
        removes(cleanup_script(dir, banks), path),
        cleanup_script(dir, banks).last() == RequestView::RemoveDir(dir),
{
    let made = RequestView::CreateDir(path);
    let live = RequestView::Write { path: join(dir, "live"@), data: "1"@ };
    assert(setup_script(dir, banks) =~= banks_setup(dir, banks) + seq![live]);
    lemma_contains_add(banks_setup(dir, banks), seq![live], made);
    let index = lemma_banks_setup_from(dir, banks, made);
    lemma_bank_cleanup_covers_setup(dir, index as nat, banks[index], path);
    lemma_banks_cleanup_has(dir, banks, index, RequestView::RemoveDir(path));
}

/// The path that `r` speaks of, if it speaks of one.
pub open spec fn path_of(r: RequestView) -> Option<Seq<char>> {
    match r {
        RequestView::Exists(path) => Some(path),
        RequestView::CreateDir(path) => Some(path),
        RequestView::RemoveDir(path) => Some(path),
        RequestView::Write { path, .. } => Some(path),
        RequestView::Read(path) => Some(path),
        RequestView::ReadLines(path) => Some(path),
        RequestView::IsSymlink(path) => Some(path),
        _ => None,
    }
}

/// Whether a request of `script` speaks of `path`.
pub open spec fn touches(script: Seq<RequestView>, path: Seq<char>) -> bool {
    exists|i: int| 0 <= i < script.len() && path_of(#[trigger] script[i]) == Some(path)
}

/// A place in the tree of a bank.
pub enum Part {
    /// The directory of the bank.
    Dir,
    /// The label of the bank.
    Label,
    /// The line count of the bank.
    NumLines,
    /// The directory of the line at the offset.
    Line(Offset),
    /// The name of the line.
    Name(Offset),
    /// The directory of the hog of the line.
    Hog(Offset),
    /// The consumer of the hog of the line.
    HogName(Offset),
    /// The direction of the hog of the line.
    HogDirection(Offset),
}

impl Part {
    /// What follows the directory of the bank in the path of this place.
    pub open spec fn tail(self) -> Seq<char> {
        match self {
            Part::Dir => Seq::empty(),
            Part::Label => "/label"@,
            Part::NumLines => "/num_lines"@,
            Part::Line(offset) => in_line(offset, Seq::empty()),
            Part::Name(offset) => in_line(offset, "/name"@),
            Part::Hog(offset) => in_line(offset, "/hog"@),
            Part::HogName(offset) => in_line(offset, "/hog/name"@),
            Part::HogDirection(offset) => in_line(offset, "/hog/direction"@),
        }
    }

    /// The path of this place in the bank at `bank`.
    pub open spec fn path(self, bank: Seq<char>) -> Seq<char> {
        match self {
            Part::Dir => bank,
            Part::Label => join(bank, "label"@),
            Part::NumLines => join(bank, "num_lines"@),
            Part::Line(offset) => line_dir(bank, offset),
            Part::Name(offset) => join(line_dir(bank, offset), "name"@),
            Part::Hog(offset) => hog_dir(line_dir(bank, offset)),
            Part::HogName(offset) => join(hog_dir(line_dir(bank, offset)), "name"@),
            Part::HogDirection(offset) => join(hog_dir(line_dir(bank, offset)), "direction"@),
        }
    }

    /// Whether `bank` is configured to have this place: a line if it is
    /// named or hogged, a name if the line is named, a hog and what it
    /// holds if the line is hogged.
    pub open spec fn configured(self, bank: BankView) -> bool {
        match self {
            Part::Dir => true,
            Part::Label => true,
            Part::NumLines => true,
            Part::Line(offset) => bank.names.contains_key(offset) || bank.hogs.contains_key(
                offset,
            ),
            Part::Name(offset) => bank.names.contains_key(offset),
            Part::Hog(offset) => bank.hogs.contains_key(offset),
            Part::HogName(offset) => bank.hogs.contains_key(offset),
            Part::HogDirection(offset) => bank.hogs.contains_key(offset),
        }
    }
}

/// The path of a place is the directory of its bank and its tail.
pub proof fn lemma_part_path(part: Part, dir: Seq<char>, index: nat)
    ensures
        part.path(bank_dir(dir, index)) == bank_dir(dir, index) + part.tail(),
        part.path(bank_dir(dir, index)) == under(dir) + in_bank(index, part.tail()),
        slashy(part.tail()),
{
    let bank = bank_dir(dir, index);
    lemma_bank_dir(dir, index);
    lemma_bank_paths(bank);
    match part {
        Part::Dir => {
            assert(bank + Seq::<char>::empty() =~= bank);
        },
        Part::Label => {
            reveal_strlit("/label");
        },
        Part::NumLines => {
            reveal_strlit("/num_lines");
        },
        Part::Line(offset) => {
            lemma_line_paths(bank, offset);
            lemma_in_line_is_not_head(offset, Seq::empty());
        },
        Part::Name(offset) => {
            lemma_line_paths(bank, offset);
            lemma_in_line_is_not_head(offset, "/name"@);
        },
        Part::Hog(offset) => {
            lemma_line_paths(bank, offset);
            lemma_in_line_is_not_head(offset, "/hog"@);
        },
        Part::HogName(offset) => {
            lemma_line_paths(bank, offset);
            lemma_in_line_is_not_head(offset, "/hog/name"@);
        },
        Part::HogDirection(offset) => {
            lemma_line_paths(bank, offset);
            lemma_in_line_is_not_head(offset, "/hog/direction"@);
        },
    }
    assert(under(dir) + in_bank(index, Seq::empty()) + part.tail() =~= under(dir) + in_bank(
        index,
        part.tail(),
    ));
}

/// What follows the offset in the tail of a place of a line.
pub open spec fn line_tail(part: Part) -> Seq<char> {
    match part {
        Part::Name(_) => "/name"@,
        Part::Hog(_) => "/hog"@,
        Part::HogName(_) => "/hog/name"@,
        Part::HogDirection(_) => "/hog/direction"@,
        _ => Seq::empty(),
    }
}

/// No two places of a bank have the same path.
pub proof fn lemma_part_unique(a: Part, b: Part)
    requires
        a.tail() == b.tail(),
    ensures
        a == b,
{
    reveal_strlit("/label");
    reveal_strlit("/num_lines");
    reveal_strlit("/name");
    reveal_strlit("/hog");
    reveal_strlit("/hog/name");
    reveal_strlit("/hog/direction");
    let a_line = !(a is Dir || a is Label || a is NumLines);
    let b_line = !(b is Dir || b is Label || b is NumLines);
    let a_at = match a {
        Part::Line(k) => k,
        Part::Name(k) => k,
        Part::Hog(k) => k,
        Part::HogName(k) => k,
        Part::HogDirection(k) => k,
        _ => 0,
    };
    let b_at = match b {
        Part::Line(k) => k,
        Part::Name(k) => k,
        Part::Hog(k) => k,
        Part::HogName(k) => k,
        Part::HogDirection(k) => k,
        _ => 0,
    };
    if a_line {
        lemma_in_line_is_not_head(a_at, line_tail(a));
        assert(a.tail() == in_line(a_at, line_tail(a)));
    }
    if b_line {
        lemma_in_line_is_not_head(b_at, line_tail(b));
        assert(b.tail() == in_line(b_at, line_tail(b)));
    }
    assert("/label"@.len() == 6 && "/num_lines"@.len() == 10);
    assert("/name"@.len() == 5 && "/hog"@.len() == 4);
    assert("/hog/name"@.len() == 9 && "/hog/direction"@.len() == 14);
    if a_line && b_line {
        lemma_in_line_unique(a_at, line_tail(a), b_at, line_tail(b));
        assert(line_tail(a).len() == line_tail(b).len());
    } else {
        assert(a.tail().len() == b.tail().len());
    }
}

/// Every request of the setup of a bank speaks of a place that the bank is
/// configured to have.
pub proof fn lemma_bank_setup_part(
    dir: Seq<char>,
    index: nat,
    bank: BankView,
    r: RequestView,
) -> (part: Part)
    requires
        bank.finite(),
        bank_setup(dir, index, bank).contains(r),
    ensures
        path_of(r) == Some(part.path(bank_dir(dir, index))),
        part.configured(bank),
{
    let at = bank_dir(dir, index);
    match lemma_bank_setup_from(dir, index, bank, r) {
        Origin::Bank => {
            let head = bank_head(at, bank);
            let i = choose|i: int| 0 <= i < head.len() && head[i] == r;
            if i == 0 {
                Part::Dir
            } else if i == 1 {
                Part::Label
            } else {
                Part::NumLines
            }
        },
        Origin::Name(offset) => {
            let both = name_setup(at, offset, bank.names[offset]);
            let i = choose|i: int| 0 <= i < both.len() && both[i] == r;
            if i == 0 {
                Part::Line(offset)
            } else {
                Part::Name(offset)
            }
        },
        Origin::Hog(offset) => {
            let all = hog_setup(at, offset, bank.hogs[offset]);
            let i = choose|i: int| 0 <= i < all.len() && all[i] == r;
            if i <= 1 {
                Part::Line(offset)
            } else if i == 2 {
                Part::Hog(offset)
            } else if i == 3 {
                Part::HogName(offset)
            } else {
                Part::HogDirection(offset)
            }
        },
    }
}

/// A setup speaks of a place in the tree of a bank only if the bank is
/// configured to have it.
pub proof fn lemma_setup_touches_only_configured(
    dir: Seq<char>,
    banks: Seq<BankView>,
    index: int,
    part: Part,
)
    requires
        all_finite(banks),
        0 <= index < banks.len(),
        touches(setup_script(dir, banks), part.path(bank_dir(dir, index as nat))),
    ensures
        part.configured(banks[index]),
{
    let script = setup_script(dir, banks);
    let path = part.path(bank_dir(dir, index as nat));
    let i = choose|i: int| 0 <= i < script.len() && path_of(#[trigger] script[i]) == Some(path);
    let r = script[i];
    lemma_part_path(part, dir, index as nat);
    if i == script.len() - 1 {
        reveal_strlit("live");
        reveal_strlit("bank");
        lemma_join_relative(dir, "live"@);
        let rest = in_bank(index as nat, part.tail());
        lemma_cancel(under(dir), "live"@, rest);
        assert(rest[0] == 'b');
    } else {
        assert(banks_setup(dir, banks)[i] == r);
        let j = lemma_banks_setup_from(dir, banks, r);
        let found = lemma_bank_setup_part(dir, j as nat, banks[j], r);
        lemma_part_path(found, dir, j as nat);
        lemma_cancel(
            under(dir),
            in_bank(j as nat, found.tail()),
            in_bank(index as nat, part.tail()),
        );
        lemma_in_bank_unique(j as nat, found.tail(), index as nat, part.tail());
        lemma_part_unique(found, part);
    }
}

/// The banks with the name of line `offset` of bank `index` removed.
pub open spec fn without_name(banks: Seq<BankView>, index: int, offset: Offset) -> Seq<BankView> {
    banks.update(index, banks[index].unname(offset))
}

/// The banks with the hog of line `offset` of bank `index` removed.
pub open spec fn without_hog(banks: Seq<BankView>, index: int, offset: Offset) -> Seq<BankView> {
    banks.update(index, banks[index].unhog(offset))
}

/// Once the name of a line is removed from a configuration, its setup does
/// not speak of the name of that line.
pub proof fn lemma_removed_name_is_absent(
    dir: Seq<char>,
    banks: Seq<BankView>,
    index: int,
    offset: Offset,
)
    requires
        all_finite(banks),
        0 <= index < banks.len(),
    ensures
        !touches(
            setup_script(dir, without_name(banks, index, offset)),
            join(line_dir(bank_dir(dir, index as nat), offset), "name"@),
        ),
{
    let after = without_name(banks, index, offset);
    assert(banks[index].finite());
    assert(all_finite(after)) by {
        assert forall|i: int| 0 <= i < after.len() implies (#[trigger] after[i]).finite() by {
            assert(banks[i].finite());
        }
    }
    if touches(
        setup_script(dir, after),
        join(line_dir(bank_dir(dir, index as nat), offset), "name"@),
    ) {
        lemma_setup_touches_only_configured(dir, after, index, Part::Name(offset));
    }
}

/// Once the hog of a line is removed from a configuration, its setup does
/// not speak of the hog of that line, nor of its consumer or direction.
pub proof fn lemma_removed_hog_is_absent(
    dir: Seq<char>,
    banks: Seq<BankView>,
    index: int,
    offset: Offset,
)
    requires
        all_finite(banks),
        0 <= index < banks.len(),
    ensures
        ({
            let setup = setup_script(dir, without_hog(banks, index, offset));
            let hog = hog_dir(line_dir(bank_dir(dir, index as nat), offset));
            &&& !touches(setup, hog)
            &&& !touches(setup, join(hog, "name"@))
            &&& !touches(setup, join(hog, "direction"@))
        }),
{
    let after = without_hog(banks, index, offset);
    assert(banks[index].finite());
    assert(all_finite(after)) by {
        assert forall|i: int| 0 <= i < after.len() implies (#[trigger] after[i]).finite() by {
            assert(banks[i].finite());
        }
    }
    let setup = setup_script(dir, after);
    let hog = hog_dir(line_dir(bank_dir(dir, index as nat), offset));
    if touches(setup, hog) {
        lemma_setup_touches_only_configured(dir, after, index, Part::Hog(offset));
    }
    if touches(setup, join(hog, "name"@)) {
        lemma_setup_touches_only_configured(dir, after, index, Part::HogName(offset));
    }
    if touches(setup, join(hog, "direction"@)) {
        lemma_setup_touches_only_configured(dir, after, index, Part::HogDirection(offset));
    }
}

/// The setup of a configuration does not speak of a line that is neither
/// named nor hogged: no directory is made for it.
pub proof fn lemma_unconfigured_line_is_absent(
    dir: Seq<char>,
    banks: Seq<BankView>,
    index: int,
    offset: Offset,
)
    requires
        all_finite(banks),
        0 <= index < banks.len(),
        !banks[index].names.contains_key(offset),
        !banks[index].hogs.contains_key(offset),
    ensures
        ({
            let setup = setup_script(dir, banks);
            let line = line_dir(bank_dir(dir, index as nat), offset);
            &&& !touches(setup, line)
            &&& !touches(setup, join(line, "name"@))
            &&& !touches(setup, hog_dir(line))
            &&& !touches(setup, join(hog_dir(line), "name"@))
            &&& !touches(setup, join(hog_dir(line), "direction"@))
        }),
{
    let setup = setup_script(dir, banks);
    let line = line_dir(bank_dir(dir, index as nat), offset);
    if touches(setup, line) {
        lemma_setup_touches_only_configured(dir, banks, index, Part::Line(offset));
    }
    if touches(setup, join(line, "name"@)) {
        lemma_setup_touches_only_configured(dir, banks, index, Part::Name(offset));
    }
    if touches(setup, hog_dir(line)) {
        lemma_setup_touches_only_configured(dir, banks, index, Part::Hog(offset));
    }
    if touches(setup, join(hog_dir(line), "name"@)) {
        lemma_setup_touches_only_configured(dir, banks, index, Part::HogName(offset));
    }
    if touches(setup, join(hog_dir(line), "direction"@)) {
        lemma_setup_touches_only_configured(dir, banks, index, Part::HogDirection(offset));
    }
}

/// Whether every look of `script` is followed at once by the request that
/// creates the directory that was looked for.
pub open spec fn looks_before_creating(script: Seq<RequestView>) -> bool {
    forall|i: int|
        0 <= i < script.len() && (#[trigger] script[i]) is Exists ==> i + 1 < script.len()
            && script[i + 1] == RequestView::CreateDir(script[i]->Exists_0)
}

proof fn lemma_looks_add(a: Seq<RequestView>, b: Seq<RequestView>)
    requires
        looks_before_creating(a),
        looks_before_creating(b),
    ensures
        looks_before_creating(a + b),
{
    let all = a + b;
    assert forall|i: int| 0 <= i < all.len() && (#[trigger] all[i]) is Exists implies i + 1
        < all.len() && all[i + 1] == RequestView::CreateDir(all[i]->Exists_0) by {
        if i < a.len() {
            assert(a[i] is Exists);
            assert(all[i + 1] == a[i + 1]);
        } else {
            assert(b[i - a.len()] is Exists);
            assert(all[i + 1] == b[i - a.len() + 1]);
        }
    }
}

proof fn lemma_looks_for_each(offsets: Seq<Offset>, f: spec_fn(Offset) -> Seq<RequestView>)
    requires
        forall|offset: Offset| looks_before_creating(#[trigger] f(offset)),
    ensures
        looks_before_creating(for_each(offsets, f)),
    decreases offsets.len(),
{
    if offsets.len() > 0 {
        lemma_looks_for_each(offsets.drop_last(), f);
        lemma_looks_add(for_each(offsets.drop_last(), f), f(offsets.last()));
    }
}

proof fn lemma_looks_banks(dir: Seq<char>, banks: Seq<BankView>)
    ensures
        looks_before_creating(banks_setup(dir, banks)),
    decreases banks.len(),
{
    if banks.len() > 0 {
        let index = (banks.len() - 1) as nat;
        let bank = banks.last();
        let at = bank_dir(dir, index);
        lemma_looks_banks(dir, banks.drop_last());
        assert forall|offset: Offset| looks_before_creating(
            #[trigger] names_setup(at, bank)(offset),
        ) by {}
        assert forall|offset: Offset| looks_before_creating(
            #[trigger] hogs_setup(at, bank)(offset),
        ) by {}
        lemma_looks_for_each(ascending(bank.names.dom()), names_setup(at, bank));
        lemma_looks_for_each(ascending(bank.hogs.dom()), hogs_setup(at, bank));
        let named = for_each(ascending(bank.names.dom()), names_setup(at, bank));
        let hogged = for_each(ascending(bank.hogs.dom()), hogs_setup(at, bank));
        lemma_looks_add(bank_head(at, bank), named);
        lemma_looks_add(bank_head(at, bank) + named, hogged);
        lemma_looks_add(banks_setup(dir, banks.drop_last()), bank_setup(dir, index, bank));
    }
}

/// In a setup, every look whether a directory exists is followed at once by
/// the request that creates that directory: what is left out after a look
/// that has found its directory is the creation of what is there.
pub proof fn lemma_setup_looks_before_creating(dir: Seq<char>, banks: Seq<BankView>)
    ensures
        looks_before_creating(setup_script(dir, banks)),
{
    lemma_looks_banks(dir, banks);
    let live = seq![RequestView::Write { path: join(dir, "live"@), data: "1"@ }];
    assert(setup_script(dir, banks) =~= banks_setup(dir, banks) + live);
    lemma_looks_add(banks_setup(dir, banks), live);
}

} // verus!
