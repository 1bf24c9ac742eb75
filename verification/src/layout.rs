//! The configfs tree of a simulator: where each directory and attribute
//! lies, what has to be performed to build the tree of a bank, and what to
//! take it down.
//!
//! ```text
//! <dir>/live
//! <dir>/bank<N>/{label, num_lines}
//! <dir>/bank<N>/line<offset>/name
//! <dir>/bank<N>/line<offset>/hog/{name, direction}
//! ```

use crate::ascending::{ascending, lists};
use crate::config::{Bank, BankView, HogView, Offset};
use crate::order::offsets;
use crate::request::{request_views, Request, RequestView};
use crate::text::{decimal, join, join_path, to_decimal};
use vstd::prelude::*;
use vstd::string::*;

verus! {

/// The directory of the bank with index `index` of the simulator at `dir`.
pub open spec fn bank_dir(dir: Seq<char>, index: nat) -> Seq<char> {
    join(dir, "bank"@ + decimal(index))
}

/// The directory of the line at `offset` of the bank at `bank`.
pub open spec fn line_dir(bank: Seq<char>, offset: Offset) -> Seq<char> {
    join(bank, "line"@ + decimal(offset as nat))
}

/// The directory of the hog of the line at `line`.
pub open spec fn hog_dir(line: Seq<char>) -> Seq<char> {
    join(line, "hog"@)
}

/// The requests of `f` for each of `offsets`, in order.
pub open spec fn for_each(
    offsets: Seq<Offset>,
    f: spec_fn(Offset) -> Seq<RequestView>,
) -> Seq<RequestView>
    decreases offsets.len(),
{
    if offsets.len() == 0 {
        Seq::empty()
    } else {
        for_each(offsets.drop_last(), f) + f(offsets.last())
    }
}

/// What names the line at `offset`: its directory, and the name in it.
pub open spec fn name_setup(bank: Seq<char>, offset: Offset, name: Seq<char>) -> Seq<RequestView> {
    let line = line_dir(bank, offset);
    seq![
        RequestView::CreateDir(line),
        RequestView::Write { path: join(line, "name"@), data: name },
    ]
}

/// What hogs the line at `offset`: a look whether the line has a directory,
/// its directory, the directory of the hog, and the consumer and direction
/// in it.  The directory of the line is not asked for where the look finds
/// it.
pub open spec fn hog_setup(bank: Seq<char>, offset: Offset, hog: HogView) -> Seq<RequestView> {
    let line = line_dir(bank, offset);
    let hog_at = hog_dir(line);
    seq![
        RequestView::Exists(line),
        RequestView::CreateDir(line),
        RequestView::CreateDir(hog_at),
        RequestView::Write { path: join(hog_at, "name"@), data: hog.consumer },
        RequestView::Write { path: join(hog_at, "direction"@), data: hog.direction.text() },
    ]
}

/// [`name_setup`] for the names of a bank, by offset.
pub open spec fn names_setup(bank_at: Seq<char>, bank: BankView) -> spec_fn(Offset) -> Seq<
    RequestView,
> {
    |offset: Offset| name_setup(bank_at, offset, bank.names[offset])
}

/// [`hog_setup`] for the hogs of a bank, by offset.
pub open spec fn hogs_setup(bank_at: Seq<char>, bank: BankView) -> spec_fn(Offset) -> Seq<
    RequestView,
> {
    |offset: Offset| hog_setup(bank_at, offset, bank.hogs[offset])
}

/// What begins the tree of the bank at `at`: its directory, its label and
/// its line count.
pub open spec fn bank_head(at: Seq<char>, bank: BankView) -> Seq<RequestView> {
    seq![
        RequestView::CreateDir(at),
        RequestView::Write { path: join(at, "label"@), data: bank.label },
        RequestView::Write {
            path: join(at, "num_lines"@),
            data: decimal(bank.num_lines as nat),
        },
    ]
}

/// What builds the tree of one bank: its directory, label and line count,
/// then its names and then its hogs, each in ascending order of offset.
///
/// Each request is performed if the one before it succeeded; a look counts
/// as success, and the request after one that has found its directory is
/// left out.
pub open spec fn bank_setup(dir: Seq<char>, index: nat, bank: BankView) -> Seq<RequestView> {
    let at = bank_dir(dir, index);
    bank_head(at, bank) + for_each(ascending(bank.names.dom()), names_setup(at, bank))
        + for_each(ascending(bank.hogs.dom()), hogs_setup(at, bank))
}

/// What removes the hog of the line at `offset`, and then the line.
pub open spec fn hog_cleanup(bank_at: Seq<char>) -> spec_fn(Offset) -> Seq<RequestView> {
    |offset: Offset|
        seq![
            RequestView::RemoveDir(hog_dir(line_dir(bank_at, offset))),
            RequestView::RemoveDir(line_dir(bank_at, offset)),
        ]
}

/// What removes the line at `offset`.
pub open spec fn line_cleanup(bank_at: Seq<char>) -> spec_fn(Offset) -> Seq<RequestView> {
    |offset: Offset| seq![RequestView::RemoveDir(line_dir(bank_at, offset))]
}

/// What takes the tree of one bank down: the hogs and their lines, the named
/// lines, and then the directory of the bank.
pub open spec fn bank_cleanup(dir: Seq<char>, index: nat, bank: BankView) -> Seq<RequestView> {
    let at = bank_dir(dir, index);
    for_each(ascending(bank.hogs.dom()), hog_cleanup(at)) + for_each(
        ascending(bank.names.dom()),
        line_cleanup(at),
    ) + seq![RequestView::RemoveDir(at)]
}

/// [`bank_setup`] for each of `banks`, in order.
pub open spec fn banks_setup(dir: Seq<char>, banks: Seq<BankView>) -> Seq<RequestView>
    decreases banks.len(),
{
    if banks.len() == 0 {
        Seq::empty()
    } else {
        banks_setup(dir, banks.drop_last()) + bank_setup(
            dir,
            (banks.len() - 1) as nat,
            banks.last(),
        )
    }
}

/// [`bank_cleanup`] for each of `banks`, in order.
pub open spec fn banks_cleanup(dir: Seq<char>, banks: Seq<BankView>) -> Seq<RequestView>
    decreases banks.len(),
{
    if banks.len() == 0 {
        Seq::empty()
    } else {
        banks_cleanup(dir, banks.drop_last()) + bank_cleanup(
            dir,
            (banks.len() - 1) as nat,
            banks.last(),
        )
    }
}

/// What configures the simulator at `dir` and hands it to the kernel: the
/// trees of its banks, and then the `live` attribute set.  It never ends in
/// a look.
pub open spec fn setup_script(dir: Seq<char>, banks: Seq<BankView>) -> Seq<RequestView> {
    banks_setup(dir, banks).push(RequestView::Write { path: join(dir, "live"@), data: "1"@ })
}

/// What takes the simulator at `dir` down: the `live` attribute cleared,
/// the trees of its banks removed, and then `dir` itself.
pub open spec fn cleanup_script(dir: Seq<char>, banks: Seq<BankView>) -> Seq<RequestView> {
    seq![RequestView::Write { path: join(dir, "live"@), data: "0"@ }] + banks_cleanup(
        dir,
        banks,
    ).push(RequestView::RemoveDir(dir))
}

/// Appends `request` to `out`.
pub fn emit(out: &mut Vec<Request>, request: Request)
    ensures
        request_views(final(out)@) == request_views(old(out)@).push(request@),
{
    out.push(request);
    assert(request_views(out@) =~= request_views(old(out)@).push(request@));
}

/// The path of the directory of bank `index` of the simulator at `dir`.
pub fn bank_path(dir: &str, index: usize) -> (path: String)
    ensures
        path@ == bank_dir(dir@, index as nat),
{
    let mut part = "bank".to_owned();
    part.append(to_decimal(index as u64).as_str());
    join_path(dir, part.as_str())
}

/// The path of the directory of the line at `offset` of the bank at `bank`.
pub fn line_path(bank: &str, offset: Offset) -> (path: String)
    ensures
        path@ == line_dir(bank@, offset),
{
    let mut part = "line".to_owned();
    part.append(to_decimal(offset as u64).as_str());
    join_path(bank, part.as_str())
}

/// A request to write `data` to the attribute `name` in `dir`.
pub fn write_attr(dir: &str, name: &str, data: &str) -> (request: Request)
    ensures
        request@ == (RequestView::Write { path: join(dir@, name@), data: data@ }),
{
    Request::Write { path: join_path(dir, name), data: data.to_owned() }
}

/// A request to read the attribute `name` in `dir`.
pub fn read_attr(dir: &str, name: &str) -> (request: Request)
    ensures
        request@ == RequestView::Read(join(dir@, name@)),
{
    Request::Read(join_path(dir, name))
}

/// Appends to `out` what builds the tree of `bank` as bank `index` of the
/// simulator at `dir`.
pub fn push_bank_setup(out: &mut Vec<Request>, dir: &str, index: usize, bank: &Bank)
    ensures
        request_views(final(out)@) == request_views(old(out)@) + bank_setup(
            dir@,
            index as nat,
            bank@,
        ),
{
    let ghost before = request_views(out@);
    let at = bank_path(dir, index);
    emit(out, Request::CreateDir(at.clone()));
    emit(out, write_attr(at.as_str(), "label", bank.label.as_str()));
    emit(out, write_attr(at.as_str(), "num_lines", to_decimal(bank.num_lines as u64).as_str()));
    let ghost head = request_views(out@);

    let named = offsets(&bank.names);
    let ghost f = names_setup(at@, bank@);
    let mut i: usize = 0;
    assert(named@.take(0) =~= Seq::<Offset>::empty());
    while i < named.len()
        invariant
            i <= named.len(),
            lists(named@, bank.names@.dom()),
            f == names_setup(at@, bank@),
            request_views(out@) == head + for_each(named@.take(i as int), f),
        decreases named.len() - i,
    {
        let offset = named[i];
        proof {
            assert(named@.contains(offset));
            assert(named@.to_set().contains(offset));
            assert(named@.take(i + 1).drop_last() =~= named@.take(i as int));
        }
        let line = line_path(at.as_str(), offset);
        let name = bank.names.get(&offset).unwrap();
        emit(out, Request::CreateDir(line.clone()));
        emit(out, write_attr(line.as_str(), "name", name.as_str()));
        proof {
            let prior = for_each(named@.take(i as int), f);
            assert(request_views(out@) =~= head + (prior + f(offset)));
        }
        i += 1;
    }
    assert(named@.take(named.len() as int) =~= named@);
    let ghost middle = request_views(out@);

    let hogged = offsets(&bank.hogs);
    let ghost g = hogs_setup(at@, bank@);
    let mut j: usize = 0;
    assert(hogged@.take(0) =~= Seq::<Offset>::empty());
    while j < hogged.len()
        invariant
            j <= hogged.len(),
            lists(hogged@, bank.hogs@.dom()),
            g == hogs_setup(at@, bank@),
            request_views(out@) == middle + for_each(hogged@.take(j as int), g),
        decreases hogged.len() - j,
    {
        let offset = hogged[j];
        proof {
            assert(hogged@.contains(offset));
            assert(hogged@.to_set().contains(offset));
            assert(hogged@.take(j + 1).drop_last() =~= hogged@.take(j as int));
        }
        let ghost so_far = request_views(out@);
        let line = line_path(at.as_str(), offset);
        let hog = bank.hogs.get(&offset).unwrap();
        emit(out, Request::Exists(line.clone()));
        emit(out, Request::CreateDir(line.clone()));
        let hog_at = join_path(line.as_str(), "hog");
        emit(out, Request::CreateDir(hog_at.clone()));
        emit(out, write_attr(hog_at.as_str(), "name", hog.consumer.as_str()));
        emit(out, write_attr(hog_at.as_str(), "direction", hog.direction.as_str()));
        proof {
            let prior = for_each(hogged@.take(j as int), g);
            assert(request_views(out@) =~= so_far + g(offset));
            assert(request_views(out@) =~= middle + (prior + g(offset)));
        }
        j += 1;
    }
    proof {
        assert(hogged@.take(hogged.len() as int) =~= hogged@);
        assert(bank@.names.dom() =~= bank.names@.dom());
        assert(bank@.hogs.dom() =~= bank.hogs@.dom());
        let top = bank_head(at@, bank@);
        assert(head =~= before + top);
        assert(request_views(out@) =~= before + (top + for_each(named@, f) + for_each(
            hogged@,
            g,
        )));
    }
}

/// Appends to `out` what takes the tree of `bank` down, as bank `index` of
/// the simulator at `dir`.
pub fn push_bank_cleanup(out: &mut Vec<Request>, dir: &str, index: usize, bank: &Bank)
    ensures
        request_views(final(out)@) == request_views(old(out)@) + bank_cleanup(
            dir@,
            index as nat,
            bank@,
        ),
{
    let ghost before = request_views(out@);
    let at = bank_path(dir, index);

    let hogged = offsets(&bank.hogs);
    let ghost g = hog_cleanup(at@);
    let mut j: usize = 0;
    assert(hogged@.take(0) =~= Seq::<Offset>::empty());
    assert(before + for_each(hogged@.take(0), g) =~= before);
    while j < hogged.len()
        invariant
            j <= hogged.len(),
            g == hog_cleanup(at@),
            request_views(out@) == before + for_each(hogged@.take(j as int), g),
        decreases hogged.len() - j,
    {
        let offset = hogged[j];
        let line = line_path(at.as_str(), offset);
        emit(out, Request::RemoveDir(join_path(line.as_str(), "hog")));
        emit(out, Request::RemoveDir(line));
        proof {
            assert(hogged@.take(j + 1).drop_last() =~= hogged@.take(j as int));
            let prior = for_each(hogged@.take(j as int), g);
            assert(request_views(out@) =~= before + (prior + g(offset)));
        }
        j += 1;
    }
    assert(hogged@.take(hogged.len() as int) =~= hogged@);
    let ghost middle = request_views(out@);

    let named = offsets(&bank.names);
    let ghost f = line_cleanup(at@);
    let mut i: usize = 0;
    assert(named@.take(0) =~= Seq::<Offset>::empty());
    assert(middle + for_each(named@.take(0), f) =~= middle);
    while i < named.len()
        invariant
            i <= named.len(),
            f == line_cleanup(at@),
            request_views(out@) == middle + for_each(named@.take(i as int), f),
        decreases named.len() - i,
    {
        let offset = named[i];
        emit(out, Request::RemoveDir(line_path(at.as_str(), offset)));
        proof {
            assert(named@.take(i + 1).drop_last() =~= named@.take(i as int));
            let prior = for_each(named@.take(i as int), f);
            assert(request_views(out@) =~= middle + (prior + f(offset)));
        }
        i += 1;
    }
    assert(named@.take(named.len() as int) =~= named@);
    emit(out, Request::RemoveDir(at));
    proof {
        assert(bank@.names.dom() =~= bank.names@.dom());
        assert(bank@.hogs.dom() =~= bank.hogs@.dom());
        assert(request_views(out@) =~= before + (for_each(hogged@, g) + for_each(named@, f)
            + seq![RequestView::RemoveDir(at@)]));
    }
}

} // verus!
