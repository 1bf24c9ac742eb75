//! How the paths of a tree are written, and why no two places of a tree
//! have the same path.

use crate::config::Offset;
use crate::layout::{bank_dir, hog_dir, line_dir};
use crate::text::{
    decimal, ends_digits, is_digit, join, lemma_cancel, lemma_decimal, lemma_decimal_injective,
    lemma_digits_end,
};
use vstd::prelude::*;

verus! {

/// Whether `tail` is empty or begins with a separator.
pub open spec fn slashy(tail: Seq<char>) -> bool {
    tail.len() == 0 || tail[0] == '/'
}

/// What is empty or begins with a separator does not begin with a digit.
pub proof fn lemma_slashy_ends_digits(tail: Seq<char>)
    requires
        slashy(tail),
    ensures
        ends_digits(tail),
{
}

/// `dir` as the beginning of the paths in it: with a separator at its end,
/// unless it is empty.
pub open spec fn under(dir: Seq<char>) -> Seq<char> {
    join(dir, Seq::empty())
}

/// A path that does not begin with a separator is joined to a directory by
/// writing it after the directory and a separator.
pub proof fn lemma_join_relative(dir: Seq<char>, part: Seq<char>)
    requires
        part.len() == 0 || part[0] != '/',
    ensures
        join(dir, part) == under(dir) + part,
        dir.len() > 0 && dir.last() != '/' ==> join(dir, part) == dir + seq!['/'] + part,
{
    assert(dir + Seq::<char>::empty() =~= dir);
    assert(dir + seq!['/'] + Seq::<char>::empty() =~= dir + seq!['/']);
}

/// What follows the directory of a bank in the path of something of the
/// line at `offset`, followed by `tail`.
pub open spec fn in_line(offset: Offset, tail: Seq<char>) -> Seq<char> {
    "/line"@ + decimal(offset as nat) + tail
}

/// What follows the directory of a simulator in the path of something of
/// the bank at `index`, followed by `tail`.
pub open spec fn in_bank(index: nat, tail: Seq<char>) -> Seq<char> {
    "bank"@ + decimal(index) + tail
}

/// The path of the directory of a bank is the directory of the simulator,
/// `bank` and the index of the bank; it ends in a digit.
pub proof fn lemma_bank_dir(dir: Seq<char>, index: nat)
    ensures
        bank_dir(dir, index) == under(dir) + in_bank(index, Seq::empty()),
        bank_dir(dir, index).len() > 0,
        is_digit(bank_dir(dir, index).last()),
{
    reveal_strlit("bank");
    lemma_decimal(index);
    let part = "bank"@ + decimal(index);
    assert(part[0] == 'b');
    lemma_join_relative(dir, part);
    assert(in_bank(index, Seq::empty()) =~= part);
    assert((under(dir) + part).last() == decimal(index).last());
}

/// The paths of a line, of its name, of its hog and of what the hog holds
/// are the directory of the bank followed by `/line`, the offset, and
/// nothing, `/name`, `/hog`, `/hog/name` or `/hog/direction`.
pub proof fn lemma_line_paths(bank: Seq<char>, offset: Offset)
    requires
        bank.len() > 0,
        is_digit(bank.last()),
    ensures
        line_dir(bank, offset) == bank + in_line(offset, Seq::empty()),
        join(line_dir(bank, offset), "name"@) == bank + in_line(offset, "/name"@),
        hog_dir(line_dir(bank, offset)) == bank + in_line(offset, "/hog"@),
        join(hog_dir(line_dir(bank, offset)), "name"@) == bank + in_line(offset, "/hog/name"@),
        join(hog_dir(line_dir(bank, offset)), "direction"@) == bank + in_line(
            offset,
            "/hog/direction"@,
        ),
{
    reveal_strlit("line");
    reveal_strlit("/line");
    reveal_strlit("name");
    reveal_strlit("/name");
    reveal_strlit("hog");
    reveal_strlit("/hog");
    reveal_strlit("/hog/name");
    reveal_strlit("direction");
    reveal_strlit("/hog/direction");
    lemma_decimal(offset as nat);
    let digits = decimal(offset as nat);
    let part = "line"@ + digits;
    assert(part[0] == 'l');
    lemma_join_relative(bank, part);
    let line = line_dir(bank, offset);
    assert(line =~= bank + in_line(offset, Seq::empty()));
    assert(line.last() == digits.last());
    lemma_join_relative(line, "name"@);
    assert(join(line, "name"@) =~= bank + in_line(offset, "/name"@));
    lemma_join_relative(line, "hog"@);
    let hog = hog_dir(line);
    assert(hog =~= bank + in_line(offset, "/hog"@));
    assert(hog.last() == 'g');
    lemma_join_relative(hog, "name"@);
    assert(join(hog, "name"@) =~= bank + in_line(offset, "/hog/name"@));
    lemma_join_relative(hog, "direction"@);
    assert(join(hog, "direction"@) =~= bank + in_line(offset, "/hog/direction"@));
}

/// The paths of the label and of the line count of a bank are the
/// directory of the bank followed by `/label` and by `/num_lines`.
pub proof fn lemma_bank_paths(bank: Seq<char>)
    requires
        bank.len() > 0,
        is_digit(bank.last()),
    ensures
        join(bank, "label"@) == bank + "/label"@,
        join(bank, "num_lines"@) == bank + "/num_lines"@,
        join(bank, "chip_name"@) == bank + "/chip_name"@,
{
    reveal_strlit("label");
    reveal_strlit("/label");
    reveal_strlit("num_lines");
    reveal_strlit("/num_lines");
    reveal_strlit("chip_name");
    reveal_strlit("/chip_name");
    lemma_join_relative(bank, "label"@);
    lemma_join_relative(bank, "num_lines"@);
    lemma_join_relative(bank, "chip_name"@);
    assert(bank + seq!['/'] + "label"@ =~= bank + "/label"@);
    assert(bank + seq!['/'] + "num_lines"@ =~= bank + "/num_lines"@);
    assert(bank + seq!['/'] + "chip_name"@ =~= bank + "/chip_name"@);
}

/// Two things of lines of one bank have the same path only if they are of
/// the same line and the same thing of it.
pub proof fn lemma_in_line_unique(a: Offset, s: Seq<char>, b: Offset, t: Seq<char>)
    requires
        slashy(s),
        slashy(t),
        in_line(a, s) == in_line(b, t),
    ensures
        a == b,
        s == t,
{
    lemma_decimal(a as nat);
    lemma_decimal(b as nat);
    assert(in_line(a, s) =~= "/line"@ + (decimal(a as nat) + s));
    assert(in_line(b, t) =~= "/line"@ + (decimal(b as nat) + t));
    lemma_cancel("/line"@, decimal(a as nat) + s, decimal(b as nat) + t);
    lemma_slashy_ends_digits(s);
    lemma_slashy_ends_digits(t);
    lemma_digits_end(decimal(a as nat), s, decimal(b as nat), t);
    lemma_decimal_injective(a as nat, b as nat);
}

/// Two things of banks of one simulator have the same path only if they
/// are of the same bank and the same thing of it.
pub proof fn lemma_in_bank_unique(a: nat, s: Seq<char>, b: nat, t: Seq<char>)
    requires
        slashy(s),
        slashy(t),
        in_bank(a, s) == in_bank(b, t),
    ensures
        a == b,
        s == t,
{
    lemma_decimal(a);
    lemma_decimal(b);
    assert(in_bank(a, s) =~= "bank"@ + (decimal(a) + s));
    assert(in_bank(b, t) =~= "bank"@ + (decimal(b) + t));
    lemma_cancel("bank"@, decimal(a) + s, decimal(b) + t);
    lemma_slashy_ends_digits(s);
    lemma_slashy_ends_digits(t);
    lemma_digits_end(decimal(a), s, decimal(b), t);
    lemma_decimal_injective(a, b);
}

/// Nothing of a line has the path of the directory, the label or the line
/// count of its bank.
pub proof fn lemma_in_line_is_not_head(offset: Offset, tail: Seq<char>)
    ensures
        in_line(offset, tail) != Seq::<char>::empty(),
        in_line(offset, tail) != "/label"@,
        in_line(offset, tail) != "/num_lines"@,
        slashy(in_line(offset, tail)),
{
    reveal_strlit("/line");
    reveal_strlit("/label");
    reveal_strlit("/num_lines");
    let path = in_line(offset, tail);
    assert("/line"@.len() == 5);
    assert(path.len() >= 5);
    assert(path[0] == "/line"@[0] && path[1] == "/line"@[1] && path[2] == "/line"@[2]);
    assert("/label"@.len() == 6 && "/label"@[2] == 'a');
    assert("/num_lines"@.len() == 10 && "/num_lines"@[1] == 'n');
}

} // verus!
