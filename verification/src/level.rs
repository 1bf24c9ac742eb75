//! The two levels of a line, and how the kernel writes them.

use crate::error::{outcome, Error, ErrorView};
use crate::text::text_eq;
use vstd::prelude::*;

verus! {

/// The physical value of a line.
#[derive(Clone, Copy, Debug, PartialEq, Eq, Structural)]
pub enum Level {
    /// The line is physically high.
    High,
    /// The line is physically low.
    Low,
}

impl Level {
    /// The other level.
    pub open spec fn toggled(self) -> Level {
        match self {
            Level::High => Level::Low,
            Level::Low => Level::High,
        }
    }

    /// What the `pull` attribute of a line holds while the line is pulled to
    /// this level.
    pub open spec fn pull_text(self) -> Seq<char> {
        match self {
            Level::High => "pull-up"@,
            Level::Low => "pull-down"@,
        }
    }

    /// The level that the content `text` of a `pull` attribute stands for.
    pub open spec fn parse_pull(text: Seq<char>) -> Result<Level, ErrorView> {
        if text == "pull-down"@ {
            Ok(Level::Low)
        } else if text == "pull-up"@ {
            Ok(Level::High)
        } else {
            Err(ErrorView::UnexpectedValue(text))
        }
    }

    /// The level that the content `text` of a `value` attribute stands for.
    pub open spec fn parse_value(text: Seq<char>) -> Result<Level, ErrorView> {
        if text == "0"@ {
            Ok(Level::Low)
        } else if text == "1"@ {
            Ok(Level::High)
        } else {
            Err(ErrorView::UnexpectedValue(text))
        }
    }

    /// Toggle the level between high and low.
    pub fn toggle(&self) -> (r: Level)
        ensures
            r == self.toggled(),
    {
        match self {
            Level::High => Level::Low,
            Level::Low => Level::High,
        }
    }

    /// The text to write to a `pull` attribute to pull the line to this level.
    pub fn as_pull(&self) -> (s: &'static str)
        ensures
            s@ == self.pull_text(),
    {
        match self {
            Level::High => "pull-up",
            Level::Low => "pull-down",
        }
    }

    /// Reads a level from the content of a `pull` attribute.
    pub fn from_pull(text: &str) -> (r: Result<Level, Error>)
        ensures
            outcome(r) == Level::parse_pull(text@),
    {
        if text_eq(text, "pull-down") {
            Ok(Level::Low)
        } else if text_eq(text, "pull-up") {
            Ok(Level::High)
        } else {
            Err(Error::UnexpectedValue(text.to_owned()))
        }
    }

    /// Reads a level from the content of a `value` attribute.
    pub fn from_value(text: &str) -> (r: Result<Level, Error>)
        ensures
            outcome(r) == Level::parse_value(text@),
    {
        if text_eq(text, "0") {
            Ok(Level::Low)
        } else if text_eq(text, "1") {
            Ok(Level::High)
        } else {
            Err(Error::UnexpectedValue(text.to_owned()))
        }
    }
}

/// Toggling is its own inverse.
pub proof fn lemma_toggle_twice(level: Level)
    ensures
        level.toggled().toggled() == level,
        level.toggled() != level,
{
}

/// A level written as a pull reads back as itself, bare or followed by the
/// line feed that the kernel appends.
pub proof fn lemma_pull_round_trip(level: Level)
    ensures
        Level::parse_pull(level.pull_text()) == Ok::<Level, ErrorView>(level),
        Level::parse_pull(crate::text::trimmed(level.pull_text().push('\n'))) == Ok::<
            Level,
            ErrorView,
        >(level),
{
    reveal_strlit("pull-up");
    reveal_strlit("pull-down");
    assert("pull-up"@.len() != "pull-down"@.len());
    crate::text::lemma_trimmed_line(level.pull_text());
}

} // verus!
