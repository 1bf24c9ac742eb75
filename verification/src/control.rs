//! The lines of a live chip: pulling them, and reading their pull and
//! their level.
//!
//! Each line has two attributes under the sysfs path of its chip, in
//! `sim_gpio<offset>`: `pull` holds `pull-up` or `pull-down`, and `value`
//! holds `0` or `1`.

use crate::config::Offset;
use crate::error::{outcome, Error, ErrorView};
use crate::level::{lemma_pull_round_trip, Level};
use crate::request::{Reply, ReplyView, Request, RequestView};
use crate::sim::{Chip, ChipView};
use crate::text::{decimal, join, join_path, to_decimal};
use vstd::prelude::*;
use vstd::string::*;

verus! {

impl ChipView {
    /// The path of the attribute `attr` of the line at `offset`.
    pub open spec fn attr(self, offset: Offset, attr: Seq<char>) -> Seq<char> {
        join(self.sysfs_path, "sim_gpio"@ + decimal(offset as nat) + "/"@ + attr)
    }

    /// What pulls the line at `offset` to `pull`.
    pub open spec fn set_pull(self, offset: Offset, pull: Level) -> RequestView {
        RequestView::Write { path: self.attr(offset, "pull"@), data: pull.pull_text() }
    }

    /// What reads the pull of the line at `offset`.
    pub open spec fn get_pull(self, offset: Offset) -> RequestView {
        RequestView::Read(self.attr(offset, "pull"@))
    }

    /// What reads the level that the line at `offset` is driven to.
    pub open spec fn get_level(self, offset: Offset) -> RequestView {
        RequestView::Read(self.attr(offset, "value"@))
    }

    /// What toggles the pull of the line at `offset`, after `reply` to the
    /// reading of that pull: the opposite pull and what sets it.
    pub open spec fn toggle(self, offset: Offset, reply: ReplyView) -> Result<
        (Level, RequestView),
        ErrorView,
    > {
        match reply.pull() {
            Ok(level) => Ok((level.toggled(), self.set_pull(offset, level.toggled()))),
            Err(e) => Err(e),
        }
    }
}

impl ReplyView {
    /// The pull that was read.
    pub open spec fn pull(self) -> Result<Level, ErrorView> {
        match self.value() {
            Ok(text) => Level::parse_pull(text),
            Err(e) => Err(e),
        }
    }

    /// The level that was read.
    pub open spec fn level(self) -> Result<Level, ErrorView> {
        match self.value() {
            Ok(text) => Level::parse_value(text),
            Err(e) => Err(e),
        }
    }
}

impl Reply {
    /// The pull that was read, from the reply to [`Chip::get_pull`].
    pub fn pull(self) -> (r: Result<Level, Error>)
        requires
            self@.is_content(),
        ensures
            outcome(r) == self@.pull(),
    {
        match self.value() {
            Ok(text) => Level::from_pull(text.as_str()),
            Err(e) => Err(e),
        }
    }

    /// The level that was read, from the reply to [`Chip::get_level`].
    pub fn level(self) -> (r: Result<Level, Error>)
        requires
            self@.is_content(),
        ensures
            outcome(r) == self@.level(),
    {
        match self.value() {
            Ok(text) => Level::from_value(text.as_str()),
            Err(e) => Err(e),
        }
    }
}

/// A level and what writes it, or an error seen through its view.
pub open spec fn toggle_outcome(r: Result<(Level, Request), Error>) -> Result<
    (Level, RequestView),
    ErrorView,
> {
    match r {
        Ok((level, request)) => Ok((level, request@)),
        Err(e) => Err(e@),
    }
}

impl Chip {
    /// The request that reads the attribute `attr` of the line at `offset`.
    /// [`Reply::value`] gives its value.
    pub fn get_attr(&self, offset: Offset, attr: &str) -> (request: Request)
        ensures
            request@ == RequestView::Read(self@.attr(offset, attr@)),
    {
        Request::Read(self.attr_path(offset, attr))
    }

    fn attr_path(&self, offset: Offset, attr: &str) -> (path: String)
        ensures
            path@ == self@.attr(offset, attr@),
    {
        let mut part = "sim_gpio".to_owned();
        part.append(to_decimal(offset as u64).as_str());
        part.append("/");
        part.append(attr);
        join_path(self.sysfs_path().as_str(), part.as_str())
    }

    /// The request that pulls a line, to simulate the line being externally
    /// driven.
    pub fn set_pull(&self, offset: Offset, pull: Level) -> (request: Request)
        ensures
            request@ == self@.set_pull(offset, pull),
    {
        Request::Write { path: self.attr_path(offset, "pull"), data: pull.as_pull().to_owned() }
    }

    /// The request that pulls a line up, to simulate the line being
    /// externally driven high.
    pub fn pullup(&self, offset: Offset) -> (request: Request)
        ensures
            request@ == self@.set_pull(offset, Level::High),
    {
        self.set_pull(offset, Level::High)
    }

    /// The request that pulls a line down, to simulate the line being
    /// externally driven low.
    pub fn pulldown(&self, offset: Offset) -> (request: Request)
        ensures
            request@ == self@.set_pull(offset, Level::Low),
    {
        self.set_pull(offset, Level::Low)
    }

    /// The request that reads the current state of the simulated external
    /// pull on a line.  [`Reply::pull`] gives the pull.
    pub fn get_pull(&self, offset: Offset) -> (request: Request)
        ensures
            request@ == self@.get_pull(offset),
    {
        self.get_attr(offset, "pull")
    }

    /// The request that reads the current output value for a simulated
    /// output line.  [`Reply::level`] gives the level.
    pub fn get_level(&self, offset: Offset) -> (request: Request)
        ensures
            request@ == self@.get_level(offset),
    {
        self.get_attr(offset, "value")
    }

    /// Toggle the pull on a line: from the reply to [`Chip::get_pull`] for
    /// the line, the opposite pull and the request that sets it.
    pub fn toggle(&self, offset: Offset, pull: Reply) -> (r: Result<(Level, Request), Error>)
        requires
            pull@.is_content(),
        ensures
            toggle_outcome(r) == self@.toggle(offset, pull@),
    {
        match pull.pull() {
            Ok(level) => {
                let value = level.toggle();
                Ok((value, self.set_pull(offset, value)))
            },
            Err(e) => Err(e),
        }
    }
}

/// Setting the pull of a line and getting it speak of one attribute, and
/// where what was written is read there, the pull that is got is the pull
/// that was set: as it was written, or followed by the line feed that the
/// kernel appends.
pub proof fn lemma_pull_reads_back(chip: ChipView, offset: Offset, pull: Level)
    ensures
        chip.set_pull(offset, pull) == (RequestView::Write {
            path: chip.attr(offset, "pull"@),
            data: pull.pull_text(),
        }),
        chip.get_pull(offset) == RequestView::Read(chip.attr(offset, "pull"@)),
        ReplyView::Text(pull.pull_text()).pull() == Ok::<Level, ErrorView>(pull),
        ReplyView::Text(pull.pull_text().push('\n')).pull() == Ok::<Level, ErrorView>(pull),
{
    lemma_pull_round_trip(pull);
    reveal_strlit("pull-up");
    reveal_strlit("pull-down");
    crate::text::lemma_trimmed_fixed(pull.pull_text());
}

/// Toggling the pull of a line twice sets the pull that the line had: the
/// first toggle sets the opposite pull, and the second, on reading that,
/// sets the first again.
pub proof fn lemma_toggle_twice_restores(chip: ChipView, offset: Offset, pull: Level)
    ensures
        chip.toggle(offset, ReplyView::Text(pull.pull_text())) == Ok::<
            (Level, RequestView),
            ErrorView,
        >((pull.toggled(), chip.set_pull(offset, pull.toggled()))),
        chip.toggle(offset, ReplyView::Text(pull.toggled().pull_text())) == Ok::<
            (Level, RequestView),
            ErrorView,
        >((pull, chip.set_pull(offset, pull))),
{
    lemma_pull_reads_back(chip, offset, pull);
    lemma_pull_reads_back(chip, offset, pull.toggled());
}

} // verus!
