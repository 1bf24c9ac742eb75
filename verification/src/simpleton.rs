//! A basic single bank/chip sim.
//!
//! This is sufficient for tests that do not require named lines, hogged
//! lines or multiple chips.

use crate::config::{Bank, BankView, Builder, BuilderView, Offset};
use crate::error::Error;
use crate::level::Level;
use crate::request::{Reply, Request};
use crate::control::toggle_outcome;
use crate::sim::{Chip, ChipView, Sim, SimView};
use vstd::prelude::*;

verus! {

/// A basic single bank/chip sim.
#[derive(Debug)]
pub struct Simpleton {
    sim: Sim,
}

impl View for Simpleton {
    type V = SimView;

    closed spec fn view(&self) -> SimView {
        self.sim@
    }
}

impl Simpleton {
    #[verifier::type_invariant]
    spec fn inv(&self) -> bool {
        self.sim@.chips.len() == 1
    }

    /// The chip of the simulator.
    pub open spec fn only(&self) -> ChipView {
        self@.chips[0]
    }

    /// The configuration of a basic single bank sim: one bank of
    /// `num_lines` lines with the label `simpleton`, under a name still to
    /// be generated.
    pub fn builder(num_lines: u32) -> (config: Builder)
        ensures
            config@ == (BuilderView {
                name: None,
                banks: seq![BankView::new(num_lines, "simpleton"@)],
            }),
    {
        let mut config = crate::config::builder();
        config.with_bank(&Bank::new(num_lines, "simpleton"));
        assert(config@.banks =~= seq![BankView::new(num_lines, "simpleton"@)]);
        config
    }

    /// Wraps the live simulator of a basic single bank sim.
    pub fn new(sim: Sim) -> (simpleton: Simpleton)
        requires
            sim@.chips.len() == 1,
        ensures
            simpleton@ == sim@,
    {
        Simpleton { sim }
    }

    /// The simulator.
    pub fn sim(&self) -> (sim: &Sim)
        ensures
            sim@ == self@,
            sim@.chips.len() == 1,
    {
        proof {
            use_type_invariant(self);
        }
        &self.sim
    }

    /// Return the only chip simulated by the Simpleton.
    pub fn chip(&self) -> (chip: &Chip)
        ensures
            chip@ == self.only(),
    {
        proof {
            use_type_invariant(self);
        }
        let chips = self.sim.chips();
        assert(crate::sim::chip_views(chips@)[0] == chips@[0]@);
        &chips[0]
    }

    /// The configuration for the Simpleton chip
    pub fn config(&self) -> (cfg: &Bank)
        ensures
            cfg@ == self.only().cfg,
    {
        self.chip().config()
    }

    /// Return path to the chip in /dev.
    pub fn dev_path(&self) -> (path: &String)
        ensures
            path@ == self.only().dev_path,
    {
        self.chip().dev_path()
    }

    /// The request that pulls a line, to simulate the line being externally
    /// driven.
    pub fn set_pull(&self, offset: Offset, pull: Level) -> (request: Request)
        ensures
            request@ == self.only().set_pull(offset, pull),
    {
        self.chip().set_pull(offset, pull)
    }

    /// The request that pulls a line up, to simulate the line being
    /// externally driven high.
    pub fn pullup(&self, offset: Offset) -> (request: Request)
        ensures
            request@ == self.only().set_pull(offset, Level::High),
    {
        self.set_pull(offset, Level::High)
    }

    /// The request that pulls a line down, to simulate the line being
    /// externally driven low.
    pub fn pulldown(&self, offset: Offset) -> (request: Request)
        ensures
            request@ == self.only().set_pull(offset, Level::Low),
    {
        self.set_pull(offset, Level::Low)
    }

    /// Toggle the pull on a line: from the reply to
    /// [`Simpleton::get_pull`] for the line, the opposite pull and the
    /// request that sets it.
    pub fn toggle(&self, offset: Offset, pull: Reply) -> (r: Result<(Level, Request), Error>)
        requires
            pull@.is_content(),
        ensures
            toggle_outcome(r) == self.only().toggle(offset, pull@),
    {
        self.chip().toggle(offset, pull)
    }

    /// The request that reads the current state of the simulated external
    /// pull on a line.  [`Reply::pull`] gives the pull.
    pub fn get_pull(&self, offset: Offset) -> (request: Request)
        ensures
            request@ == self.only().get_pull(offset),
    {
        self.chip().get_pull(offset)
    }

    /// The request that reads the current output value for a simulated
    /// output line.  [`Reply::level`] gives the level.
    pub fn get_level(&self, offset: Offset) -> (request: Request)
        ensures
            request@ == self.only().get_level(offset),
    {
        self.chip().get_level(offset)
    }
}

} // verus!
