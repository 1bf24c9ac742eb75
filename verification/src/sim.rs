//! Live simulators and their chips.

use crate::config::{bank_views, Bank, BankView};
use crate::layout::{
    bank_cleanup, banks_cleanup, banks_setup, cleanup_script, emit, push_bank_cleanup,
    push_bank_setup, setup_script, write_attr,
};
use crate::request::{request_views, Request, RequestView};
use crate::teardown::{Teardown, TeardownView};
use crate::text::{join, join_path};
use vstd::prelude::*;

verus! {

/// A simulated chip.
#[derive(Debug)]
pub struct Chip {
    /// The path to the chip in /dev
    ///
    /// e.g. `/dev/gpiochip0`
    dev_path: String,
    /// The name of the gpiochip in /dev and sysfs.
    ///
    /// e.g. `gpiochip0`
    pub chip_name: String,
    /// The name of the device in sysfs.
    ///
    /// e.g. `gpio-sim.0`
    pub dev_name: String,
    /// The path to the chip in /sys/device/platform.
    ///
    /// e.g. `/sys/devices/platform/gpio-sim.0/gpiochip0`
    sysfs_path: String,
    /// The configuration for the chip.
    cfg: Bank,
}

/// A [`Chip`] as mathematical values.
pub struct ChipView {
    pub dev_path: Seq<char>,
    pub chip_name: Seq<char>,
    pub dev_name: Seq<char>,
    pub sysfs_path: Seq<char>,
    pub cfg: BankView,
}

/// Where the kernel puts the device node of the chip named `chip_name`.
pub open spec fn dev_node(chip_name: Seq<char>) -> Seq<char> {
    join("/dev"@, chip_name)
}

/// Where the kernel puts the attributes of the lines of the chip named
/// `chip_name` of the device named `dev_name`.
pub open spec fn sysfs_node(dev_name: Seq<char>, chip_name: Seq<char>) -> Seq<char> {
    join(join("/sys/devices/platform"@, dev_name), chip_name)
}

impl ChipView {
    /// A chip that the kernel has not named yet.
    pub open spec fn unidentified(cfg: BankView) -> ChipView {
        ChipView {
            dev_path: Seq::empty(),
            chip_name: Seq::empty(),
            dev_name: Seq::empty(),
            sysfs_path: Seq::empty(),
            cfg,
        }
    }

    /// The chip configured by `cfg` that the kernel has named `chip_name`,
    /// on the device that it has named `dev_name`.
    pub open spec fn identified(
        cfg: BankView,
        dev_name: Seq<char>,
        chip_name: Seq<char>,
    ) -> ChipView {
        ChipView {
            dev_path: dev_node(chip_name),
            chip_name,
            dev_name,
            sysfs_path: sysfs_node(dev_name, chip_name),
            cfg,
        }
    }
}

impl View for Chip {
    type V = ChipView;

    closed spec fn view(&self) -> ChipView {
        ChipView {
            dev_path: self.dev_path@,
            chip_name: self.chip_name@,
            dev_name: self.dev_name@,
            sysfs_path: self.sysfs_path@,
            cfg: self.cfg@,
        }
    }
}

impl Chip {
    /// The chip configured by `cfg` that the kernel has named `chip_name`,
    /// on the device that it has named `dev_name`.
    pub fn new(cfg: Bank, dev_name: &str, chip_name: &str) -> (chip: Chip)
        ensures
            chip@ == ChipView::identified(cfg@, dev_name@, chip_name@),
    {
        let platform = join_path("/sys/devices/platform", dev_name);
        Chip {
            dev_path: join_path("/dev", chip_name),
            chip_name: chip_name.to_owned(),
            dev_name: dev_name.to_owned(),
            sysfs_path: join_path(platform.as_str(), chip_name),
            cfg,
        }
    }

    /// A chip configured by `cfg` that the kernel has not named yet.
    pub(crate) fn unidentified(cfg: Bank) -> (chip: Chip)
        ensures
            chip@ == ChipView::unidentified(cfg@),
    {
        Chip {
            dev_path: String::new(),
            chip_name: String::new(),
            dev_name: String::new(),
            sysfs_path: String::new(),
            cfg,
        }
    }

    /// The configuration for the chip
    pub fn config(&self) -> (cfg: &Bank)
        ensures
            cfg@ == self@.cfg,
    {
        &self.cfg
    }

    /// The path to the chip in /dev
    ///
    /// e.g. `/dev/gpiochip0`
    pub fn dev_path(&self) -> (path: &String)
        ensures
            path@ == self@.dev_path,
    {
        &self.dev_path
    }

    /// The name of the gpiochip in /dev and sysfs, as the field `chip_name`
    /// holds it.
    pub fn chip_name(&self) -> (name: &String)
        ensures
            name@ == self@.chip_name,
    {
        &self.chip_name
    }

    /// The name of the device in sysfs, as the field `dev_name` holds it.
    pub fn dev_name(&self) -> (name: &String)
        ensures
            name@ == self@.dev_name,
    {
        &self.dev_name
    }

    /// The path to the chip in /sys/devices/platform
    ///
    /// e.g. `/sys/devices/platform/gpio-sim.0/gpiochip0`
    pub fn sysfs_path(&self) -> (path: &String)
        ensures
            path@ == self@.sysfs_path,
    {
        &self.sysfs_path
    }
}

/// The views of `chips`, in order.
pub open spec fn chip_views(chips: Seq<Chip>) -> Seq<ChipView> {
    Seq::new(chips.len(), |i: int| chips[i]@)
}

/// A simulator of one or more chips.
#[derive(Debug, PartialEq, Eq)]
pub struct Sim {
    /// The name of the simulator in configfs and sysfs space.
    name: String,
    /// The details of the chips being simulated.
    chips: Vec<Chip>,
    /// Path to the simulator in configfs.
    dir: String,
}

/// A [`Sim`] as mathematical values.
pub struct SimView {
    pub name: Seq<char>,
    pub chips: Seq<ChipView>,
    pub dir: Seq<char>,
}

impl SimView {
    /// The configurations of the chips, in order.
    pub open spec fn banks(self) -> Seq<BankView> {
        Seq::new(self.chips.len(), |i: int| self.chips[i].cfg)
    }

    /// This simulator with its chip `index` named by the kernel.
    pub open spec fn identify(
        self,
        index: int,
        dev_name: Seq<char>,
        chip_name: Seq<char>,
    ) -> SimView {
        SimView {
            chips: self.chips.update(
                index,
                ChipView::identified(self.chips[index].cfg, dev_name, chip_name),
            ),
            ..self
        }
    }
}

/// The chips of `banks` before the kernel has named them.
pub open spec fn unidentified_chips(banks: Seq<BankView>) -> Seq<ChipView> {
    Seq::new(banks.len(), |i: int| ChipView::unidentified(banks[i]))
}

impl View for Sim {
    type V = SimView;

    closed spec fn view(&self) -> SimView {
        SimView { name: self.name@, chips: chip_views(self.chips@), dir: self.dir@ }
    }
}

impl Sim {
    /// The simulator named `name` of the `banks`, configured at `dir`,
    /// before the kernel has named its chips.
    pub(crate) fn new(name: String, dir: String, banks: &Vec<Bank>) -> (sim: Sim)
        ensures
            sim@ == (SimView {
                name: name@,
                chips: unidentified_chips(bank_views(banks@)),
                dir: dir@,
            }),
    {
        let mut chips: Vec<Chip> = Vec::new();
        let mut i: usize = 0;
        while i < banks.len()
            invariant
                i <= banks.len(),
                chips.len() == i,
                forall|j: int| 0 <= j < i ==> chips@[j]@ == ChipView::unidentified(banks@[j]@),
            decreases banks.len() - i,
        {
            chips.push(Chip::unidentified(banks[i].clone()));
            i += 1;
        }
        let sim = Sim { name, chips, dir };
        assert(sim@.chips =~= unidentified_chips(bank_views(banks@)));
        sim
    }

    /// The details of the chips being simulated.
    pub fn chips(&self) -> (chips: &[Chip])
        ensures
            chip_views(chips@) == self@.chips,
    {
        self.chips.as_slice()
    }

    /// The name of the simulator in configfs and sysfs space.
    pub fn name(&self) -> (name: &str)
        ensures
            name@ == self@.name,
    {
        self.name.as_str()
    }

    /// Path to the simulator in configfs.
    pub fn dir(&self) -> (dir: &str)
        ensures
            dir@ == self@.dir,
    {
        self.dir.as_str()
    }

    /// Gives the simulator its name.
    pub(crate) fn set_name(&mut self, name: String)
        ensures
            final(self)@ == (SimView { name: name@, ..old(self)@ }),
    {
        self.name = name;
    }

    /// Gives the simulator its place in configfs.
    pub(crate) fn set_dir(&mut self, dir: String)
        ensures
            final(self)@ == (SimView { dir: dir@, ..old(self)@ }),
    {
        self.dir = dir;
    }

    /// How many chips the simulator has.
    pub fn chip_count(&self) -> (count: usize)
        ensures
            count == self@.chips.len(),
    {
        self.chips.len()
    }

    /// The requests that configure the simulator and hand it to the kernel,
    /// in order.  Each is to be performed if the one before it succeeded,
    /// but for the one after a look that has found its directory.
    pub fn setup_configfs(&self) -> (script: Vec<Request>)
        ensures
            request_views(script@) == setup_script(self@.dir, self@.banks()),
            script@.len() > 0,
    {
        let mut script: Vec<Request> = Vec::new();
        let mut i: usize = 0;
        assert(request_views(script@) =~= Seq::<RequestView>::empty());
        assert(self@.banks().take(0) =~= Seq::<BankView>::empty());
        while i < self.chips.len()
            invariant
                i <= self.chips.len(),
                request_views(script@) == banks_setup(self@.dir, self@.banks().take(i as int)),
            decreases self.chips.len() - i,
        {
            proof {
                let done = self@.banks().take(i as int);
                let more = self@.banks().take(i + 1);
                assert(more.drop_last() =~= done);
                assert(more.last() == self.chips@[i as int]@.cfg);
            }
            push_bank_setup(&mut script, self.dir.as_str(), i, &self.chips[i].cfg);
            i += 1;
        }
        assert(self@.banks().take(i as int) =~= self@.banks());
        emit(&mut script, write_attr(self.dir.as_str(), "live", "1"));
        assert(request_views(script@).len() == script@.len());
        script
    }

    /// Begins the teardown of the simulator: the machine that runs it, and
    /// the first request to perform.
    pub fn cleanup_configfs(&self) -> (start: (Teardown, Request))
        ensures
            start.0@ == TeardownView::start(
                self@.dir,
                cleanup_script(self@.dir, self@.banks()),
            ),
            start.1@ == start.0@.pending(),
    {
        let mut script: Vec<Request> = Vec::new();
        emit(&mut script, write_attr(self.dir.as_str(), "live", "0"));
        let ghost head = request_views(script@);
        let mut i: usize = 0;
        assert(self@.banks().take(0) =~= Seq::<BankView>::empty());
        assert(head + banks_cleanup(self@.dir, self@.banks().take(0)) =~= head);
        while i < self.chips.len()
            invariant
                i <= self.chips.len(),
                head == seq![
                    RequestView::Write { path: join(self@.dir, "live"@), data: "0"@ },
                ],
                request_views(script@) == head + banks_cleanup(
                    self@.dir,
                    self@.banks().take(i as int),
                ),
            decreases self.chips.len() - i,
        {
            proof {
                let done = self@.banks().take(i as int);
                let more = self@.banks().take(i + 1);
                assert(more.drop_last() =~= done);
                assert(more.last() == self.chips@[i as int]@.cfg);
            }
            push_bank_cleanup(&mut script, self.dir.as_str(), i, &self.chips[i].cfg);
            proof {
                let done = banks_cleanup(self@.dir, self@.banks().take(i as int));
                let this = bank_cleanup(self@.dir, i as nat, self.chips@[i as int]@.cfg);
                assert(request_views(script@) =~= head + (done + this));
            }
            i += 1;
        }
        assert(self@.banks().take(i as int) =~= self@.banks());
        emit(&mut script, Request::RemoveDir(self.dir.clone()));
        proof {
            assert(request_views(script@) =~= cleanup_script(self@.dir, self@.banks()));
        }
        Teardown::new(self.dir.clone(), script)
    }

    /// Records what the kernel has named chip `index`: the name of the chip,
    /// the name of the device, and the paths that follow from them.
    pub(crate) fn read_attrs(&mut self, index: usize, dev_name: &str, chip_name: &str)
        requires
            index < old(self)@.chips.len(),
        ensures
            final(self)@ == old(self)@.identify(index as int, dev_name@, chip_name@),
    {
        let cfg = self.chips[index].cfg.clone();
        self.chips.set(index, Chip::new(cfg, dev_name, chip_name));
        assert(self@.chips =~= old(self)@.identify(index as int, dev_name@, chip_name@).chips);
    }
}

} // verus!
