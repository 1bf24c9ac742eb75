//! Taking a configuration live.
//!
//! The simulator gets its name and its place, the place is made sure to be
//! free, the tree is built, the kernel is told to go live, and what the
//! kernel has named the device and its chips is read back.  Whatever fails
//! once the directory of the simulator exists, the tree is taken down again
//! before the failure is reported.

use crate::config::{BankView, Builder, BuilderView};
use crate::error::{Error, ErrorView};
use crate::layout::{bank_dir, bank_path, cleanup_script, read_attr, setup_script};
use crate::locator::{find_configfs, Locator, LocatorView};
use crate::naming::{app_of, default_name, unique};
use crate::request::{request_views, Move, Progress, Reply, ReplyView, Request, RequestView};
use crate::sim::{dev_node, unidentified_chips, ChipView, Sim, SimView};
use crate::teardown::{Teardown, TeardownView};
use crate::text::{join, join_path};
use vstd::pervasive::unreached;
use vstd::prelude::*;

verus! {

/// Why a configuration did not go live.
#[derive(Debug)]
pub enum Refusal {
    /// Something failed.
    Error(Error),
    /// The device node of a chip is a symbolic link.  Whatever it points
    /// to, what is written to the chip could reach real hardware: the
    /// caller must not go on.
    Symlink { dev_path: String, chip_name: String },
}

/// A [`Refusal`] with its texts as sequences.
pub enum RefusalView {
    Error(ErrorView),
    Symlink { dev_path: Seq<char>, chip_name: Seq<char> },
}

impl View for Refusal {
    type V = RefusalView;

    open spec fn view(&self) -> RefusalView {
        match self {
            Refusal::Error(e) => RefusalView::Error(e@),
            Refusal::Symlink { dev_path, chip_name } => RefusalView::Symlink {
                dev_path: dev_path@,
                chip_name: chip_name@,
            },
        }
    }
}

/// How taking a configuration live ended, seen through views.
pub open spec fn activated(r: Result<Sim, Refusal>) -> Result<SimView, RefusalView> {
    match r {
        Ok(sim) => Ok(sim@),
        Err(refusal) => Err(refusal@),
    }
}

#[derive(Debug)]
enum Stage {
    Naming,
    Locating(Locator),
    Probing,
    Creating,
    Setup(usize),
    DevName,
    ChipName { dev_name: String, index: usize },
    Link { dev_name: String, chip_name: String, index: usize },
    Unwinding { teardown: Teardown, cause: Refusal },
}

/// Where an activation stands.
pub enum StageView {
    /// Asked who the process is, to make a name.
    Naming,
    /// Looking for the place where simulators are configured.
    Locating(LocatorView),
    /// Asked whether the directory of the simulator exists.
    Probing,
    /// Asked to create the directory of the simulator.
    Creating,
    /// Asked for the request at this index of the setup.
    Setup(nat),
    /// Asked what the kernel has named the device.
    DevName,
    /// Asked what the kernel has named the chip at `index`.
    ChipName { dev_name: Seq<char>, index: nat },
    /// Asked whether the device node of the chip at `index` is a symbolic
    /// link.
    Link { dev_name: Seq<char>, chip_name: Seq<char>, index: nat },
    /// Taking the tree down again, to report `cause` after it.
    Unwinding { teardown: TeardownView, cause: RefusalView },
}

impl View for Stage {
    type V = StageView;

    closed spec fn view(&self) -> StageView {
        match self {
            Stage::Naming => StageView::Naming,
            Stage::Locating(locator) => StageView::Locating(locator@),
            Stage::Probing => StageView::Probing,
            Stage::Creating => StageView::Creating,
            Stage::Setup(at) => StageView::Setup(*at as nat),
            Stage::DevName => StageView::DevName,
            Stage::ChipName { dev_name, index } => StageView::ChipName {
                dev_name: dev_name@,
                index: *index as nat,
            },
            Stage::Link { dev_name, chip_name, index } => StageView::Link {
                dev_name: dev_name@,
                chip_name: chip_name@,
                index: *index as nat,
            },
            Stage::Unwinding { teardown, cause } => StageView::Unwinding {
                teardown: teardown@,
                cause: cause@,
            },
        }
    }
}

/// A configuration on its way to a live simulator.
#[derive(Debug)]
pub struct Activation {
    sim: Sim,
    script: Vec<Request>,
    stage: Stage,
}

/// An [`Activation`] as mathematical values.
pub struct ActivationView {
    /// The simulator as far as it is known.
    pub sim: SimView,
    /// How far the activation has come.
    pub stage: StageView,
}

impl ActivationView {
    /// The activation of `config` before its first reply.
    pub open spec fn start(config: BuilderView) -> ActivationView {
        ActivationView {
            sim: SimView {
                name: match config.name {
                    Some(name) => name,
                    None => Seq::empty(),
                },
                chips: unidentified_chips(config.banks),
                dir: Seq::empty(),
            },
            stage: match config.name {
                Some(_) => StageView::Locating(LocatorView::Default),
                None => StageView::Naming,
            },
        }
    }

    /// What configures the simulator and hands it to the kernel.
    pub open spec fn setup(self) -> Seq<RequestView> {
        setup_script(self.sim.dir, self.sim.banks())
    }

    /// The teardown of the simulator before its first reply.
    pub open spec fn teardown(self) -> TeardownView {
        TeardownView::start(self.sim.dir, cleanup_script(self.sim.dir, self.sim.banks()))
    }

    /// The request that asks what the kernel has named the chip at `index`.
    pub open spec fn ask_chip_name(self, index: nat) -> RequestView {
        RequestView::Read(join(bank_dir(self.sim.dir, index), "chip_name"@))
    }

    /// The request that the activation waits on.
    pub open spec fn pending(self) -> RequestView {
        match self.stage {
            StageView::Naming => RequestView::Identify,
            StageView::Locating(locator) => locator.pending(),
            StageView::Probing => RequestView::Exists(self.sim.dir),
            StageView::Creating => RequestView::CreateDir(self.sim.dir),
            StageView::Setup(at) => self.setup()[at as int],
            StageView::DevName => RequestView::Read(join(self.sim.dir, "dev_name"@)),
            StageView::ChipName { index, .. } => self.ask_chip_name(index),
            StageView::Link { chip_name, .. } => RequestView::IsSymlink(dev_node(chip_name)),
            StageView::Unwinding { teardown, .. } => teardown.pending(),
        }
    }

    /// Whether `reply` can answer the pending request.
    pub open spec fn understands(self, reply: ReplyView) -> bool {
        match self.stage {
            StageView::Naming => reply is Identity,
            StageView::Locating(locator) => locator.understands(reply),
            StageView::Probing => true,
            StageView::Creating => reply.is_completion(),
            StageView::Setup(at) => self.setup()[at as int] is Exists || reply.is_completion(),
            StageView::DevName => reply.is_content(),
            StageView::ChipName { .. } => reply.is_content(),
            StageView::Link { .. } => reply.is_finding(),
            StageView::Unwinding { .. } => true,
        }
    }

    /// Whether the activation has not yet asked for the directory of its
    /// simulator to be created.
    pub open spec fn untouched(self) -> bool {
        self.stage is Naming || self.stage is Locating || self.stage is Probing
    }

    /// This activation at another stage.
    pub open spec fn at(self, stage: StageView) -> ActivationView {
        ActivationView { stage, ..self }
    }

    /// This activation as it takes the tree down again, to report `cause`.
    pub open spec fn unwind(self, cause: RefusalView) -> Move<
        ActivationView,
        Result<SimView, RefusalView>,
    > {
        Move::Next(self.at(StageView::Unwinding { teardown: self.teardown(), cause }))
    }

    /// This activation as it goes on with the request at `at` of the setup,
    /// or with the reading back where the setup has no such request.
    pub open spec fn go_on(self, at: nat) -> Move<ActivationView, Result<SimView, RefusalView>> {
        if at < self.setup().len() {
            Move::Next(self.at(StageView::Setup(at)))
        } else {
            Move::Next(self.at(StageView::DevName))
        }
    }

    /// This activation as it fails with `e` before anything was created.
    pub open spec fn fail(e: ErrorView) -> Move<ActivationView, Result<SimView, RefusalView>> {
        Move::Done(Err(RefusalView::Error(e)))
    }

    /// The activation after `reply` to the pending request.
    pub open spec fn step(self, reply: ReplyView) -> Move<
        ActivationView,
        Result<SimView, RefusalView>,
    > {
        match self.stage {
            StageView::Naming => match reply {
                ReplyView::Identity { file_name, pid, count } => Move::Next(
                    ActivationView {
                        sim: SimView {
                            name: unique(app_of(file_name), pid, count, None),
                            ..self.sim
                        },
                        stage: StageView::Locating(LocatorView::Default),
                    },
                ),
                _ => arbitrary(),
            },
            StageView::Locating(locator) => match locator.step(reply) {
                Move::Next(next) => Move::Next(self.at(StageView::Locating(next))),
                Move::Done(Ok(place)) => Move::Next(
                    ActivationView {
                        sim: SimView { dir: join(place, self.sim.name), ..self.sim },
                        stage: StageView::Probing,
                    },
                ),
                Move::Done(Err(e)) => Self::fail(e),
            },
            StageView::Probing => if reply.found() {
                Self::fail(ErrorView::SimulatorExists(self.sim.name))
            } else {
                Move::Next(self.at(StageView::Creating))
            },
            StageView::Creating => match reply.completion() {
                Ok(_) => Move::Next(self.at(StageView::Setup(0))),
                Err(e) => Self::fail(e),
            },
            StageView::Setup(at) => if self.setup()[at as int] is Exists {
                self.go_on(if reply.found() {
                    at + 2
                } else {
                    at + 1
                })
            } else {
                match reply.completion() {
                    Ok(_) => self.go_on(at + 1),
                    Err(e) => self.unwind(RefusalView::Error(e)),
                }
            },
            StageView::DevName => match reply.value() {
                Ok(dev_name) => if self.sim.chips.len() == 0 {
                    Move::Done(Ok(self.sim))
                } else {
                    Move::Next(self.at(StageView::ChipName { dev_name, index: 0 }))
                },
                Err(e) => self.unwind(RefusalView::Error(e)),
            },
            StageView::ChipName { dev_name, index } => match reply.value() {
                Ok(chip_name) => Move::Next(
                    self.at(StageView::Link { dev_name, chip_name, index }),
                ),
                Err(e) => self.unwind(RefusalView::Error(e)),
            },
            StageView::Link { dev_name, chip_name, index } => match reply {
                ReplyView::Found(link) => if link {
                    self.unwind(
                        RefusalView::Symlink { dev_path: dev_node(chip_name), chip_name },
                    )
                } else {
                    let sim = self.sim.identify(index as int, dev_name, chip_name);
                    if index + 1 < sim.chips.len() {
                        Move::Next(
                            ActivationView {
                                sim,
                                stage: StageView::ChipName { dev_name, index: index + 1 },
                            },
                        )
                    } else {
                        Move::Done(Ok(sim))
                    }
                },
                ReplyView::Failed(e) => self.unwind(RefusalView::Error(ErrorView::IoError(e))),
                _ => arbitrary(),
            },
            StageView::Unwinding { teardown, cause } => match teardown.step(reply) {
                Some(next) => Move::Next(
                    self.at(StageView::Unwinding { teardown: next, cause }),
                ),
                None => Move::Done(Err(cause)),
            },
        }
    }
}

impl View for Activation {
    type V = ActivationView;

    closed spec fn view(&self) -> ActivationView {
        ActivationView { sim: self.sim@, stage: self.stage@ }
    }
}

impl Activation {
    #[verifier::type_invariant]
    spec fn inv(&self) -> bool {
        match self.stage {
            Stage::Setup(at) => at < self.script@.len() && request_views(self.script@)
                == self@.setup(),
            Stage::ChipName { index, .. } => index < self.sim@.chips.len(),
            Stage::Link { index, .. } => index < self.sim@.chips.len(),
            _ => true,
        }
    }

    /// Whether `reply` can answer the pending request.
    pub fn accepts(&self, reply: &Reply) -> (fits: bool)
        ensures
            fits == self@.understands(reply@),
    {
        match &self.stage {
            Stage::Naming => matches!(reply, Reply::Identity { .. }),
            Stage::Locating(locator) => locator.accepts(reply),
            Stage::Probing => true,
            Stage::Creating => reply.is_completion(),
            Stage::Setup(at) => {
                proof {
                    use_type_invariant(self);
                }
                matches!(self.script[*at], Request::Exists(_)) || reply.is_completion()
            },
            Stage::DevName => reply.is_content(),
            Stage::ChipName { .. } => reply.is_content(),
            Stage::Link { .. } => matches!(reply, Reply::Found(_) | Reply::Failed(_)),
            Stage::Unwinding { .. } => true,
        }
    }

    /// Takes the reply to the pending request and says what to do next, or
    /// how the activation ended.
    pub fn step(self, reply: Reply) -> (next: Progress<Activation, Result<Sim, Refusal>>)
        requires
            self@.understands(reply@),
        ensures
            match next {
                Progress::Next(machine, request) => self@.step(reply@) == Move::<
                    ActivationView,
                    Result<SimView, RefusalView>,
                >::Next(machine@) && request@ == machine@.pending(),
                Progress::Done(r) => self@.step(reply@) == Move::<
                    ActivationView,
                    Result<SimView, RefusalView>,
                >::Done(activated(r)),
            },
    {
        proof {
            use_type_invariant(&self);
        }
        let Activation { mut sim, script, stage } = self;
        match stage {
            Stage::Naming => match reply {
                Reply::Identity { file_name, pid, count } => {
                    let name = match &file_name {
                        Some(name) => default_name(Some(name.as_str()), pid, count),
                        None => default_name(None, pid, count),
                    };
                    sim.set_name(name);
                    let (locator, request) = find_configfs();
                    Progress::Next(
                        Activation { sim, script, stage: Stage::Locating(locator) },
                        request,
                    )
                },
                _ => unreached(),
            },
            Stage::Locating(locator) => match locator.step(reply) {
                Progress::Next(locator, request) => Progress::Next(
                    Activation { sim, script, stage: Stage::Locating(locator) },
                    request,
                ),
                Progress::Done(Ok(place)) => {
                    let dir = join_path(place.as_str(), sim.name());
                    let request = Request::Exists(dir.clone());
                    sim.set_dir(dir);
                    Progress::Next(Activation { sim, script, stage: Stage::Probing }, request)
                },
                Progress::Done(Err(e)) => Progress::Done(Err(Refusal::Error(e))),
            },
            Stage::Probing => {
                if matches!(reply, Reply::Found(true)) {
                    Progress::Done(
                        Err(Refusal::Error(Error::SimulatorExists(sim.name().to_owned()))),
                    )
                } else {
                    let request = Request::CreateDir(sim.dir().to_owned());
                    Progress::Next(Activation { sim, script, stage: Stage::Creating }, request)
                }
            },
            Stage::Creating => match reply.completion() {
                Ok(_) => {
                    let script = sim.setup_configfs();
                    let request = script[0].clone();
                    Progress::Next(Activation { sim, script, stage: Stage::Setup(0) }, request)
                },
                Err(e) => Progress::Done(Err(Refusal::Error(e))),
            },
            Stage::Setup(at) => {
                let len = script.len();
                if matches!(script[at], Request::Exists(_)) {
                    if matches!(reply, Reply::Found(true)) && at + 1 < len {
                        go_on(sim, script, at + 2)
                    } else {
                        go_on(sim, script, at + 1)
                    }
                } else {
                    match reply.completion() {
                        Ok(_) => go_on(sim, script, at + 1),
                        Err(e) => unwind(sim, script, Refusal::Error(e)),
                    }
                }
            },
            Stage::DevName => match reply.value() {
                Ok(dev_name) => {
                    if sim.chip_count() == 0 {
                        Progress::Done(Ok(sim))
                    } else {
                        let request = ask_chip_name(&sim, 0);
                        Progress::Next(
                            Activation {
                                sim,
                                script,
                                stage: Stage::ChipName { dev_name, index: 0 },
                            },
                            request,
                        )
                    }
                },
                Err(e) => unwind(sim, script, Refusal::Error(e)),
            },
            Stage::ChipName { dev_name, index } => match reply.value() {
                Ok(chip_name) => {
                    let request = Request::IsSymlink(join_path("/dev", chip_name.as_str()));
                    Progress::Next(
                        Activation {
                            sim,
                            script,
                            stage: Stage::Link { dev_name, chip_name, index },
                        },
                        request,
                    )
                },
                Err(e) => unwind(sim, script, Refusal::Error(e)),
            },
            Stage::Link { dev_name, chip_name, index } => match reply {
                Reply::Found(link) => {
                    if link {
                        let dev_path = join_path("/dev", chip_name.as_str());
                        unwind(sim, script, Refusal::Symlink { dev_path, chip_name })
                    } else {
                        sim.read_attrs(index, dev_name.as_str(), chip_name.as_str());
                        let count = sim.chip_count();
                        if index + 1 < count {
                            let request = ask_chip_name(&sim, index + 1);
                            Progress::Next(
                                Activation {
                                    sim,
                                    script,
                                    stage: Stage::ChipName { dev_name, index: index + 1 },
                                },
                                request,
                            )
                        } else {
                            Progress::Done(Ok(sim))
                        }
                    }
                },
                Reply::Failed(e) => unwind(sim, script, Refusal::Error(Error::IoError(e))),
                _ => unreached(),
            },
            Stage::Unwinding { teardown, cause } => match teardown.step(reply) {
                Progress::Next(teardown, request) => Progress::Next(
                    Activation { sim, script, stage: Stage::Unwinding { teardown, cause } },
                    request,
                ),
                Progress::Done(_) => Progress::Done(Err(cause)),
            },
        }
    }
}

fn go_on(sim: Sim, script: Vec<Request>, at: usize) -> (next: Progress<
    Activation,
    Result<Sim, Refusal>,
>)
    requires
        request_views(script@) == setup_script(sim@.dir, sim@.banks()),
    ensures
        next matches Progress::Next(machine, request) && machine@ == (ActivationView {
            sim: sim@,
            stage: if at < script@.len() {
                StageView::Setup(at as nat)
            } else {
                StageView::DevName
            },
        }) && request@ == machine@.pending(),
{
    if at < script.len() {
        let request = script[at].clone();
        Progress::Next(Activation { sim, script, stage: Stage::Setup(at) }, request)
    } else {
        let request = read_attr(sim.dir(), "dev_name");
        Progress::Next(Activation { sim, script, stage: Stage::DevName }, request)
    }
}

fn ask_chip_name(sim: &Sim, index: usize) -> (request: Request)
    ensures
        request@ == RequestView::Read(join(bank_dir(sim@.dir, index as nat), "chip_name"@)),
{
    read_attr(bank_path(sim.dir(), index).as_str(), "chip_name")
}

fn unwind(sim: Sim, script: Vec<Request>, cause: Refusal) -> (next: Progress<
    Activation,
    Result<Sim, Refusal>,
>)
    ensures
        next matches Progress::Next(machine, request) && machine@ == (ActivationView {
            sim: sim@,
            stage: StageView::Unwinding {
                teardown: TeardownView::start(
                    sim@.dir,
                    cleanup_script(sim@.dir, sim@.banks()),
                ),
                cause: cause@,
            },
        }) && request@ == machine@.pending(),
{
    let (teardown, request) = sim.cleanup_configfs();
    Progress::Next(Activation { sim, script, stage: Stage::Unwinding { teardown, cause } }, request)
}

impl Builder {
    /// Begins to take the builder config live: the machine that runs the
    /// activation, and the first request to perform.
    ///
    /// If no name has been provided for the builder then one is generated
    /// in the format `<app>-p<pid>-<N>` where:
    ///  - the app name is the file name that the process was started as
    ///  - pid is the process id
    ///  - N counts the names generated by this process, starting at 0
    pub fn live(&self) -> (start: (Activation, Request))
        ensures
            start.0@ == ActivationView::start(self@),
            start.1@ == start.0@.pending(),
    {
        match &self.name {
            Some(name) => {
                let sim = Sim::new(name.clone(), String::new(), &self.banks);
                let (locator, request) = find_configfs();
                (Activation { sim, script: Vec::new(), stage: Stage::Locating(locator) }, request)
            },
            None => {
                let sim = Sim::new(String::new(), String::new(), &self.banks);
                (Activation { sim, script: Vec::new(), stage: Stage::Naming }, Request::Identify)
            },
        }
    }
}

/// Whether `chip` is the chip of `bank` as the kernel has named it on the
/// device `dev_name`.
pub open spec fn is_named(chip: ChipView, bank: BankView, dev_name: Seq<char>) -> bool {
    chip == ChipView::identified(bank, dev_name, chip.chip_name)
}

/// Whether the chips of `sim` are those of `banks`, the first `named` of
/// them named by the kernel on the device `dev_name` and the others not yet.
pub open spec fn chips_follow(
    sim: SimView,
    banks: Seq<BankView>,
    dev_name: Seq<char>,
    named: int,
) -> bool {
    &&& sim.chips.len() == banks.len()
    &&& forall|i: int|
        0 <= i < named && i < banks.len() ==> is_named(sim.chips[i], banks[i], dev_name)
    &&& forall|i: int|
        0 <= i < banks.len() && named <= i ==> sim.chips[i] == ChipView::unidentified(banks[i])
}

/// Whether `sim` is `config` gone live: under the name that `config` gives,
/// if it gives one, and with one chip for each bank, in order, each with the
/// configuration of its bank and with what the kernel has named it on one
/// device.
pub open spec fn is_live(sim: SimView, config: BuilderView) -> bool {
    &&& config.name matches Some(name) ==> sim.name == name
    &&& exists|dev_name: Seq<char>|
        chips_follow(sim, config.banks, dev_name, config.banks.len() as int)
}

impl ActivationView {
    /// Whether this activation can have come from `config`.
    pub open spec fn follows(self, config: BuilderView) -> bool {
        &&& config.name matches Some(name) ==> self.sim.name == name && self.stage !is Naming
        &&& match self.stage {
            StageView::ChipName { dev_name, index } => index < config.banks.len() && chips_follow(
                self.sim,
                config.banks,
                dev_name,
                index as int,
            ),
            StageView::Link { dev_name, index, .. } => index < config.banks.len() && chips_follow(
                self.sim,
                config.banks,
                dev_name,
                index as int,
            ),
            StageView::Unwinding { .. } => true,
            _ => chips_follow(self.sim, config.banks, Seq::empty(), 0),
        }
    }
}

/// An activation begins as its configuration says.
pub proof fn lemma_start_follows(config: BuilderView)
    ensures
        ActivationView::start(config).follows(config),
{
}

/// An activation stays with its configuration, and the simulator that it
/// ends in is that configuration gone live: no chip is lost, added or
/// changed, and every chip has been named by the kernel.
pub proof fn lemma_step_follows(activation: ActivationView, config: BuilderView, reply: ReplyView)
    requires
        activation.follows(config),
        activation.understands(reply),
    ensures
        match activation.step(reply) {
            Move::Next(next) => next.follows(config),
            Move::Done(Ok(sim)) => is_live(sim, config),
            Move::Done(Err(_)) => true,
        },
{
    match activation.stage {
        StageView::DevName => {
            if reply.value() is Ok && activation.sim.chips.len() == 0 {
                assert(chips_follow(
                    activation.sim,
                    config.banks,
                    Seq::empty(),
                    config.banks.len() as int,
                ));
            }
        },
        StageView::Link { dev_name, chip_name, index } => {
            if reply == ReplyView::Found(false) {
                let sim = activation.sim.identify(index as int, dev_name, chip_name);
                assert(chips_follow(sim, config.banks, dev_name, index as int + 1));
                if index + 1 >= sim.chips.len() {
                    assert(chips_follow(sim, config.banks, dev_name, config.banks.len() as int));
                }
            }
        },
        _ => {},
    }
}

/// Taking a configuration live under a name that is taken fails with that
/// name, at once: nothing is asked for after the directory was found, so
/// nothing is done to the simulator that has the name.
pub proof fn lemma_taken_name_is_refused(activation: ActivationView, reply: ReplyView)
    requires
        activation.stage is Probing,
        reply.found(),
    ensures
        activation.pending() == RequestView::Exists(activation.sim.dir),
        activation.step(reply) == ActivationView::fail(
            ErrorView::SimulatorExists(activation.sim.name),
        ),
{
}

/// Until an activation has found the directory of its simulator missing,
/// it asks for nothing that changes the filesystem.  An activation that is
/// refused for a name that is taken has changed nothing.
pub proof fn lemma_nothing_changes_before_creation(activation: ActivationView, reply: ReplyView)
    requires
        activation.untouched(),
        activation.understands(reply),
    ensures
        !activation.pending().changes(),
        match activation.step(reply) {
            Move::Next(next) => next.untouched() || next.stage is Creating,
            Move::Done(outcome) => outcome is Err,
        },
{
}

/// A name whose directory is not found is free: the activation goes on to
/// create the directory.
pub proof fn lemma_free_name_is_taken(activation: ActivationView, reply: ReplyView)
    requires
        activation.stage is Probing,
        !reply.found(),
    ensures
        activation.step(reply) matches Move::Next(next) && next.stage is Creating
            && next.pending() == RequestView::CreateDir(activation.sim.dir),
{
}

/// A device node that is a symbolic link stops the activation, whatever
/// else holds: the tree is taken down and the link is what is reported.
pub proof fn lemma_symlink_is_fatal(activation: ActivationView)
    requires
        activation.stage is Link,
    ensures
        activation.step(ReplyView::Found(true)) == activation.unwind(
            RefusalView::Symlink {
                dev_path: dev_node(activation.stage->Link_chip_name),
                chip_name: activation.stage->Link_chip_name,
            },
        ),
{
}

/// Once the directory of the simulator exists, whatever fails has the whole
/// tree taken down before it is reported.  A look does not fail: where it
/// does not find its directory, the directory is asked for.
pub proof fn lemma_failure_takes_down(activation: ActivationView, e: std::io::Error)
    requires
        activation.stage is Setup || activation.stage is DevName || activation.stage is ChipName
            || activation.stage is Link,
        activation.stage matches StageView::Setup(at) ==> !(activation.setup()[at as int]
            is Exists),
    ensures
        activation.step(ReplyView::Failed(e)) == activation.unwind(
            RefusalView::Error(ErrorView::IoError(e)),
        ),
        activation.unwind(RefusalView::Error(ErrorView::IoError(e))) matches Move::Next(next)
            && next.pending() == RequestView::Exists(activation.sim.dir) && next.stage
            == (StageView::Unwinding {
            teardown: TeardownView::start(
                activation.sim.dir,
                cleanup_script(activation.sim.dir, activation.sim.banks()),
            ),
            cause: RefusalView::Error(ErrorView::IoError(e)),
        }),
{
}

/// An activation that takes its tree down again ends in what made it do
/// so, and in nothing else: it never ends in a simulator.
pub proof fn lemma_unwinding_reports_its_cause(activation: ActivationView, reply: ReplyView)
    requires
        activation.stage is Unwinding,
    ensures
        match activation.step(reply) {
            Move::Next(next) => next.stage matches StageView::Unwinding { teardown, cause }
                && cause == activation.stage->Unwinding_cause && Some(teardown)
                == activation.stage->Unwinding_teardown.step(reply),
            Move::Done(outcome) => outcome == Err::<SimView, RefusalView>(
                activation.stage->Unwinding_cause,
            ) && !reply.found(),
        },
{
}

} // verus!
