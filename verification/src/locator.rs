//! Finding where simulators are configured.
//!
//! The place is looked for once where it usually is.  If it is not there,
//! the kernel module is loaded, once, and the place is looked for again a
//! fixed number of times, with a pause after each failure: where it usually
//! is, and where the mount table says that configfs is mounted.

use crate::error::{Error, ErrorView};
use crate::mounts::{configfs_mountpoint, first_configfs_mount};
use crate::request::{Move, Progress, Reply, ReplyView, Request, RequestView};
use crate::text::{join, join_path};
use vstd::pervasive::unreached;
use vstd::prelude::*;

verus! {

/// How many times the place is looked for after the module was loaded.
pub const TRIES: u32 = 10;

/// How long to wait after a look that found nothing, in milliseconds.
pub const PAUSE_MILLIS: u64 = 100;

/// Where simulators are configured when configfs is mounted in the usual
/// place.
pub open spec fn usual_place() -> Seq<char> {
    "/sys/kernel/config/gpio-sim"@
}

/// A search for the place where simulators are configured.
#[derive(Debug)]
pub enum Locator {
    /// Asked whether the usual place exists, before anything else.
    Default,
    /// Asked to load the kernel module.
    Loading,
    /// Asked whether the usual place exists, after this many failed looks.
    Polling(u32),
    /// Asked for the mount table, after this many failed looks.
    Mounts(u32),
    /// Asked whether the place under the mount point of configfs exists,
    /// after this many failed looks.
    Derived(u32, String),
    /// Asked to wait, after this many failed looks and one more.
    Sleeping(u32),
}

/// A [`Locator`] as mathematical values.
pub enum LocatorView {
    Default,
    Loading,
    Polling(u32),
    Mounts(u32),
    Derived(u32, Seq<char>),
    Sleeping(u32),
}

impl View for Locator {
    type V = LocatorView;

    open spec fn view(&self) -> LocatorView {
        match self {
            Locator::Default => LocatorView::Default,
            Locator::Loading => LocatorView::Loading,
            Locator::Polling(failed) => LocatorView::Polling(*failed),
            Locator::Mounts(failed) => LocatorView::Mounts(*failed),
            Locator::Derived(failed, place) => LocatorView::Derived(*failed, place@),
            Locator::Sleeping(failed) => LocatorView::Sleeping(*failed),
        }
    }
}

/// What a search ends in: the place, or why there is none.
pub open spec fn located(r: Result<String, Error>) -> Result<Seq<char>, ErrorView> {
    match r {
        Ok(place) => Ok(place@),
        Err(e) => Err(e@),
    }
}

impl LocatorView {
    /// The request that the search waits on.
    pub open spec fn pending(self) -> RequestView {
        match self {
            LocatorView::Default => RequestView::Exists(usual_place()),
            LocatorView::Loading => RequestView::Run { program: "modprobe"@, arg: "gpio-sim"@ },
            LocatorView::Polling(_) => RequestView::Exists(usual_place()),
            LocatorView::Mounts(_) => RequestView::ReadLines("/proc/mounts"@),
            LocatorView::Derived(_, place) => RequestView::Exists(place),
            LocatorView::Sleeping(_) => RequestView::Sleep(PAUSE_MILLIS),
        }
    }

    /// Whether `reply` can answer the pending request.  Only the reply to
    /// the loading of the module is held to a form: that the program has
    /// exited, or that it could not be run.
    pub open spec fn understands(self, reply: ReplyView) -> bool {
        self is Loading ==> reply is Exited || reply is Failed
    }

    /// The search after `reply` to the pending request.
    pub open spec fn step(self, reply: ReplyView) -> Move<
        LocatorView,
        Result<Seq<char>, ErrorView>,
    > {
        match self {
            LocatorView::Default => if reply.found() {
                Move::Done(Ok(usual_place()))
            } else {
                Move::Next(LocatorView::Loading)
            },
            LocatorView::Loading => match reply {
                ReplyView::Exited { success, stderr } => if success {
                    Move::Next(LocatorView::Polling(0))
                } else {
                    Move::Done(Err(ErrorView::ModuleLoadError(stderr)))
                },
                ReplyView::Failed(e) => Move::Done(Err(ErrorView::CommandError("modprobe"@, e))),
                _ => arbitrary(),
            },
            LocatorView::Polling(failed) => if reply.found() {
                Move::Done(Ok(usual_place()))
            } else {
                Move::Next(LocatorView::Mounts(failed))
            },
            LocatorView::Mounts(failed) => match reply {
                ReplyView::Lines(lines) => match first_configfs_mount(lines) {
                    Some(mount) => Move::Next(
                        LocatorView::Derived(failed, join(mount, "gpio-sim"@)),
                    ),
                    None => Move::Next(LocatorView::Sleeping(failed)),
                },
                _ => Move::Next(LocatorView::Sleeping(failed)),
            },
            LocatorView::Derived(failed, place) => if reply.found() {
                Move::Done(Ok(place))
            } else {
                Move::Next(LocatorView::Sleeping(failed))
            },
            LocatorView::Sleeping(failed) => if failed + 1 < TRIES {
                Move::Next(LocatorView::Polling((failed + 1) as u32))
            } else {
                Move::Done(Err(ErrorView::ConfigfsNotFound))
            },
        }
    }

    /// A bound on the number of requests that the search still makes, the
    /// pending one included.
    pub open spec fn budget(self) -> nat {
        match self {
            LocatorView::Default => 2 + 4 * TRIES as nat,
            LocatorView::Loading => 1 + 4 * TRIES as nat,
            LocatorView::Polling(failed) => 4 * looks_left(failed),
            LocatorView::Mounts(failed) => (4 * looks_left(failed) - 1) as nat,
            LocatorView::Derived(failed, _) => (4 * looks_left(failed) - 2) as nat,
            LocatorView::Sleeping(failed) => (4 * looks_left(failed) - 3) as nat,
        }
    }
}

/// How many looks are left after `failed` of them, the current one
/// included.
pub open spec fn looks_left(failed: u32) -> nat {
    if failed < TRIES {
        (TRIES - failed) as nat
    } else {
        1
    }
}

/// Begins the search for the place where simulators are configured.
pub fn find_configfs() -> (start: (Locator, Request))
    ensures
        start.0@ == LocatorView::Default,
        start.1@ == start.0@.pending(),
{
    (Locator::Default, Request::Exists("/sys/kernel/config/gpio-sim".to_owned()))
}

impl Locator {
    /// Whether `reply` can answer the pending request.
    pub fn accepts(&self, reply: &Reply) -> (fits: bool)
        ensures
            fits == self@.understands(reply@),
    {
        match self {
            Locator::Loading => matches!(reply, Reply::Exited { .. } | Reply::Failed(_)),
            _ => true,
        }
    }

    /// Takes the reply to the pending request and says what to do next, or
    /// how the search ended.
    pub fn step(self, reply: Reply) -> (next: Progress<Locator, Result<String, Error>>)
        requires
            self@.understands(reply@),
        ensures
            match next {
                Progress::Next(machine, request) => self@.step(reply@) == Move::<
                    LocatorView,
                    Result<Seq<char>, ErrorView>,
                >::Next(machine@) && request@ == machine@.pending(),
                Progress::Done(r) => self@.step(reply@) == Move::<
                    LocatorView,
                    Result<Seq<char>, ErrorView>,
                >::Done(located(r)),
            },
    {
        let found = matches!(reply, Reply::Found(true));
        match self {
            Locator::Default => {
                if found {
                    Progress::Done(Ok("/sys/kernel/config/gpio-sim".to_owned()))
                } else {
                    Progress::Next(
                        Locator::Loading,
                        Request::Run { program: "modprobe".to_owned(), arg: "gpio-sim".to_owned() },
                    )
                }
            },
            Locator::Loading => {
                match reply {
                    Reply::Exited { success, stderr } => {
                        if success {
                            Progress::Next(Locator::Polling(0), usual())
                        } else {
                            Progress::Done(Err(Error::ModuleLoadError(stderr)))
                        }
                    },
                    Reply::Failed(e) => Progress::Done(
                        Err(Error::CommandError("modprobe".to_owned(), e)),
                    ),
                    _ => unreached(),
                }
            },
            Locator::Polling(failed) => {
                if found {
                    Progress::Done(Ok("/sys/kernel/config/gpio-sim".to_owned()))
                } else {
                    Progress::Next(
                        Locator::Mounts(failed),
                        Request::ReadLines("/proc/mounts".to_owned()),
                    )
                }
            },
            Locator::Mounts(failed) => {
                let mount = match reply {
                    Reply::Lines(lines) => configfs_mountpoint(&lines),
                    _ => None,
                };
                match mount {
                    Some(mount) => {
                        let place = join_path(mount.as_str(), "gpio-sim");
                        let request = Request::Exists(place.clone());
                        Progress::Next(Locator::Derived(failed, place), request)
                    },
                    None => Progress::Next(Locator::Sleeping(failed), Request::Sleep(PAUSE_MILLIS)),
                }
            },
            Locator::Derived(failed, place) => {
                if found {
                    Progress::Done(Ok(place))
                } else {
                    Progress::Next(Locator::Sleeping(failed), Request::Sleep(PAUSE_MILLIS))
                }
            },
            Locator::Sleeping(failed) => {
                if failed < TRIES - 1 {
                    Progress::Next(Locator::Polling(failed + 1), usual())
                } else {
                    Progress::Done(Err(Error::ConfigfsNotFound))
                }
            },
        }
    }
}

fn usual() -> (request: Request)
    ensures
        request@ == RequestView::Exists(usual_place()),
{
    Request::Exists("/sys/kernel/config/gpio-sim".to_owned())
}

/// Every reply brings the search nearer to its end: it makes 42 requests at
/// most.
pub proof fn lemma_search_is_bounded(search: LocatorView, reply: ReplyView)
    requires
        search.understands(reply),
    ensures
        search.budget() <= 2 + 4 * TRIES,
        search.budget() >= 1,
        search.step(reply) matches Move::Next(next) ==> next.budget() < search.budget(),
{
}

/// The module is loaded only after the first look, when the usual place was
/// not found: so once at most, and not at all where the place is there.
pub proof fn lemma_loads_once(search: LocatorView, reply: ReplyView)
    requires
        search.understands(reply),
    ensures
        search.step(reply) matches Move::Next(next) ==> (next is Loading <==> search is Default
            && !reply.found()),
        LocatorView::Default.step(ReplyView::Found(true)) == Move::<
            LocatorView,
            Result<Seq<char>, ErrorView>,
        >::Done(Ok(usual_place())),
{
}

/// A module that cannot be loaded ends the search at once, with what the
/// loader wrote to its standard error.
pub proof fn lemma_load_failure_is_final(stderr: Seq<u8>)
    ensures
        LocatorView::Loading.step(ReplyView::Exited { success: false, stderr }) == Move::<
            LocatorView,
            Result<Seq<char>, ErrorView>,
        >::Done(Err(ErrorView::ModuleLoadError(stderr))),
{
}

impl LocatorView {
    /// A bound on the number of times that the search still waits, the
    /// pending request included.
    pub open spec fn pauses_left(self) -> nat {
        match self {
            LocatorView::Default => TRIES as nat,
            LocatorView::Loading => TRIES as nat,
            LocatorView::Polling(failed) => looks_left(failed),
            LocatorView::Mounts(failed) => looks_left(failed),
            LocatorView::Derived(failed, _) => looks_left(failed),
            LocatorView::Sleeping(failed) => looks_left(failed),
        }
    }
}

/// A search waits ten times at most, a tenth of a second each time: every
/// wait uses up one of the waits that are left.
pub proof fn lemma_pauses_are_bounded(search: LocatorView, reply: ReplyView)
    requires
        search.understands(reply),
    ensures
        search.pauses_left() <= TRIES,
        search.pending() is Sleep ==> search.pending() == RequestView::Sleep(PAUSE_MILLIS)
            && search.pauses_left() >= 1,
        search.step(reply) matches Move::Next(next) ==> if search.pending() is Sleep {
            next.pauses_left() < search.pauses_left()
        } else {
            next.pauses_left() <= search.pauses_left()
        },
{
}

/// A search asks for nothing that changes the filesystem: it looks, reads
/// and waits, and it has the module loaded.
pub proof fn lemma_search_changes_nothing(search: LocatorView)
    ensures
        !search.pending().changes(),
{
}

/// Whether a search can go through `states`, on taking in each state the
/// reply beside it.
pub open spec fn runs(states: Seq<LocatorView>, replies: Seq<ReplyView>) -> bool {
    &&& states.len() == replies.len()
    &&& forall|i: int| 0 <= i < states.len() ==> (#[trigger] states[i]).understands(replies[i])
    &&& forall|i: int|
        0 <= i < states.len() - 1 ==> (#[trigger] states[i]).step(replies[i]) == Move::<
            LocatorView,
            Result<Seq<char>, ErrorView>,
        >::Next(states[i + 1])
}

proof fn lemma_budget_shrinks(states: Seq<LocatorView>, replies: Seq<ReplyView>, at: int)
    requires
        runs(states, replies),
        0 <= at < states.len(),
    ensures
        states[at].budget() + at <= states[0].budget(),
    decreases at,
{
    if at > 0 {
        lemma_budget_shrinks(states, replies, at - 1);
        lemma_search_is_bounded(states[at - 1], replies[at - 1]);
    }
}

/// No search goes on for ever: whatever the replies, it is over after 42
/// requests.
pub proof fn lemma_search_ends(states: Seq<LocatorView>, replies: Seq<ReplyView>)
    requires
        runs(states, replies),
    ensures
        states.len() <= 2 + 4 * TRIES,
{
    if states.len() > 0 {
        let last = states.len() - 1;
        lemma_budget_shrinks(states, replies, last);
        lemma_search_is_bounded(states[0], replies[0]);
        lemma_search_is_bounded(states[last], replies[last]);
    }
}

} // verus!
