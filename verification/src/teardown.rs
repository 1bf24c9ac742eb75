//! Taking a simulator down.
//!
//! Every removal is attempted whatever came of the one before, and teardown
//! is over only when the directory of the simulator is reported gone: the
//! kernel may release it some time after the removal returned.

use crate::request::{request_views, Progress, Reply, ReplyView, Request, RequestView};
use vstd::prelude::*;

verus! {

/// How long to wait between two looks at a directory that is going away, in
/// milliseconds.
pub const POLL_MILLIS: u64 = 1;

#[derive(Clone, Copy, Debug)]
enum Stage {
    Probing,
    Running(usize),
    Waiting,
    Pausing,
}

/// Where a teardown stands.
pub enum StageView {
    /// Asked whether the directory of the simulator exists at all.
    Probing,
    /// Asked for the request at this index of the script.
    Running(nat),
    /// Asked whether the directory of the simulator still exists.
    Waiting,
    /// Asked to wait before the next look.
    Pausing,
}

impl View for Stage {
    type V = StageView;

    closed spec fn view(&self) -> StageView {
        match self {
            Stage::Probing => StageView::Probing,
            Stage::Running(at) => StageView::Running(*at as nat),
            Stage::Waiting => StageView::Waiting,
            Stage::Pausing => StageView::Pausing,
        }
    }
}

/// A teardown in progress.
#[derive(Debug)]
pub struct Teardown {
    dir: String,
    script: Vec<Request>,
    stage: Stage,
}

/// A [`Teardown`] as mathematical values.
pub struct TeardownView {
    /// The directory of the simulator.
    pub dir: Seq<char>,
    /// What is performed once the directory is known to exist.
    pub script: Seq<RequestView>,
    /// How far the teardown has come.
    pub stage: StageView,
}

impl TeardownView {
    /// A teardown that has not begun.
    pub open spec fn start(dir: Seq<char>, script: Seq<RequestView>) -> TeardownView {
        TeardownView { dir, script, stage: StageView::Probing }
    }

    /// The request that the teardown waits on.
    pub open spec fn pending(self) -> RequestView {
        match self.stage {
            StageView::Probing => RequestView::Exists(self.dir),
            StageView::Running(at) => self.script[at as int],
            StageView::Waiting => RequestView::Exists(self.dir),
            StageView::Pausing => RequestView::Sleep(POLL_MILLIS),
        }
    }

    /// The teardown after `reply` to the pending request, or `None` where it
    /// is over.
    ///
    /// Nothing is done to a directory that does not exist.  What comes of a
    /// request of the script is ignored.
    pub open spec fn step(self, reply: ReplyView) -> Option<TeardownView> {
        match self.stage {
            StageView::Probing => if reply.found() {
                Some(TeardownView { stage: StageView::Running(0), ..self })
            } else {
                None
            },
            StageView::Running(at) => if at + 1 < self.script.len() {
                Some(TeardownView { stage: StageView::Running(at + 1), ..self })
            } else {
                Some(TeardownView { stage: StageView::Waiting, ..self })
            },
            StageView::Waiting => if reply.found() {
                Some(TeardownView { stage: StageView::Pausing, ..self })
            } else {
                None
            },
            StageView::Pausing => Some(TeardownView { stage: StageView::Waiting, ..self }),
        }
    }
}

impl View for Teardown {
    type V = TeardownView;

    closed spec fn view(&self) -> TeardownView {
        TeardownView { dir: self.dir@, script: request_views(self.script@), stage: self.stage@ }
    }
}

impl Teardown {
    #[verifier::type_invariant]
    spec fn inv(&self) -> bool {
        &&& self.script@.len() > 0
        &&& self.stage matches Stage::Running(at) ==> at < self.script@.len()
    }

    /// A teardown of the simulator at `dir` that performs `script`, and the
    /// first request to perform for it.
    pub(crate) fn new(dir: String, script: Vec<Request>) -> (start: (Teardown, Request))
        requires
            script@.len() > 0,
        ensures
            start.0@ == TeardownView::start(dir@, request_views(script@)),
            start.1@ == start.0@.pending(),
    {
        let first = Request::Exists(dir.clone());
        (Teardown { dir, script, stage: Stage::Probing }, first)
    }

    /// Takes the reply to the pending request and says what to do next.
    pub fn step(self, reply: Reply) -> (next: Progress<Teardown, ()>)
        ensures
            match next {
                Progress::Next(machine, request) => self@.step(reply@) == Some(machine@)
                    && request@ == machine@.pending(),
                Progress::Done(_) => self@.step(reply@) is None,
            },
    {
        proof {
            use_type_invariant(&self);
        }
        let found = matches!(reply, Reply::Found(true));
        match self.stage {
            Stage::Probing => {
                if found {
                    let request = self.script[0].clone();
                    Progress::Next(Teardown { stage: Stage::Running(0), ..self }, request)
                } else {
                    Progress::Done(())
                }
            },
            Stage::Running(at) => {
                let len = self.script.len();
                if at + 1 < len {
                    let request = self.script[at + 1].clone();
                    Progress::Next(Teardown { stage: Stage::Running(at + 1), ..self }, request)
                } else {
                    let request = Request::Exists(self.dir.clone());
                    Progress::Next(Teardown { stage: Stage::Waiting, ..self }, request)
                }
            },
            Stage::Waiting => {
                if found {
                    Progress::Next(
                        Teardown { stage: Stage::Pausing, ..self },
                        Request::Sleep(POLL_MILLIS),
                    )
                } else {
                    Progress::Done(())
                }
            },
            Stage::Pausing => {
                let request = Request::Exists(self.dir.clone());
                Progress::Next(Teardown { stage: Stage::Waiting, ..self }, request)
            },
        }
    }
}

/// A teardown is over only when the directory of the simulator was looked
/// for and not found.
pub proof fn lemma_over_means_gone(machine: TeardownView, reply: ReplyView)
    requires
        machine.step(reply) is None,
    ensures
        machine.pending() == RequestView::Exists(machine.dir),
        !reply.found(),
{
}

/// A teardown of a directory that is already gone asks for nothing more.
pub proof fn lemma_gone_is_left_alone(dir: Seq<char>, script: Seq<RequestView>, reply: ReplyView)
    requires
        !reply.found(),
    ensures
        TeardownView::start(dir, script).step(reply) is None,
{
}

/// Whether a teardown can go through `states` to its end, on taking in each
/// state the reply beside it.
pub open spec fn runs(states: Seq<TeardownView>, replies: Seq<ReplyView>) -> bool {
    &&& states.len() == replies.len()
    &&& states.len() > 0
    &&& forall|i: int|
        0 <= i < states.len() - 1 ==> (#[trigger] states[i]).step(replies[i]) == Some(
            states[i + 1],
        )
    &&& states.last().step(replies.last()) is None
}

proof fn lemma_runs_script(states: Seq<TeardownView>, replies: Seq<ReplyView>, at: int)
    requires
        runs(states, replies),
        states[0].stage is Probing,
        states[0].script.len() > 0,
        replies[0].found(),
        0 <= at < states[0].script.len(),
    ensures
        at + 1 < states.len() - 1,
        states[at + 1] == (TeardownView { stage: StageView::Running(at as nat), ..states[0] }),
    decreases at,
{
    if at > 0 {
        lemma_runs_script(states, replies, at - 1);
        assert(states[at].step(replies[at]) == Some(states[at + 1]));
    } else {
        assert(states[0].step(replies[0]) == Some(states[1]));
    }
    let here = states[at + 1];
    if at + 1 == states.len() - 1 {
        assert(here.step(replies[at + 1]) is Some);
    }
}

/// A teardown that finds the directory of its simulator asks for every
/// request of its script, each once and in order, whatever comes of them;
/// then it looks for the directory again, and it is not over before the
/// directory is reported gone.
pub proof fn lemma_teardown_is_complete(states: Seq<TeardownView>, replies: Seq<ReplyView>)
    requires
        runs(states, replies),
        states[0].stage is Probing,
        states[0].script.len() > 0,
        replies[0].found(),
    ensures
        states.len() >= states[0].script.len() + 2,
        forall|i: int|
            0 <= i < states[0].script.len() ==> (#[trigger] states[i + 1]).pending()
                == states[0].script[i],
        states[states[0].script.len() as int + 1].pending() == RequestView::Exists(states[0].dir),
        states.last().pending() == RequestView::Exists(states[0].dir),
        !replies.last().found(),
{
    let script = states[0].script;
    let end = script.len() as int;
    assert forall|i: int| 0 <= i < script.len() implies (#[trigger] states[i + 1]).pending()
        == script[i] by {
        lemma_runs_script(states, replies, i);
    }
    lemma_runs_script(states, replies, end - 1);
    assert(states[end].step(replies[end]) == Some(states[end + 1]));
    lemma_dir_stays(states, replies, states.len() - 1);
}

proof fn lemma_dir_stays(states: Seq<TeardownView>, replies: Seq<ReplyView>, at: int)
    requires
        runs(states, replies),
        0 <= at < states.len(),
    ensures
        states[at].dir == states[0].dir,
    decreases at,
{
    if at > 0 {
        lemma_dir_stays(states, replies, at - 1);
        assert(states[at - 1].step(replies[at - 1]) == Some(states[at]));
    }
}

} // verus!
