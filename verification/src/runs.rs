//! Whole activations: what holds of every way in which an activation can
//! go from a state to its end.

use crate::config::BuilderView;
use crate::error::ErrorView;
use crate::live::{
    is_live, lemma_start_follows, lemma_step_follows, ActivationView, RefusalView, StageView,
};
use crate::request::{Move, ReplyView, RequestView};
use crate::sim::{dev_node, SimView};
use vstd::prelude::*;

verus! {

/// What `state` goes on to after `reply`: [`ActivationView::step`], to be
/// looked into only where a proof asks for it.
#[verifier::opaque]
pub open spec fn after(state: ActivationView, reply: ReplyView) -> Move<
    ActivationView,
    Result<SimView, RefusalView>,
> {
    state.step(reply)
}

/// Whether an activation can go through `states` to end in `outcome`, on
/// taking in each state the reply beside it.
pub open spec fn runs(
    states: Seq<ActivationView>,
    replies: Seq<ReplyView>,
    outcome: Result<SimView, RefusalView>,
) -> bool {
    &&& states.len() == replies.len()
    &&& states.len() > 0
    &&& forall|i: int| 0 <= i < states.len() ==> (#[trigger] states[i]).understands(replies[i])
    &&& forall|i: int|
        0 <= i < states.len() - 1 ==> after(#[trigger] states[i], replies[i]) == Move::<
            ActivationView,
            Result<SimView, RefusalView>,
        >::Next(states[i + 1])
    &&& after(states.last(), replies.last()) == Move::<
        ActivationView,
        Result<SimView, RefusalView>,
    >::Done(outcome)
}

/// Whether `refusal` says that a name is taken.
pub open spec fn says_taken(refusal: RefusalView) -> bool {
    refusal matches RefusalView::Error(e) && e is SimulatorExists
}

/// Whether `state` can no longer end in the refusal of a name that is
/// taken.
spec fn past_refusal(state: ActivationView) -> bool {
    match state.stage {
        StageView::Naming => false,
        StageView::Locating(_) => false,
        StageView::Probing => false,
        StageView::Unwinding { cause, .. } => !says_taken(cause),
        _ => true,
    }
}

proof fn lemma_past_refusal_stays(state: ActivationView, reply: ReplyView)
    requires
        past_refusal(state),
        state.understands(reply),
    ensures
        match after(state, reply) {
            Move::Next(next) => past_refusal(next),
            Move::Done(Ok(_)) => true,
            Move::Done(Err(refusal)) => !says_taken(refusal),
        },
{
    reveal(after);
}

proof fn lemma_refusal_comes_of_probing(state: ActivationView, reply: ReplyView)
    requires
        state.understands(reply),
        after(state, reply) matches Move::Done(Err(refusal)) && says_taken(refusal),
        state.untouched(),
    ensures
        state.stage is Probing,
        reply.found(),
        after(state, reply) == ActivationView::fail(
            ErrorView::SimulatorExists(state.sim.name),
        ),
{
    reveal(after);
}

proof fn lemma_past_refusal_to_end(
    states: Seq<ActivationView>,
    replies: Seq<ReplyView>,
    outcome: Result<SimView, RefusalView>,
    from: int,
    to: int,
)
    requires
        runs(states, replies, outcome),
        0 <= from <= to < states.len(),
        past_refusal(states[from]),
    ensures
        past_refusal(states[to]),
    decreases to - from,
{
    if from < to {
        lemma_past_refusal_stays(states[from], replies[from]);
        lemma_past_refusal_to_end(states, replies, outcome, from + 1, to);
    }
}

/// Whether `state` can have come of a state that had not asked for its
/// directory yet: if it takes its tree down, then not for a name that is
/// taken.
spec fn comes_of_untouched(state: ActivationView) -> bool {
    state.untouched() || past_refusal(state)
}

proof fn lemma_comes_of_untouched_stays(state: ActivationView, reply: ReplyView)
    requires
        comes_of_untouched(state),
        state.understands(reply),
    ensures
        after(state, reply) matches Move::Next(next) ==> comes_of_untouched(next),
{
    reveal(after);
}

proof fn lemma_comes_of_untouched(
    states: Seq<ActivationView>,
    replies: Seq<ReplyView>,
    outcome: Result<SimView, RefusalView>,
    at: int,
)
    requires
        runs(states, replies, outcome),
        states[0].untouched(),
        0 <= at < states.len(),
    ensures
        comes_of_untouched(states[at]),
    decreases at,
{
    if at > 0 {
        lemma_comes_of_untouched(states, replies, outcome, at - 1);
        lemma_comes_of_untouched_stays(states[at - 1], replies[at - 1]);
    }
}

/// An activation that ends in the refusal of a name that is taken has asked
/// for nothing that changes the filesystem, from its first state to its
/// last: the simulator that has the name is left as it is.
pub proof fn lemma_refused_activation_changes_nothing(
    states: Seq<ActivationView>,
    replies: Seq<ReplyView>,
    outcome: Result<SimView, RefusalView>,
)
    requires
        runs(states, replies, outcome),
        states[0].untouched(),
        outcome matches Err(refusal) && says_taken(refusal),
    ensures
        forall|i: int| 0 <= i < states.len() ==> !(#[trigger] states[i]).pending().changes(),
        states.last().stage is Probing,
        replies.last().found(),
        outcome == Err::<SimView, RefusalView>(
            RefusalView::Error(ErrorView::SimulatorExists(states.last().sim.name)),
        ),
{
    let last = states.len() - 1;
    assert forall|i: int| 0 <= i < states.len() implies (#[trigger] states[i]).untouched() by {
        lemma_comes_of_untouched(states, replies, outcome, i);
        if past_refusal(states[i]) {
            lemma_past_refusal_to_end(states, replies, outcome, i, last);
            lemma_past_refusal_stays(states[last], replies[last]);
        }
    }
    assert(states[last].untouched());
    lemma_refusal_comes_of_probing(states[last], replies[last]);
}

/// Whether `state` is taking its tree down to report a symbolic link.
pub open spec fn reports_link(state: ActivationView, refusal: RefusalView) -> bool {
    &&& refusal is Symlink
    &&& state.stage matches StageView::Unwinding { cause, .. }
    &&& cause == refusal
}

proof fn lemma_link_stays(state: ActivationView, reply: ReplyView, refusal: RefusalView)
    requires
        reports_link(state, refusal),
    ensures
        match after(state, reply) {
            Move::Next(next) => reports_link(next, refusal),
            Move::Done(outcome) => outcome == Err::<SimView, RefusalView>(refusal)
                && !reply.found(),
        },
{
    reveal(after);
}

proof fn lemma_link_begins(state: ActivationView)
    requires
        state.stage is Link,
    ensures
        after(state, ReplyView::Found(true)) matches Move::Next(next) && reports_link(
            next,
            RefusalView::Symlink {
                dev_path: dev_node(state.stage->Link_chip_name),
                chip_name: state.stage->Link_chip_name,
            },
        ),
{
    reveal(after);
}

proof fn lemma_link_to_end(
    states: Seq<ActivationView>,
    replies: Seq<ReplyView>,
    outcome: Result<SimView, RefusalView>,
    refusal: RefusalView,
    from: int,
    to: int,
)
    requires
        runs(states, replies, outcome),
        0 <= from <= to < states.len(),
        reports_link(states[from], refusal),
    ensures
        reports_link(states[to], refusal),
    decreases to - from,
{
    if from < to {
        lemma_link_stays(states[from], replies[from], refusal);
        lemma_link_to_end(states, replies, outcome, refusal, from + 1, to);
    }
}

/// An activation that is told, in any of its states, that the device node
/// of a chip is a symbolic link does not end in a simulator: it ends in the
/// refusal that names the link, after the directory of the simulator was
/// reported gone.
pub proof fn lemma_link_ends_activation(
    states: Seq<ActivationView>,
    replies: Seq<ReplyView>,
    outcome: Result<SimView, RefusalView>,
    at: int,
)
    requires
        runs(states, replies, outcome),
        0 <= at < states.len(),
        states[at].stage is Link,
        replies[at] == ReplyView::Found(true),
    ensures
        outcome == Err::<SimView, RefusalView>(
            RefusalView::Symlink {
                dev_path: dev_node(states[at].stage->Link_chip_name),
                chip_name: states[at].stage->Link_chip_name,
            },
        ),
        at < states.len() - 1,
        !replies.last().found(),
{
    let last = states.len() - 1;
    let chip_name = states[at].stage->Link_chip_name;
    let refusal = RefusalView::Symlink { dev_path: dev_node(chip_name), chip_name };
    lemma_link_begins(states[at]);
    lemma_link_to_end(states, replies, outcome, refusal, at + 1, last);
    lemma_link_stays(states[last], replies[last], refusal);
}

proof fn lemma_follows_to(
    states: Seq<ActivationView>,
    replies: Seq<ReplyView>,
    outcome: Result<SimView, RefusalView>,
    config: BuilderView,
    at: int,
)
    requires
        runs(states, replies, outcome),
        states[0].follows(config),
        0 <= at < states.len(),
    ensures
        states[at].follows(config),
    decreases at,
{
    if at > 0 {
        lemma_follows_to(states, replies, outcome, config, at - 1);
        reveal(after);
        lemma_step_follows(states[at - 1], config, replies[at - 1]);
    }
}

/// The simulator that an activation ends in is the configuration that the
/// activation began with, gone live: under its name, if it has one, and
/// with one chip for each of its banks, in order, each as its bank
/// configures it and as the kernel has named it.
pub proof fn lemma_live_is_as_configured(
    states: Seq<ActivationView>,
    replies: Seq<ReplyView>,
    outcome: Result<SimView, RefusalView>,
    config: BuilderView,
)
    requires
        runs(states, replies, outcome),
        states[0] == ActivationView::start(config),
        outcome is Ok,
    ensures
        is_live(outcome->Ok_0, config),
{
    let last = states.len() - 1;
    lemma_start_follows(config);
    lemma_follows_to(states, replies, outcome, config, last);
    reveal(after);
    lemma_step_follows(states[last], config, replies[last]);
}

/// Whether `state` has the directory `dir` created for its simulator: it
/// is building the tree or reading back from it, or it is taking the tree
/// down.
pub open spec fn has_created(state: ActivationView, dir: Seq<char>) -> bool {
    match state.stage {
        StageView::Setup(_) => state.sim.dir == dir,
        StageView::DevName => state.sim.dir == dir,
        StageView::ChipName { .. } => state.sim.dir == dir,
        StageView::Link { .. } => state.sim.dir == dir,
        StageView::Unwinding { teardown, .. } => teardown.dir == dir,
        _ => false,
    }
}

proof fn lemma_created_stays(state: ActivationView, reply: ReplyView, dir: Seq<char>)
    requires
        has_created(state, dir),
        state.understands(reply),
    ensures
        match after(state, reply) {
            Move::Next(next) => has_created(next, dir),
            Move::Done(Ok(_)) => true,
            Move::Done(Err(_)) => state.pending() == RequestView::Exists(dir) && !reply.found(),
        },
{
    reveal(after);
}

proof fn lemma_created_to_end(
    states: Seq<ActivationView>,
    replies: Seq<ReplyView>,
    outcome: Result<SimView, RefusalView>,
    dir: Seq<char>,
    from: int,
    to: int,
)
    requires
        runs(states, replies, outcome),
        0 <= from <= to < states.len(),
        has_created(states[from], dir),
    ensures
        has_created(states[to], dir),
    decreases to - from,
{
    if from < to {
        lemma_created_stays(states[from], replies[from], dir);
        lemma_created_to_end(states, replies, outcome, dir, from + 1, to);
    }
}

proof fn lemma_creation_begins(state: ActivationView, reply: ReplyView)
    requires
        state.stage is Creating,
        reply is Done,
    ensures
        after(state, reply) matches Move::Next(next) && has_created(next, state.sim.dir),
{
    reveal(after);
}

/// An activation that fails after its directory was created does not end
/// before the directory is reported gone: the last thing that it asks is
/// whether the directory exists, and the answer is that it does not.
pub proof fn lemma_failed_activation_leaves_nothing(
    states: Seq<ActivationView>,
    replies: Seq<ReplyView>,
    outcome: Result<SimView, RefusalView>,
    at: int,
)
    requires
        runs(states, replies, outcome),
        0 <= at < states.len(),
        states[at].stage is Creating,
        replies[at] is Done,
        outcome is Err,
    ensures
        states.last().pending() == RequestView::Exists(states[at].sim.dir),
        !replies.last().found(),
{
    let last = states.len() - 1;
    let dir = states[at].sim.dir;
    lemma_creation_begins(states[at], replies[at]);
    lemma_created_to_end(states, replies, outcome, dir, at + 1, last);
    lemma_created_stays(states[last], replies[last], dir);
}

} // verus!
