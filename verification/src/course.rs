//! The order in which namespaces come and go over a whole run.

use crate::netns::{spec_netns_name, NetNsState, Operation, Outcome, Phase};
use crate::supervisor::{Feedback, Mode, SupervisorState};
use vstd::prelude::*;

verus! {

/// The state that is reached from `s` by the feedback `feedbacks`.
pub open spec fn reached(s: SupervisorState, feedbacks: Seq<Feedback>) -> SupervisorState
    decreases feedbacks.len(),
{
    if feedbacks.len() == 0 {
        s
    } else {
        reached(s, feedbacks.drop_last()).step(feedbacks.last()).0
    }
}

/// Whether the namespace that is being created becomes owned by this
/// feedback.
pub open spec fn becomes_owned(s: SupervisorState, feedback: Feedback) -> bool {
    &&& s.mode == Mode::Setup
    &&& s.current matches Some(ns)
    &&& ns.remaining.len() > 0
    &&& feedback matches Feedback::Outcome(outcome)
    &&& ns.step(outcome).0.phase == Phase::Owned
}

/// Whether the teardown of the namespace that is being torn down is
/// completed by this feedback.
pub open spec fn becomes_gone(s: SupervisorState, feedback: Feedback) -> bool {
    &&& s.mode == Mode::Unwinding
    &&& s.current matches Some(ns)
    &&& ns.remaining.len() > 0
    &&& feedback matches Feedback::Outcome(outcome)
    &&& ns.step(outcome).0.phase == Phase::Gone
}

/// The name of the namespace that is being created or torn down.
pub open spec fn current_name(s: SupervisorState) -> Seq<char> {
    match s.current {
        Some(ns) => ns.name,
        None => Seq::empty(),
    }
}

/// The names of the namespaces that became owned on the way from `s`, in
/// the order in which they did.
pub open spec fn created(s: SupervisorState, feedbacks: Seq<Feedback>) -> Seq<Seq<char>>
    decreases feedbacks.len(),
{
    if feedbacks.len() == 0 {
        Seq::empty()
    } else {
        let before = reached(s, feedbacks.drop_last());
        let earlier = created(s, feedbacks.drop_last());
        if becomes_owned(before, feedbacks.last()) {
            earlier.push(current_name(before))
        } else {
            earlier
        }
    }
}

/// The names of the namespaces whose teardown was completed on the way
/// from `s`, in the order in which it was.
pub open spec fn torn_down(s: SupervisorState, feedbacks: Seq<Feedback>) -> Seq<Seq<char>>
    decreases feedbacks.len(),
{
    if feedbacks.len() == 0 {
        Seq::empty()
    } else {
        let before = reached(s, feedbacks.drop_last());
        let earlier = torn_down(s, feedbacks.drop_last());
        if becomes_gone(before, feedbacks.last()) {
            earlier.push(current_name(before))
        } else {
            earlier
        }
    }
}

/// Whether a namespace is at rest exactly when nothing is left to do for
/// it.
pub open spec fn consistent(ns: NetNsState) -> bool {
    ns.remaining.len() == 0 <==> (ns.phase == Phase::Owned || ns.phase == Phase::Failed || ns.phase
        == Phase::Gone)
}

/// What holds of a supervisor at every point of a run, where `made` are
/// the namespaces created so far and `gone` those torn down so far.
pub open spec fn on_course(
    s: SupervisorState,
    made: Seq<Seq<char>>,
    gone: Seq<Seq<char>>,
) -> bool {
    &&& made.len() <= s.count
    &&& forall|i: int| 0 <= i < made.len() ==> #[trigger] made[i] == s.name(i as nat)
    &&& forall|i: int|
        0 <= i < s.stack.len() ==> {
            &&& (#[trigger] s.stack[i]).phase == Phase::Owned
            &&& s.stack[i].name == s.name(i as nat)
        }
    &&& forall|j: int|
        0 <= j < gone.len() ==> #[trigger] gone[j] == s.name((made.len() - 1 - j) as nat)
    &&& match s.mode {
        Mode::Setup => {
            &&& gone.len() == 0
            &&& match s.current {
                Some(ns) => {
                    &&& consistent(ns)
                    &&& ns.phase == Phase::Creating || ns.phase == Phase::Compensating || ns.phase
                        == Phase::Owned
                    &&& ns.name == s.name(s.stack.len())
                    &&& s.stack.len() < s.count
                    &&& made.len() == s.stack.len() + (if ns.phase == Phase::Owned {
                        1nat
                    } else {
                        0nat
                    })
                },
                None => made.len() == s.stack.len() && s.stack.len() == s.count,
            }
        },
        Mode::Serving => gone.len() == 0 && s.current is None && made.len() == s.stack.len(),
        Mode::Unwinding => {
            &&& s.current matches Some(ns)
            &&& ns.phase == Phase::Destroying
            &&& ns.remaining.len() > 0
            &&& ns.name == s.name(s.stack.len())
            &&& made.len() == s.stack.len() + 1 + gone.len()
        },
        Mode::Finished => s.current is None && s.stack.len() == 0 && gone.len() == made.len(),
    }
}

proof fn lemma_stays_on_course(
    s: SupervisorState,
    made: Seq<Seq<char>>,
    gone: Seq<Seq<char>>,
    feedback: Feedback,
)
    requires
        on_course(s, made, gone),
    ensures
        on_course(
            s.step(feedback).0,
            if becomes_owned(s, feedback) {
                made.push(current_name(s))
            } else {
                made
            },
            if becomes_gone(s, feedback) {
                gone.push(current_name(s))
            } else {
                gone
            },
        ),
        s.step(feedback).0.prefix == s.prefix,
        s.step(feedback).0.count == s.count,
{
}

/// Namespaces are created in the order of their numbers and torn down in
/// the exact reverse. Whatever happens in a run, and wherever in setup a
/// failure occurs: the namespaces that have become owned are those with the
/// numbers 0, 1, 2 and so on, in that order, and never more than were asked
/// for; those that have been torn down are the ones created last, the
/// newest first; and when the run is finished, every namespace that was
/// created has been torn down.
pub proof fn lemma_teardown_reverses_creation(
    prefix: Seq<char>,
    count: nat,
    feedbacks: Seq<Feedback>,
)
    ensures
        ({
            let s = SupervisorState::initial(prefix, count);
            let made = created(s, feedbacks);
            let gone = torn_down(s, feedbacks);
            &&& made.len() <= count
            &&& forall|i: int|
                0 <= i < made.len() ==> #[trigger] made[i] == spec_netns_name(prefix, i as nat)
            &&& gone.len() <= made.len()
            &&& forall|j: int|
                0 <= j < gone.len() ==> #[trigger] gone[j] == made[made.len() - 1 - j]
            &&& reached(s, feedbacks).mode == Mode::Finished ==> gone.len() == made.len()
            &&& gone.len() > 0 ==> reached(s, feedbacks).mode == Mode::Unwinding || reached(
                s,
                feedbacks,
            ).mode == Mode::Finished
        }),
{
    let s = SupervisorState::initial(prefix, count);
    lemma_run_on_course(prefix, count, feedbacks);
    let made = created(s, feedbacks);
    let gone = torn_down(s, feedbacks);
    assert forall|j: int| 0 <= j < gone.len() implies #[trigger] gone[j] == made[made.len() - 1
        - j] by {
        assert(made[made.len() - 1 - j] == spec_netns_name(prefix, (made.len() - 1 - j) as nat));
    }
}

proof fn lemma_run_on_course(prefix: Seq<char>, count: nat, feedbacks: Seq<Feedback>)
    ensures
        on_course(
            reached(SupervisorState::initial(prefix, count), feedbacks),
            created(SupervisorState::initial(prefix, count), feedbacks),
            torn_down(SupervisorState::initial(prefix, count), feedbacks),
        ),
        reached(SupervisorState::initial(prefix, count), feedbacks).prefix == prefix,
        reached(SupervisorState::initial(prefix, count), feedbacks).count == count,
    decreases feedbacks.len(),
{
    let s = SupervisorState::initial(prefix, count);
    if feedbacks.len() > 0 {
        lemma_run_on_course(prefix, count, feedbacks.drop_last());
        lemma_stays_on_course(
            reached(s, feedbacks.drop_last()),
            created(s, feedbacks.drop_last()),
            torn_down(s, feedbacks.drop_last()),
            feedbacks.last(),
        );
    }
}

/// The exit code is fixed when setup is over. Nothing that happens while
/// serving or tearing down changes whether the run counts as failed, and
/// setup is never entered again.
pub proof fn lemma_exit_code_is_fixed_after_setup(s: SupervisorState, feedback: Feedback)
    requires
        s.mode != Mode::Setup,
    ensures
        s.step(feedback).0.failure == s.failure,
        s.step(feedback).0.exit_code() == s.exit_code(),
        s.step(feedback).0.mode != Mode::Setup,
{
}

/// Whether this feedback says that the name of a namespace was written to
/// the output.
pub open spec fn writes_line(s: SupervisorState, feedback: Feedback) -> bool {
    &&& s.mode == Mode::Setup
    &&& s.current matches Some(ns)
    &&& ns.remaining.len() == 0
    &&& feedback matches Feedback::Outcome(outcome)
    &&& !(outcome is Failed)
}

/// Whether this feedback says that the output was closed.
pub open spec fn closes_output(s: SupervisorState, feedback: Feedback) -> bool {
    &&& s.mode == Mode::Setup
    &&& s.current is None
    &&& feedback matches Feedback::Outcome(outcome)
    &&& !(outcome is Failed)
}

/// The names written to the output on the way from `s`, in order.
pub open spec fn lines(s: SupervisorState, feedbacks: Seq<Feedback>) -> Seq<Seq<char>>
    decreases feedbacks.len(),
{
    if feedbacks.len() == 0 {
        Seq::empty()
    } else {
        let before = reached(s, feedbacks.drop_last());
        let earlier = lines(s, feedbacks.drop_last());
        if writes_line(before, feedbacks.last()) {
            earlier.push(current_name(before))
        } else {
            earlier
        }
    }
}

/// Whether the output was closed on the way from `s`.
pub open spec fn output_closed(s: SupervisorState, feedbacks: Seq<Feedback>) -> bool
    decreases feedbacks.len(),
{
    feedbacks.len() > 0 && (output_closed(s, feedbacks.drop_last()) || closes_output(
        reached(s, feedbacks.drop_last()),
        feedbacks.last(),
    ))
}

/// What holds of the output at every point of a run.
pub open spec fn output_in_order(
    s: SupervisorState,
    written: Seq<Seq<char>>,
    closed: bool,
) -> bool {
    &&& written.len() <= s.count
    &&& forall|i: int| 0 <= i < written.len() ==> #[trigger] written[i] == s.name(i as nat)
    &&& s.mode == Mode::Setup ==> !closed && written.len() == s.stack.len()
    &&& closed ==> written.len() == s.count
}

proof fn lemma_output_stays_in_order(prefix: Seq<char>, count: nat, feedbacks: Seq<Feedback>)
    ensures
        output_in_order(
            reached(SupervisorState::initial(prefix, count), feedbacks),
            lines(SupervisorState::initial(prefix, count), feedbacks),
            output_closed(SupervisorState::initial(prefix, count), feedbacks),
        ),
    decreases feedbacks.len(),
{
    let s = SupervisorState::initial(prefix, count);
    if feedbacks.len() > 0 {
        lemma_output_stays_in_order(prefix, count, feedbacks.drop_last());
        lemma_run_on_course(prefix, count, feedbacks.drop_last());
    }
}

/// The output is one line for each namespace, in the order of creation,
/// and is closed after the last. Whatever happens in a run: the names
/// written are those of the namespaces 0, 1, 2 and so on, in that order;
/// the output is closed only when the names of all the namespaces asked for
/// have been written; and while names are still being written it is open.
pub proof fn lemma_output_is_names_then_closure(
    prefix: Seq<char>,
    count: nat,
    feedbacks: Seq<Feedback>,
)
    ensures
        ({
            let s = SupervisorState::initial(prefix, count);
            let written = lines(s, feedbacks);
            &&& written.len() <= count
            &&& forall|i: int|
                0 <= i < written.len() ==> #[trigger] written[i] == spec_netns_name(
                    prefix,
                    i as nat,
                )
            &&& output_closed(s, feedbacks) ==> written.len() == count && reached(
                s,
                feedbacks,
            ).mode != Mode::Setup
            &&& forall|k: int|
                0 <= k <= feedbacks.len() && #[trigger] output_closed(s, feedbacks.take(k))
                    ==> lines(s, feedbacks.take(k)) == written
        }),
{
    let s = SupervisorState::initial(prefix, count);
    lemma_output_stays_in_order(prefix, count, feedbacks);
    lemma_run_on_course(prefix, count, feedbacks);
    let written = lines(s, feedbacks);
    assert forall|k: int|
        0 <= k <= feedbacks.len() && #[trigger] output_closed(s, feedbacks.take(k)) implies lines(
        s,
        feedbacks.take(k),
    ) == written by {
        lemma_output_stays_in_order(prefix, count, feedbacks.take(k));
        lemma_run_on_course(prefix, count, feedbacks.take(k));
        lemma_lines_grow(s, feedbacks, k);
        assert(lines(s, feedbacks.take(k)).len() == count);
        assert(lines(s, feedbacks.take(k)) =~= written);
    }
}

proof fn lemma_lines_grow(s: SupervisorState, feedbacks: Seq<Feedback>, k: int)
    requires
        0 <= k <= feedbacks.len(),
    ensures
        lines(s, feedbacks.take(k)).len() <= lines(s, feedbacks).len(),
        forall|i: int|
            0 <= i < lines(s, feedbacks.take(k)).len() ==> lines(s, feedbacks.take(k))[i]
                == lines(s, feedbacks)[i],
    decreases feedbacks.len() - k,
{
    if k == feedbacks.len() {
        assert(feedbacks.take(k) =~= feedbacks);
    } else {
        let shorter = feedbacks.drop_last();
        assert(shorter.take(k) =~= feedbacks.take(k));
        lemma_lines_grow(s, shorter, k);
    }
}

/// The state after the first `n` actions of a teardown whose actions end
/// as `outcomes` says, the first as `outcomes(0)`.
pub open spec fn after(
    s: SupervisorState,
    outcomes: spec_fn(nat) -> Outcome,
    n: nat,
) -> SupervisorState
    decreases n,
{
    if n == 0 {
        s
    } else {
        after(
            s.step(Feedback::Outcome(outcomes(0))).0,
            |i: nat| outcomes(i + 1),
            (n - 1) as nat,
        )
    }
}

/// Whether a teardown is in good order: what is on the cleanup stack is
/// owned, and what is being torn down is being destroyed.
pub open spec fn unwinding_in_order(s: SupervisorState) -> bool {
    &&& s.mode == Mode::Unwinding || s.mode == Mode::Finished
    &&& forall|i: int| 0 <= i < s.stack.len() ==> (#[trigger] s.stack[i]).phase == Phase::Owned
    &&& s.current matches Some(ns) ==> ns.phase == Phase::Destroying
}

/// How far the namespace that is being torn down is from its removal: the
/// enumerations of its residents that are still to come.
pub open spec fn enumerations_left(s: SupervisorState) -> nat {
    match s.current {
        Some(ns) => (if ns.escalated {
            0nat
        } else {
            2nat
        }) + (if exists|i: int|
            0 <= i < ns.remaining.len() && ns.remaining[i] == Operation::ListResidents {
            1nat
        } else {
            0nat
        }),
        None => 0,
    }
}

/// How many operations are left for the namespace that is being torn down,
/// as far as is known.
pub open spec fn operations_left(s: SupervisorState) -> nat {
    match s.current {
        Some(ns) => ns.remaining.len(),
        None => 0,
    }
}

/// Teardown always comes to an end. Once the teardown has begun, however
/// its operations come out, and however many residents the enumerations
/// find, after finitely many operations everything is torn down and the run
/// is finished: no failure stops a teardown half way.
pub proof fn lemma_teardown_comes_to_an_end(s: SupervisorState, outcomes: spec_fn(nat) -> Outcome)
    requires
        unwinding_in_order(s),
    ensures
        exists|n: nat| (#[trigger] after(s, outcomes, n)).mode == Mode::Finished,
    decreases s.stack.len(), enumerations_left(s), operations_left(s),
{
    if s.mode == Mode::Finished {
        assert(after(s, outcomes, 0).mode == Mode::Finished);
    } else {
        let next = s.step(Feedback::Outcome(outcomes(0))).0;
        let rest = |i: nat| outcomes(i + 1);
        if next.stack.len() == s.stack.len() && next.mode != Mode::Finished {
            let ns = s.current->0;
            let later = next.current->0;
            if ns.remaining[0] != Operation::ListResidents && exists|i: int|
                0 <= i < later.remaining.len() && later.remaining[i] == Operation::ListResidents {
                let i = choose|i: int|
                    0 <= i < later.remaining.len() && later.remaining[i]
                        == Operation::ListResidents;
                assert(ns.remaining[i + 1] == Operation::ListResidents);
            }
        }
        if next.mode == Mode::Finished {
            assert(after(next, rest, 0) == next);
            assert(after(s, outcomes, 1) == next);
        } else {
            lemma_teardown_comes_to_an_end(next, rest);
            let n = choose|n: nat| (#[trigger] after(next, rest, n)).mode == Mode::Finished;
            assert(after(s, outcomes, n + 1) == after(next, rest, n));
        }
    }
}

/// Every run that has begun to tear down comes to its end, wherever it
/// began to: after a failure in setup, or on the cue to leave.
pub proof fn lemma_every_run_is_torn_down(
    prefix: Seq<char>,
    count: nat,
    feedbacks: Seq<Feedback>,
    outcomes: spec_fn(nat) -> Outcome,
)
    requires
        reached(SupervisorState::initial(prefix, count), feedbacks).mode == Mode::Unwinding,
    ensures
        exists|n: nat|
            (#[trigger] after(
                reached(SupervisorState::initial(prefix, count), feedbacks),
                outcomes,
                n,
            )).mode == Mode::Finished,
{
    lemma_run_on_course(prefix, count, feedbacks);
    lemma_teardown_comes_to_an_end(
        reached(SupervisorState::initial(prefix, count), feedbacks),
        outcomes,
    );
}

} // verus!
