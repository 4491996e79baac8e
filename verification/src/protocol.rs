//! What a namespace goes through from creation to removal: the operations
//! that are performed for given outcomes, and what holds of them.

use crate::err::HLError;
use crate::netns::{
    compensation, creation_script, kills, removal_script, residents, terminations, NetNsState,
    Operation, Outcome, Phase,
};
use libc::pid_t;
use vstd::prelude::*;

verus! {

/// The operations that are performed, in order, when the outcomes are
/// `outcomes`, one for each operation, and the state that is reached: the
/// work stops when the namespace has come to rest or the outcomes have run
/// out.
pub open spec fn performed(s: NetNsState, outcomes: Seq<Outcome>) -> (NetNsState, Seq<Operation>)
    decreases outcomes.len(),
{
    if outcomes.len() == 0 || s.remaining.len() == 0 {
        (s, Seq::empty())
    } else {
        let (reached, ops) = performed(s.step(outcomes[0]).0, outcomes.drop_first());
        (reached, seq![s.remaining[0]] + ops)
    }
}

/// Whether the namespace is owned in none of the states that it passes
/// through when the outcomes are `outcomes`, the first and the last state
/// included.
pub open spec fn never_owned(s: NetNsState, outcomes: Seq<Outcome>) -> bool
    decreases outcomes.len(),
{
    &&& s.phase != Phase::Owned
    &&& outcomes.len() > 0 && s.remaining.len() > 0 ==> never_owned(
        s.step(outcomes[0]).0,
        outcomes.drop_first(),
    )
}

/// Whether an outcome is a failure.
pub open spec fn is_failure(outcome: Outcome) -> bool {
    outcome is Failed
}

/// Doing the work in two parts is doing it in one.
pub proof fn lemma_performed_in_parts(s: NetNsState, first: Seq<Outcome>, second: Seq<Outcome>)
    ensures
        performed(s, first + second) == ({
            let (mid, ops) = performed(s, first);
            let (reached, more) = performed(mid, second);
            (reached, ops + more)
        }),
    decreases first.len(),
{
    let all = first + second;
    if first.len() == 0 {
        assert(all =~= second);
        assert(Seq::<Operation>::empty() + performed(s, second).1 =~= performed(s, second).1);
    } else if s.remaining.len() == 0 {
        assert(performed(s, second) == (s, Seq::<Operation>::empty()));
        assert(Seq::<Operation>::empty() + Seq::<Operation>::empty() =~= Seq::<
            Operation,
        >::empty());
    } else {
        let next = s.step(first[0]).0;
        assert(all[0] == first[0]);
        assert(all.drop_first() =~= first.drop_first() + second);
        lemma_performed_in_parts(next, first.drop_first(), second);
        let (mid, ops) = performed(next, first.drop_first());
        let (reached, more) = performed(mid, second);
        assert(seq![s.remaining[0]] + (ops + more) =~= (seq![s.remaining[0]] + ops) + more);
    }
}

/// While undoing or destroying, operations other than the enumeration are
/// performed one after the other, whatever their outcomes.
pub proof fn lemma_worked_through(s: NetNsState, outcomes: Seq<Outcome>)
    requires
        s.phase == Phase::Compensating || s.phase == Phase::Destroying,
        0 < outcomes.len() <= s.remaining.len(),
        forall|i: int| 0 <= i < outcomes.len() ==> s.remaining[i] != Operation::ListResidents,
    ensures
        performed(s, outcomes) == (
            s.with_remaining(s.remaining.skip(outcomes.len() as int)),
            s.remaining.take(outcomes.len() as int),
        ),
    decreases outcomes.len(),
{
    let next = s.step(outcomes[0]).0;
    let rest = s.remaining.drop_first();
    assert(next == s.with_remaining(rest));
    if outcomes.len() == 1 {
        assert(performed(next, outcomes.drop_first()).1 =~= Seq::<Operation>::empty());
        assert(rest =~= s.remaining.skip(1));
        assert(seq![s.remaining[0]] + Seq::<Operation>::empty() =~= s.remaining.take(1));
    } else {
        assert(rest.len() > 0);
        assert forall|i: int| 0 <= i < outcomes.drop_first().len() implies next.remaining[i]
            != Operation::ListResidents by {
            assert(next.remaining[i] == s.remaining[i + 1]);
        }
        lemma_worked_through(next, outcomes.drop_first());
        let n = outcomes.len() as int;
        assert(rest.skip(n - 1) =~= s.remaining.skip(n));
        assert(seq![s.remaining[0]] + rest.take(n - 1) =~= s.remaining.take(n));
        assert(next.with_remaining(rest.skip(n - 1)) == s.with_remaining(s.remaining.skip(n)));
    }
}

/// A namespace becomes owned by three creation steps that succeed, and
/// those are all that is done.
pub proof fn lemma_creation_succeeds(name: Seq<char>, outcomes: Seq<Outcome>)
    requires
        outcomes.len() == 3,
        forall|i: int| 0 <= i < 3 ==> !is_failure(outcomes[i]),
    ensures
        performed(NetNsState::absent(name), outcomes).1 == creation_script(),
        performed(NetNsState::absent(name), outcomes).0.phase == Phase::Owned,
        performed(NetNsState::absent(name), outcomes).0.remaining.len() == 0,
        performed(NetNsState::absent(name), outcomes).0.failure is None,
{
    let s0 = NetNsState::absent(name);
    let s1 = s0.step(outcomes[0]).0;
    let s2 = s1.step(outcomes[1]).0;
    let s3 = s2.step(outcomes[2]).0;
    let o1 = outcomes.drop_first();
    let o2 = o1.drop_first();
    let o3 = o2.drop_first();
    assert(!is_failure(outcomes[0]) && !is_failure(outcomes[1]) && !is_failure(outcomes[2]));
    assert(s1.remaining =~= seq![Operation::AddNamespace, Operation::LoopbackUp]);
    assert(s2.remaining =~= seq![Operation::LoopbackUp]);
    assert(s3.remaining =~= Seq::<Operation>::empty());
    assert(performed(s3, o3) == (s3, Seq::<Operation>::empty()));
    assert(performed(s2, o2).1 =~= seq![Operation::LoopbackUp]);
    assert(performed(s1, o1).1 =~= seq![Operation::AddNamespace, Operation::LoopbackUp]);
    assert(performed(s0, outcomes).1 =~= creation_script());
}

/// A creation step that fails is compensated before the error comes out.
/// When the first `good` steps succeed and the next one fails with `error`,
/// what those steps made is undone at once, in reverse: a namespace that was
/// added is deleted, and the configuration directory is removed. Whatever
/// the undoing steps come to, the namespace ends as failed with `error`
/// kept, nothing is left to do, and at no point was it owned.
pub proof fn lemma_failed_creation_is_undone(
    name: Seq<char>,
    good: int,
    before: Seq<Outcome>,
    error: HLError,
    after: Seq<Outcome>,
)
    requires
        0 <= good < 3,
        before.len() == good,
        forall|i: int| 0 <= i < good ==> !is_failure(before[i]),
        after.len() == compensation(creation_script()[good]).len(),
    ensures
        performed(
            NetNsState::absent(name),
            before + seq![Outcome::Failed(error)] + after,
        ).1 == creation_script().take(good + 1) + compensation(creation_script()[good]),
        performed(
            NetNsState::absent(name),
            before + seq![Outcome::Failed(error)] + after,
        ).0.phase == Phase::Failed,
        performed(
            NetNsState::absent(name),
            before + seq![Outcome::Failed(error)] + after,
        ).0.failure == Some(error),
        performed(
            NetNsState::absent(name),
            before + seq![Outcome::Failed(error)] + after,
        ).0.remaining.len() == 0,
        never_owned(NetNsState::absent(name), before + seq![Outcome::Failed(error)] + after),
{
    let s0 = NetNsState::absent(name);
    let all = before + seq![Outcome::Failed(error)] + after;
    let o1 = all.drop_first();
    let o2 = o1.drop_first();
    let o3 = o2.drop_first();
    let o4 = o3.drop_first();
    let o5 = o4.drop_first();
    let s1 = s0.step(all[0]).0;
    assert(creation_script().take(1) =~= seq![Operation::MakeConfDir]);
    assert(creation_script().take(2) =~= seq![Operation::MakeConfDir, Operation::AddNamespace]);
    assert(creation_script().take(3) =~= creation_script());
    if good == 0 {
        assert(all[0] == Outcome::Failed(error));
        assert(s1.remaining =~= Seq::<Operation>::empty());
        assert(performed(s1, o1) == (s1, Seq::<Operation>::empty()));
        assert(performed(s0, all).1 =~= seq![Operation::MakeConfDir]);
        assert(never_owned(s1, o1));
    } else {
        assert(all[0] == before[0]);
        assert(s1.remaining =~= seq![Operation::AddNamespace, Operation::LoopbackUp]);
        let s2 = s1.step(o1[0]).0;
        if good == 1 {
            assert(o1[0] == Outcome::Failed(error));
            assert(s2.remaining =~= seq![Operation::RemoveConfDir]);
            let s3 = s2.step(o2[0]).0;
            assert(s3.remaining =~= Seq::<Operation>::empty());
            assert(performed(s3, o3) == (s3, Seq::<Operation>::empty()));
            assert(performed(s2, o2).1 =~= seq![Operation::RemoveConfDir]);
            assert(performed(s1, o1).1 =~= seq![
                Operation::AddNamespace,
                Operation::RemoveConfDir,
            ]);
            assert(performed(s0, all).1 =~= creation_script().take(2) + compensation(
                Operation::AddNamespace,
            ));
            assert(never_owned(s3, o3));
            assert(never_owned(s2, o2));
            assert(never_owned(s1, o1));
        } else {
            assert(o1[0] == before[1]);
            assert(s2.remaining =~= seq![Operation::LoopbackUp]);
            assert(o2[0] == Outcome::Failed(error));
            let s3 = s2.step(o2[0]).0;
            assert(s3.remaining =~= seq![Operation::DeleteNamespace, Operation::RemoveConfDir]);
            let s4 = s3.step(o3[0]).0;
            assert(s4.remaining =~= seq![Operation::RemoveConfDir]);
            let s5 = s4.step(o4[0]).0;
            assert(s5.remaining =~= Seq::<Operation>::empty());
            assert(performed(s5, o5) == (s5, Seq::<Operation>::empty()));
            assert(performed(s4, o4).1 =~= seq![Operation::RemoveConfDir]);
            assert(performed(s3, o3).1 =~= seq![
                Operation::DeleteNamespace,
                Operation::RemoveConfDir,
            ]);
            assert(performed(s2, o2).1 =~= seq![
                Operation::LoopbackUp,
                Operation::DeleteNamespace,
                Operation::RemoveConfDir,
            ]);
            assert(performed(s1, o1).1 =~= seq![
                Operation::AddNamespace,
                Operation::LoopbackUp,
                Operation::DeleteNamespace,
                Operation::RemoveConfDir,
            ]);
            assert(performed(s0, all).1 =~= creation_script().take(3) + compensation(
                Operation::LoopbackUp,
            ));
            assert(never_owned(s5, o5));
            assert(never_owned(s4, o4));
            assert(never_owned(s3, o3));
            assert(never_owned(s2, o2));
            assert(never_owned(s1, o1));
        }
    }
}

/// A request that cannot be delivered is no error. Whether a request to
/// terminate or a kill reaches its process or not, nothing is logged for
/// it; and in a teardown the next operation follows as if it had: the
/// process may have exited in the meantime.
pub proof fn lemma_delivery_failures_are_ignored(s: NetNsState, outcome: Outcome)
    requires
        s.remaining.len() > 0,
        s.remaining[0] is Terminate || s.remaining[0] is Kill,
    ensures
        s.step(outcome).1 is None,
        s.phase == Phase::Destroying ==> s.step(outcome).0 == s.with_remaining(
            s.remaining.drop_first(),
        ),
        s.phase == Phase::Destroying ==> s.step(outcome) == s.step(Outcome::Done),
{
}

/// Whether an operation acts on a resident process or waits for one:
/// a request to terminate, a kill, or the grace interval.
pub open spec fn is_forceful(op: Operation) -> bool {
    op is Terminate || op is Kill || op is Grace
}

/// An empty namespace is removed at once. Where the enumeration finds no
/// resident, or fails, the teardown goes on with the removal: nobody is
/// asked to terminate, nobody is killed and no grace interval is waited
/// for, whatever the removal steps come to.
pub proof fn lemma_empty_namespace_is_removed_at_once(
    s: NetNsState,
    listing: Outcome,
    rest: Seq<Outcome>,
)
    requires
        s.phase == Phase::Owned,
        residents(listing).len() == 0,
        rest.len() == 3,
    ensures
        performed(s.destroy(), seq![listing] + rest).1 == seq![Operation::ListResidents]
            + removal_script(),
        performed(s.destroy(), seq![listing] + rest).0.phase == Phase::Gone,
        performed(s.destroy(), seq![listing] + rest).0.remaining.len() == 0,
        forall|i: int|
            0 <= i < performed(s.destroy(), seq![listing] + rest).1.len() ==> !is_forceful(
                #[trigger] performed(s.destroy(), seq![listing] + rest).1[i],
            ),
{
    let d0 = s.destroy();
    let d1 = d0.step(listing).0;
    lemma_performed_in_parts(d0, seq![listing], rest);
    assert(seq![listing].drop_first() =~= Seq::<Outcome>::empty());
    assert(performed(d1, seq![listing].drop_first()) == (d1, Seq::<Operation>::empty()));
    assert(performed(d0, seq![listing]).1 =~= seq![Operation::ListResidents]);
    assert(d1.remaining == removal_script());
    lemma_worked_through(d1, rest);
    assert(d1.remaining.take(3) =~= removal_script());
    assert(d1.remaining.skip(3) =~= Seq::<Operation>::empty());
}

/// Residents are killed only after the grace interval, and only those that
/// are still there. Where the first enumeration finds the processes
/// `first`, each of them is asked to terminate, the grace interval is
/// waited for and the residents are enumerated again. Only then are kills
/// sent: one to each process that the second enumeration names, and to no
/// other. The removal follows. Nothing of this depends on how the requests
/// or the removal steps come out.
pub proof fn lemma_kills_follow_grace(
    s: NetNsState,
    first: Vec<pid_t>,
    between: Seq<Outcome>,
    second: Outcome,
    rest: Seq<Outcome>,
)
    requires
        s.phase == Phase::Owned,
        first@.len() > 0,
        between.len() == first@.len() + 1,
        rest.len() == residents(second).len() + 3,
    ensures
        performed(
            s.destroy(),
            seq![Outcome::Residents(first)] + between + seq![second] + rest,
        ).1 == seq![Operation::ListResidents] + terminations(first@) + seq![
            Operation::Grace,
            Operation::ListResidents,
        ] + kills(residents(second)) + removal_script(),
        performed(
            s.destroy(),
            seq![Outcome::Residents(first)] + between + seq![second] + rest,
        ).0.phase == Phase::Gone,
        performed(
            s.destroy(),
            seq![Outcome::Residents(first)] + between + seq![second] + rest,
        ).0.remaining.len() == 0,
{
    let listing = Outcome::Residents(first);
    let all = seq![listing] + between + seq![second] + rest;
    let d0 = s.destroy();
    let d1 = d0.step(listing).0;
    let asked = terminations(first@);
    let found = residents(second);
    assert(d1.remaining == asked + seq![Operation::Grace, Operation::ListResidents]);

    // The first enumeration.
    assert(all =~= seq![listing] + (between + (seq![second] + rest)));
    lemma_performed_in_parts(d0, seq![listing], between + (seq![second] + rest));
    assert(seq![listing].drop_first() =~= Seq::<Outcome>::empty());
    assert(performed(d1, seq![listing].drop_first()) == (d1, Seq::<Operation>::empty()));
    assert(performed(d0, seq![listing]) == (d1, seq![Operation::ListResidents]));

    // The requests to terminate and the grace interval.
    lemma_performed_in_parts(d1, between, seq![second] + rest);
    lemma_worked_through(d1, between);
    let n = between.len() as int;
    let d2 = d1.with_remaining(d1.remaining.skip(n));
    assert(d1.remaining.skip(n) =~= seq![Operation::ListResidents]);
    assert(d1.remaining.take(n) =~= asked + seq![Operation::Grace]);

    // The second enumeration.
    lemma_performed_in_parts(d2, seq![second], rest);
    let d3 = d2.step(second).0;
    assert(seq![second].drop_first() =~= Seq::<Outcome>::empty());
    assert(performed(d3, seq![second].drop_first()) == (d3, Seq::<Operation>::empty()));
    assert(performed(d2, seq![second]) == (d3, seq![Operation::ListResidents]));
    if found.len() == 0 {
        assert(kills(found) + removal_script() =~= removal_script());
    }
    assert(d3.remaining =~= kills(found) + removal_script());

    // The kills and the removal.
    lemma_worked_through(d3, rest);
    let m = rest.len() as int;
    assert(d3.remaining.take(m) =~= kills(found) + removal_script());
    assert(d3.remaining.skip(m) =~= Seq::<Operation>::empty());

    let ops = performed(d0, all).1;
    assert(ops =~= seq![Operation::ListResidents] + ((asked + seq![Operation::Grace]) + (seq![
        Operation::ListResidents,
    ] + (kills(found) + removal_script()))));
    assert(ops =~= seq![Operation::ListResidents] + asked + seq![
        Operation::Grace,
        Operation::ListResidents,
    ] + kills(found) + removal_script());
}

} // verus!
