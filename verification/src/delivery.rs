//! What the idle loop delivers, stated over a model of what is waiting
//! outside it.

use crate::idle_loop::{Event, InputStatus, LoopState, Reply, Request};
use crate::signals::signal_name_of;
use libc::pid_t;
use vstd::prelude::*;

verus! {

/// The state after a sequence of outcomes, and the events handed out on the
/// way.
pub open spec fn run(s: LoopState, replies: Seq<Reply>) -> (LoopState, Seq<Event>)
    decreases replies.len(),
{
    if replies.len() == 0 {
        (s, Seq::empty())
    } else {
        let (before, events) = run(s, replies.drop_last());
        let (after, event) = before.step(replies.last());
        match event {
            Some(e) => (after, events.push(e)),
            None => (after, events),
        }
    }
}

/// One outcome gives at most one event, and a closed input stays closed.
pub proof fn lemma_step_keeps_closed(s: LoopState, reply: Reply)
    requires
        s.wf(),
    ensures
        s.step(reply).0.wf(),
        s.step(reply).0.signal_pipe == s.signal_pipe,
        s.step(reply).0.child_signal == s.child_signal,
        s.input_closed ==> s.step(reply).0.input_closed,
        s.step(reply).1 == Some(Event::StdinClosed) ==> !s.input_closed && s.step(
            reply,
        ).0.input_closed,
{
}

/// Only the child signal is taken for the child signal. Where the loop
/// knows its child signal by name, a signal that goes by another name and
/// is read from the channel is handed out as a terminating signal.
pub proof fn lemma_other_signals_terminate(s: LoopState, number: i32)
    ensures
        s.knows_child_signal() && s.request() == Request::ReadSignal && signal_name_of(number)
            is Some && signal_name_of(number) != Some("SIGCHLD"@) ==> s.step(
            Reply::Signal(Some(number)),
        ) == (s, Some(Event::TermSignal(number))),
{
}

/// End of input is reported once. After the loop has seen its input end,
/// whatever outcomes it is given, it stays closed, hands out no further
/// `StdinClosed`, and never again asks to watch or drain the input.
pub proof fn lemma_closed_input_is_final(s: LoopState, replies: Seq<Reply>)
    requires
        s.wf(),
        s.input_closed,
    ensures
        run(s, replies).0.wf(),
        run(s, replies).0.input_closed,
        !run(s, replies).1.contains(Event::StdinClosed),
        run(s, replies).0.request() != Request::DrainInput,
        run(s, replies).0.request() != (Request::Wait { watch_input: true }),
    decreases replies.len(),
{
    if replies.len() > 0 {
        lemma_closed_input_is_final(s, replies.drop_last());
        let (before, events) = run(s, replies.drop_last());
        lemma_step_keeps_closed(before, replies.last());
        let (after, event) = before.step(replies.last());
        match event {
            Some(e) => {
                assert forall|i: int| 0 <= i < events.push(e).len() implies events.push(e)[i]
                    != Event::StdinClosed by {
                    if i < events.len() {
                        assert(events.contains(events[i]));
                    }
                }
            },
            None => {},
        }
    }
}

/// The end of the input is handed out at most once in the life of a loop,
/// whatever outcomes the loop is given; and once it has been handed out,
/// the loop holds its input for closed.
pub proof fn lemma_input_end_is_handed_out_once(s: LoopState, replies: Seq<Reply>)
    requires
        s.wf(),
    ensures
        run(s, replies).0.wf(),
        run(s, replies).1.contains(Event::StdinClosed) ==> run(s, replies).0.input_closed,
        forall|i: int, j: int|
            0 <= i < j < run(s, replies).1.len() ==> !(run(s, replies).1[i] == Event::StdinClosed
                && run(s, replies).1[j] == Event::StdinClosed),
    decreases replies.len(),
{
    if replies.len() > 0 {
        lemma_input_end_is_handed_out_once(s, replies.drop_last());
        let (before, events) = run(s, replies.drop_last());
        lemma_step_keeps_closed(before, replies.last());
        let (after, event) = before.step(replies.last());
        let all = run(s, replies).1;
        match event {
            Some(e) => {
                assert(all == events.push(e));
                if all.contains(Event::StdinClosed) {
                    let k = choose|k: int| 0 <= k < all.len() && all[k] == Event::StdinClosed;
                    if k < events.len() {
                        assert(events.contains(events[k]));
                    }
                }
                assert forall|i: int, j: int| 0 <= i < j < all.len() implies !(all[i]
                    == Event::StdinClosed && all[j] == Event::StdinClosed) by {
                    if j == events.len() && all[i] == Event::StdinClosed {
                        assert(events.contains(events[i]));
                    }
                }
            },
            None => {},
        }
    }
}

/// What is waiting outside the loop while its input is quiet.
pub struct Backlog {
    /// The signal occurrences queued in the signal channel, oldest first.
    pub signals: Seq<i32>,
    /// The children that have exited and that nobody has reaped, in the
    /// order in which the query for exited children names them.
    pub children: Seq<pid_t>,
}

/// How the outside answers a request, and what is waiting afterwards.
/// Reading a signal takes it from the channel; asking for an exited child
/// takes nothing away. A wait with nothing queued does not return.
pub open spec fn answer(request: Request, backlog: Backlog) -> Option<(Reply, Backlog)> {
    match request {
        Request::Wait { watch_input } => if backlog.signals.len() > 0 {
            Some((Reply::Ready { signal: true, input: false }, backlog))
        } else {
            None
        },
        Request::DrainInput => Some((Reply::Input(InputStatus::Drained), backlog)),
        Request::ReadSignal => if backlog.signals.len() > 0 {
            Some(
                (
                    Reply::Signal(Some(backlog.signals[0])),
                    Backlog { signals: backlog.signals.drop_first(), ..backlog },
                ),
            )
        } else {
            Some((Reply::Signal(None), backlog))
        },
        Request::QueryChild => if backlog.children.len() > 0 {
            Some((Reply::Child(Some(backlog.children[0])), backlog))
        } else {
            Some((Reply::Child(None), backlog))
        },
    }
}

/// An upper bound on the work left before the loop comes to rest.
pub open spec fn work_left(s: LoopState, backlog: Backlog) -> nat {
    let flag = |b: bool| if b { 1nat } else { 0nat };
    let channel: nat = if s.signal_pending {
        1
    } else if backlog.signals.len() > 0 {
        2
    } else {
        0
    };
    3 * backlog.signals.len() + backlog.children.len() + flag(s.input_pending) + flag(
        s.children_pending,
    ) + channel
}

/// What is waiting once the caller has dealt with an event: it reaps the
/// child whose exit it is told of.
pub open spec fn after_event(event: Event, backlog: Backlog) -> Backlog {
    match event {
        Event::ChildExit(_) => Backlog { children: backlog.children.drop_first(), ..backlog },
        _ => backlog,
    }
}

/// One call for the next event: the loop's requests are answered, one
/// after the other, until an event comes out. The result is that event,
/// with the state of the loop and what is waiting when the call returns;
/// `None` where the call waits for ever.
pub open spec fn call(s: LoopState, backlog: Backlog) -> Option<(Event, LoopState, Backlog)>
    decreases work_left(s, backlog),
{
    match answer(s.request(), backlog) {
        None => None,
        Some((reply, rest)) => match s.step(reply).1 {
            Some(event) => Some((event, s.step(reply).0, rest)),
            None => call(s.step(reply).0, rest),
        },
    }
}

/// A call that returns leaves less to do, once the caller has dealt with
/// its event.
pub proof fn lemma_call_makes_progress(s: LoopState, backlog: Backlog)
    ensures
        call(s, backlog) matches Some((event, next, rest)) ==> work_left(
            next,
            after_event(event, rest),
        ) < work_left(s, backlog),
    decreases work_left(s, backlog),
{
    match answer(s.request(), backlog) {
        None => {},
        Some((reply, rest)) => {
            if s.step(reply).1 is None {
                lemma_call_makes_progress(s.step(reply).0, rest);
            }
        },
    }
}

/// The events that successive calls hand out, one for each call, until a
/// call would wait for ever.
pub open spec fn delivered(s: LoopState, backlog: Backlog) -> Seq<Event>
    decreases work_left(s, backlog),
{
    match call(s, backlog) {
        None => Seq::empty(),
        Some((event, next, rest)) => {
            proof {
                lemma_call_makes_progress(s, backlog);
            }
            seq![event] + delivered(next, after_event(event, rest))
        },
    }
}

/// The signals among `signals` that ask for termination, in order: all but
/// the child signal.
pub open spec fn terminating(signals: Seq<i32>, child_signal: Option<i32>) -> Seq<i32>
    decreases signals.len(),
{
    if signals.len() == 0 {
        Seq::empty()
    } else if child_signal == Some(signals[0]) {
        terminating(signals.drop_first(), child_signal)
    } else {
        seq![signals[0]] + terminating(signals.drop_first(), child_signal)
    }
}

/// The signal numbers of the `TermSignal` events among `events`, in order.
pub open spec fn signals_in(events: Seq<Event>) -> Seq<i32>
    decreases events.len(),
{
    if events.len() == 0 {
        Seq::empty()
    } else {
        match events[0] {
            Event::TermSignal(number) => seq![number] + signals_in(events.drop_first()),
            _ => signals_in(events.drop_first()),
        }
    }
}

/// The process ids of the `ChildExit` events among `events`, in order.
pub open spec fn children_in(events: Seq<Event>) -> Seq<pid_t>
    decreases events.len(),
{
    if events.len() == 0 {
        Seq::empty()
    } else {
        match events[0] {
            Event::ChildExit(pid) => seq![pid] + children_in(events.drop_first()),
            _ => children_in(events.drop_first()),
        }
    }
}

/// Whether the loop will come to ask for exited children: none has exited,
/// or the loop already knows, or a child signal is queued.
pub open spec fn children_announced(s: LoopState, backlog: Backlog) -> bool {
    ||| backlog.children.len() == 0
    ||| s.children_pending
    ||| exists|i: int|
        0 <= i < backlog.signals.len() && s.child_signal == Some(#[trigger] backlog.signals[i])
}

proof fn lemma_cons(e: Event, rest: Seq<Event>)
    ensures
        signals_in(seq![e] + rest) == match e {
            Event::TermSignal(number) => seq![number] + signals_in(rest),
            _ => signals_in(rest),
        },
        children_in(seq![e] + rest) == match e {
            Event::ChildExit(pid) => seq![pid] + children_in(rest),
            _ => children_in(rest),
        },
        (seq![e] + rest).len() == rest.len() + 1,
{
    let all = seq![e] + rest;
    assert(all[0] == e);
    assert(all.drop_first() =~= rest);
}

/// What one call does: it hands out the oldest terminating signal in the
/// channel, or the first exited child. Child signals that it reads on the
/// way are taken in and hand out nothing, and what it does not hand out
/// stays where it is. A call waits for ever only when neither a
/// terminating signal nor an exited child is left.
pub proof fn lemma_call_delivers_next(s: LoopState, backlog: Backlog)
    requires
        s.wf(),
        children_announced(s, backlog),
    ensures
        match call(s, backlog) {
            None => terminating(backlog.signals, s.child_signal).len() == 0
                && backlog.children.len() == 0,
            Some((event, next, rest)) => {
                &&& next.wf()
                &&& next.child_signal == s.child_signal
                &&& children_announced(next, after_event(event, rest))
                &&& rest.children == backlog.children
                &&& match event {
                    Event::TermSignal(number) => terminating(backlog.signals, s.child_signal)
                        == seq![number] + terminating(rest.signals, s.child_signal),
                    Event::ChildExit(pid) => {
                        &&& backlog.children.len() > 0
                        &&& pid == backlog.children[0]
                        &&& terminating(backlog.signals, s.child_signal) == terminating(
                            rest.signals,
                            s.child_signal,
                        )
                    },
                    Event::StdinClosed => false,
                }
            },
        },
    decreases work_left(s, backlog),
{
    assert(terminating(Seq::<i32>::empty(), s.child_signal) =~= Seq::<i32>::empty());
    match answer(s.request(), backlog) {
        None => {},
        Some((reply, rest)) => {
            let (next, event) = s.step(reply);
            match event {
                Some(e) => {
                    if e is TermSignal && backlog.children.len() > 0 && !s.children_pending {
                        let i = choose|i: int|
                            0 <= i < backlog.signals.len() && s.child_signal == Some(
                                #[trigger] backlog.signals[i],
                            );
                        assert(rest.signals[i - 1] == backlog.signals[i]);
                    }
                },
                None => {
                    lemma_call_delivers_next(next, rest);
                },
            }
        },
    }
}

/// Every occurrence is delivered exactly once. With the input quiet, the
/// calls that follow each hand out one event: each queued terminating
/// signal once, in the order of arrival, and each exited child once, in the
/// order of the query. A terminating signal and a child's exit are never
/// one event, the input is not reported closed, and the number of calls
/// that return is the number of terminating signals plus the number of
/// exited children.
pub proof fn lemma_each_occurrence_delivered_once(s: LoopState, backlog: Backlog)
    requires
        s.wf(),
        children_announced(s, backlog),
    ensures
        signals_in(delivered(s, backlog)) == terminating(backlog.signals, s.child_signal),
        children_in(delivered(s, backlog)) == backlog.children,
        delivered(s, backlog).len() == terminating(backlog.signals, s.child_signal).len()
            + backlog.children.len(),
        !delivered(s, backlog).contains(Event::StdinClosed),
    decreases work_left(s, backlog),
{
    lemma_call_delivers_next(s, backlog);
    lemma_call_makes_progress(s, backlog);
    match call(s, backlog) {
        None => {
            assert(terminating(backlog.signals, s.child_signal) =~= Seq::<i32>::empty());
            assert(backlog.children =~= Seq::<pid_t>::empty());
        },
        Some((event, next, rest)) => {
            let left = after_event(event, rest);
            lemma_each_occurrence_delivered_once(next, left);
            let tail = delivered(next, left);
            lemma_cons(event, tail);
            if let Event::ChildExit(pid) = event {
                assert(backlog.children =~= seq![pid] + left.children);
            }
            assert forall|i: int| 0 <= i < (seq![event] + tail).len() implies (seq![event]
                + tail)[i] != Event::StdinClosed by {
                if i > 0 {
                    assert(tail.contains(tail[i - 1]));
                }
            }
        },
    }
}

} // verus!
