//! The idle loop: what the supervisor does between setup and teardown.
//!
//! The loop itself performs no input or output. It says which piece of
//! outside work comes next ([`IdleLoop::request`]) and, given the outcome of
//! that work, moves on and possibly hands out one [`Event`]
//! ([`IdleLoop::next_event`]). The driver repeats the two until an event
//! comes out.

use crate::signals::{signal_name_of, signal_number, signal_number_named};
use libc::pid_t;
use vstd::prelude::*;

verus! {

/// Anything that the main program has to take notice of.
#[derive(Clone, Copy, Debug, PartialEq, Eq, Structural)]
pub enum Event {
    /// The controlling input has reached its end, or has failed.
    StdinClosed,
    /// A signal that asks for a graceful exit was received.
    TermSignal(i32),
    /// A child process has exited and can be reaped.
    ChildExit(pid_t),
}

/// The outside work that the loop asks its driver for.
#[derive(Clone, Copy, Debug, PartialEq, Eq, Structural)]
pub enum Request {
    /// Block, with no timeout, until the signal channel is readable or, if
    /// `watch_input` is set, the controlling input is.
    Wait { watch_input: bool },
    /// Read and discard the controlling input until it would block, ends or
    /// fails.
    DrainInput,
    /// Take one signal from the signal channel, without blocking.
    ReadSignal,
    /// Ask for an exited child, without reaping it.
    QueryChild,
}

/// How draining the controlling input ended.
#[derive(Clone, Copy, Debug, PartialEq, Eq, Structural)]
pub enum InputStatus {
    /// Nothing more to read for now.
    Drained,
    /// End of stream.
    Closed,
    /// A read failed for another reason than that it would block.
    Failed,
}

/// The outcome of a piece of outside work.
#[derive(Clone, Copy, Debug, PartialEq, Eq)]
pub enum Reply {
    /// A wait has returned: which of the two sources are readable.
    Ready { signal: bool, input: bool },
    /// The controlling input has been drained.
    Input(InputStatus),
    /// What the signal channel held: a signal number, or nothing.
    Signal(Option<i32>),
    /// What the query for an exited child named: a process id, or nothing.
    Child(Option<pid_t>),
}

/// The state of an idle loop, as contracts see it.
pub struct LoopState {
    /// The descriptor of the signal channel.
    pub signal_pipe: i32,
    /// The number of the signal that announces exited children, where the
    /// platform has one.
    pub child_signal: Option<i32>,
    /// The controlling input has been seen to end.
    pub input_closed: bool,
    /// The controlling input was reported readable and has not been drained.
    pub input_pending: bool,
    /// The signal channel was reported readable and has not been found empty.
    pub signal_pending: bool,
    /// A child signal was seen and the query for exited children has not yet
    /// come back empty.
    pub children_pending: bool,
}

impl LoopState {
    /// An input that has been closed is never pending again.
    pub open spec fn wf(self) -> bool {
        self.input_closed ==> !self.input_pending
    }

    /// The child signal, where the loop has one, is the signal that goes by
    /// the name `SIGCHLD`: no signal of another name is taken for it.
    pub open spec fn knows_child_signal(self) -> bool {
        self.child_signal matches Some(number) ==> signal_name_of(number) == Some("SIGCHLD"@)
    }

    /// The state of a new loop.
    pub open spec fn initial(signal_pipe: i32, child_signal: Option<i32>) -> LoopState {
        LoopState {
            signal_pipe,
            child_signal,
            input_closed: false,
            input_pending: false,
            signal_pending: false,
            children_pending: false,
        }
    }

    /// The outside work that comes next: input before signals before
    /// children, and a wait only when nothing is pending.
    pub open spec fn request(self) -> Request {
        if self.input_pending {
            Request::DrainInput
        } else if self.signal_pending {
            Request::ReadSignal
        } else if self.children_pending {
            Request::QueryChild
        } else {
            Request::Wait { watch_input: !self.input_closed }
        }
    }

    /// The state after the outcome `reply` of the requested work, and the
    /// event that it gives rise to, if any. An outcome of other work than
    /// was requested changes nothing.
    pub open spec fn step(self, reply: Reply) -> (LoopState, Option<Event>) {
        match (self.request(), reply) {
            (Request::Wait { watch_input }, Reply::Ready { signal, input }) => (
                LoopState { signal_pending: signal, input_pending: input && watch_input, ..self },
                None,
            ),
            (Request::DrainInput, Reply::Input(InputStatus::Drained)) => (
                LoopState { input_pending: false, ..self },
                None,
            ),
            (Request::DrainInput, Reply::Input(_)) => (
                LoopState { input_pending: false, input_closed: true, ..self },
                Some(Event::StdinClosed),
            ),
            (Request::ReadSignal, Reply::Signal(None)) => (
                LoopState { signal_pending: false, ..self },
                None,
            ),
            (Request::ReadSignal, Reply::Signal(Some(number))) => if self.child_signal == Some(
                number,
            ) {
                (LoopState { children_pending: true, ..self }, None)
            } else {
                (self, Some(Event::TermSignal(number)))
            },
            (Request::QueryChild, Reply::Child(Some(pid))) => (self, Some(Event::ChildExit(pid))),
            (Request::QueryChild, Reply::Child(None)) => (
                LoopState { children_pending: false, ..self },
                None,
            ),
            _ => (self, None),
        }
    }
}

/// A generator of events.
pub struct IdleLoop {
    signal_pipe: i32,
    child_signal: Option<i32>,
    stdin_closed: bool,
    stdin_pending: bool,
    signal_pending: bool,
    children_pending: bool,
}

impl View for IdleLoop {
    type V = LoopState;

    closed spec fn view(&self) -> LoopState {
        LoopState {
            signal_pipe: self.signal_pipe,
            child_signal: self.child_signal,
            input_closed: self.stdin_closed,
            input_pending: self.stdin_pending,
            signal_pending: self.signal_pending,
            children_pending: self.children_pending,
        }
    }
}

impl IdleLoop {
    #[verifier::type_invariant]
    spec fn inv(&self) -> bool {
        &&& self.stdin_closed ==> !self.stdin_pending
        &&& self.child_signal matches Some(number) ==> signal_name_of(number) == Some("SIGCHLD"@)
    }

    /// A loop over the signal channel `signal_pipe`, with the controlling
    /// input open and nothing pending.
    pub fn new(signal_pipe: i32) -> (r: IdleLoop)
        ensures
            r@ == LoopState::initial(signal_pipe, signal_number_named("SIGCHLD"@)),
            r@.knows_child_signal(),
    {
        IdleLoop {
            signal_pipe,
            child_signal: signal_number("SIGCHLD"),
            stdin_closed: false,
            stdin_pending: false,
            signal_pending: false,
            children_pending: false,
        }
    }

    /// The descriptor of the signal channel.
    pub fn signal_pipe(&self) -> (r: i32)
        ensures
            r == self@.signal_pipe,
    {
        self.signal_pipe
    }

    /// The outside work that comes next.
    pub fn request(&self) -> (r: Request)
        ensures
            r == self@.request(),
            self@.wf(),
            self@.knows_child_signal(),
    {
        proof {
            use_type_invariant(self);
        }
        if self.stdin_pending {
            Request::DrainInput
        } else if self.signal_pending {
            Request::ReadSignal
        } else if self.children_pending {
            Request::QueryChild
        } else {
            Request::Wait { watch_input: !self.stdin_closed }
        }
    }

    /// Takes the outcome of the requested work and hands out the event that
    /// it gives rise to, if any: at most one for each outcome.
    pub fn next_event(&mut self, reply: Reply) -> (r: Option<Event>)
        ensures
            (final(self)@, r) == old(self)@.step(reply),
            old(self)@.wf(),
            final(self)@.wf(),
            final(self)@.knows_child_signal(),
    {
        proof {
            use_type_invariant(&*self);
        }
        match (self.request(), reply) {
            (Request::Wait { watch_input }, Reply::Ready { signal, input }) => {
                self.signal_pending = signal;
                self.stdin_pending = input && watch_input;
                None
            },
            (Request::DrainInput, Reply::Input(status)) => {
                self.stdin_pending = false;
                match status {
                    InputStatus::Drained => None,
                    _ => {
                        self.stdin_closed = true;
                        Some(Event::StdinClosed)
                    },
                }
            },
            (Request::ReadSignal, Reply::Signal(None)) => {
                self.signal_pending = false;
                None
            },
            (Request::ReadSignal, Reply::Signal(Some(number))) => {
                if self.child_signal == Some(number) {
                    self.children_pending = true;
                    None
                } else {
                    Some(Event::TermSignal(number))
                }
            },
            (Request::QueryChild, Reply::Child(Some(pid))) => Some(Event::ChildExit(pid)),
            (Request::QueryChild, Reply::Child(None)) => {
                self.children_pending = false;
                None
            },
            _ => None,
        }
    }
}

/// The outcome of one read from the controlling input.
#[derive(Clone, Copy, Debug, PartialEq, Eq, Structural)]
pub enum ReadOutcome {
    /// The read returned this many bytes; none at the end of the stream.
    Bytes(usize),
    /// The read would have blocked.
    WouldBlock,
    /// The read failed in another way.
    Failed,
}

/// What to do after one read while draining the controlling input.
#[derive(Clone, Copy, Debug, PartialEq, Eq, Structural)]
pub enum DrainStep {
    /// Data was read and is discarded: read again.
    Again,
    /// Draining is over, with this status.
    Done(InputStatus),
}

/// Decides how draining the controlling input goes on after one read.
/// What was read is discarded. A read of no bytes is the end of the
/// stream; a failure other than that the read would block is reported as
/// one, and the loop then treats the input as closed.
pub fn consume_stdin(outcome: ReadOutcome) -> (r: DrainStep)
    ensures
        r == match outcome {
            ReadOutcome::Bytes(n) => if n == 0 {
                DrainStep::Done(InputStatus::Closed)
            } else {
                DrainStep::Again
            },
            ReadOutcome::WouldBlock => DrainStep::Done(InputStatus::Drained),
            ReadOutcome::Failed => DrainStep::Done(InputStatus::Failed),
        },
{
    match outcome {
        ReadOutcome::Bytes(0) => DrainStep::Done(InputStatus::Closed),
        ReadOutcome::Bytes(_) => DrainStep::Again,
        ReadOutcome::WouldBlock => DrainStep::Done(InputStatus::Drained),
        ReadOutcome::Failed => DrainStep::Done(InputStatus::Failed),
    }
}

/// Which processes a wait request is about.
#[allow(non_camel_case_types)]
#[derive(Clone, Copy, Debug, PartialEq, Eq, Structural)]
pub enum idtype_t {
    P_ALL,
    P_PID,
    P_PGID,
}

/// Wait option: return at once where no child has exited.
pub const WNOHANG: u32 = 0x0000_0001;

/// Wait option: report children that have exited.
pub const WEXITED: u32 = 0x0000_0004;

/// Wait option: leave the child as it is, so that it can be waited for again.
pub const WNOWAIT: u32 = 0x0100_0000;

/// A request to `waitid`.
#[derive(Clone, Copy, Debug, PartialEq, Eq, Structural)]
pub struct WaitRequest {
    pub idtype: idtype_t,
    pub id: u32,
    pub options: u32,
}

/// The query for an exited child: about any child, without blocking and
/// without reaping.
pub fn child_query() -> (r: WaitRequest)
    ensures
        r.idtype == idtype_t::P_ALL,
        r.id == 0,
        r.options == WEXITED | WNOHANG | WNOWAIT,
        r.options == 0x0100_0005,
{
    assert(WEXITED | WNOHANG | WNOWAIT == 0x0100_0005) by (bit_vector);
    WaitRequest { idtype: idtype_t::P_ALL, id: 0, options: WEXITED | WNOHANG | WNOWAIT }
}

/// What the query for an exited child came to.
#[derive(Clone, Copy, Debug, PartialEq, Eq)]
pub struct ChildPoll {
    /// The child that has exited, if one has.
    pub child: Option<pid_t>,
    /// Whether the failure of the query is worth a diagnostic.
    pub report: bool,
}

/// Reads the result of the query for an exited child. `status` is what
/// `waitid` returned and `pid` the process id that it filled in;
/// `no_children` says whether it failed because there is no child at all.
/// A successful query names a child by a process id other than 0. A failed
/// one names none, and is reported unless it only says that there is no
/// child.
pub fn poll_next_child(status: i32, pid: pid_t, no_children: bool) -> (r: ChildPoll)
    ensures
        r.child == (if status == 0 && pid != 0 {
            Some(pid)
        } else {
            None
        }),
        r.report == (status != 0 && !no_children),
{
    if status == 0 {
        ChildPoll { child: if pid == 0 { None } else { Some(pid) }, report: false }
    } else {
        ChildPoll { child: None, report: !no_children }
    }
}

} // verus!
