//! The course of a whole run: namespaces are created one after the other
//! and announced, the supervisor then waits for its cue to leave, and what
//! was created is torn down again, the newest first.
//!
//! The supervisor keeps the cleanup stack. It names the next thing to do
//! ([`Supervisor::action`]) and takes what came of it
//! ([`Supervisor::advance`]); its driver does the work.

use crate::err::HLError;
use crate::idle_loop::Event;
use crate::netns::{
    error_of, netns_name, spec_netns_name, NetNs, NetNsState, Operation, Outcome, Phase,
};
use crate::signals::{signal_name, signal_name_of};
use crate::subprocess::option_view;
use crate::text::{push_signed_decimal, signed_decimal};
use libc::pid_t;
use vstd::prelude::*;
use vstd::string::*;

verus! {

/// What the supervisor is busy with.
#[derive(Clone, Copy, Debug, PartialEq, Eq, Structural)]
pub enum Mode {
    /// Creating and announcing the namespaces.
    Setup,
    /// Waiting for the cue to leave.
    Serving,
    /// Tearing down what was created.
    Unwinding,
    /// Everything is torn down.
    Finished,
}

/// What the driver is to do next.
#[derive(Clone, Copy, Debug, PartialEq, Eq, Structural)]
pub enum Action {
    /// Perform this operation on the namespace with this number.
    Perform(usize, Operation),
    /// Write the name of the namespace with this number to the output, as a
    /// line of its own.
    Announce(usize),
    /// Close the output: setup is complete.
    CloseOutput,
    /// Run the idle loop until it hands out an event.
    AwaitEvent,
    /// Reap this child, which nobody was waiting for, and warn about it.
    Reap(pid_t),
    /// Leave, with this exit code.
    Exit(i32),
}

/// What came of an action.
#[derive(Debug)]
pub enum Feedback {
    /// How the action ended.
    Outcome(Outcome),
    /// The event that the idle loop handed out.
    Event(Event),
}

/// A supervisor, as contracts see it.
pub struct SupervisorState {
    /// What the names of the namespaces begin with.
    pub prefix: Seq<char>,
    /// How many namespaces are asked for.
    pub count: nat,
    /// The cleanup stack: the namespaces that are owned, the oldest first.
    pub stack: Seq<NetNsState>,
    /// The namespace that is being created, announced or torn down.
    pub current: Option<NetNsState>,
    pub mode: Mode,
    /// The child that is to be reaped.
    pub reaping: Option<pid_t>,
    /// Why setup failed, if it did.
    pub failure: Option<HLError>,
}

impl SupervisorState {
    /// The name of the namespace with number `index`.
    pub open spec fn name(self, index: nat) -> Seq<char> {
        spec_netns_name(self.prefix, index)
    }

    /// A supervisor that has done nothing yet.
    pub open spec fn initial(prefix: Seq<char>, count: nat) -> SupervisorState {
        SupervisorState {
            prefix,
            count,
            stack: Seq::empty(),
            current: if count > 0 {
                Some(NetNsState::absent(spec_netns_name(prefix, 0)))
            } else {
                None
            },
            mode: Mode::Setup,
            reaping: None,
            failure: None,
        }
    }

    /// The exit code: 1 where setup failed, 0 for an orderly run.
    pub open spec fn exit_code(self) -> i32 {
        if self.failure is Some {
            1
        } else {
            0
        }
    }

    /// What the driver is to do next.
    pub open spec fn action(self) -> Action {
        match self.mode {
            Mode::Setup => match self.current {
                Some(ns) => if ns.remaining.len() > 0 {
                    Action::Perform(self.stack.len() as usize, ns.remaining[0])
                } else {
                    Action::Announce(self.stack.len() as usize)
                },
                None => Action::CloseOutput,
            },
            Mode::Serving => match self.reaping {
                Some(pid) => Action::Reap(pid),
                None => Action::AwaitEvent,
            },
            Mode::Unwinding => match self.current {
                Some(ns) => if ns.remaining.len() > 0 {
                    Action::Perform(self.stack.len() as usize, ns.remaining[0])
                } else {
                    Action::Exit(self.exit_code())
                },
                None => Action::Exit(self.exit_code()),
            },
            Mode::Finished => Action::Exit(self.exit_code()),
        }
    }

    /// The state when the teardown turns to the next namespace: the newest
    /// on the cleanup stack leaves it and begins to be destroyed. With the
    /// stack empty, the run is finished.
    pub open spec fn unwind(self) -> SupervisorState {
        if self.stack.len() > 0 {
            SupervisorState {
                mode: Mode::Unwinding,
                current: Some(self.stack.last().destroy()),
                stack: self.stack.drop_last(),
                reaping: None,
                ..self
            }
        } else {
            SupervisorState { mode: Mode::Finished, current: None, reaping: None, ..self }
        }
    }

    /// The state once the namespace `ns` has been announced: it goes onto
    /// the cleanup stack, and the next namespace, if one is still asked
    /// for, is about to be created.
    pub open spec fn announced(self, ns: NetNsState) -> SupervisorState {
        let stack = self.stack.push(ns);
        SupervisorState {
            stack,
            current: if stack.len() < self.count {
                Some(NetNsState::absent(self.name(stack.len())))
            } else {
                None
            },
            ..self
        }
    }

    /// The state after `feedback` on the pending action, and the error to
    /// be logged, if there is one. Feedback of a kind that the pending
    /// action does not give changes nothing.
    ///
    /// During setup, a namespace whose creation has failed and been undone
    /// ends the setup: the error is kept and the teardown of the namespaces
    /// created before it begins. So does a failure to announce a namespace
    /// or to close the output. While serving, the end of the input and a
    /// terminating signal begin the teardown; the exit of a child is met by
    /// reaping it. During teardown, each namespace is destroyed to the end
    /// before the next one is taken from the stack.
    pub open spec fn step(self, feedback: Feedback) -> (SupervisorState, Option<HLError>) {
        match (self.mode, feedback) {
            (Mode::Setup, Feedback::Outcome(outcome)) => match self.current {
                Some(ns) => if ns.remaining.len() > 0 {
                    let (next, log) = ns.step(outcome);
                    if next.phase == Phase::Failed {
                        (
                            SupervisorState {
                                failure: next.failure,
                                current: None,
                                ..self
                            }.unwind(),
                            log,
                        )
                    } else {
                        (SupervisorState { current: Some(next), ..self }, log)
                    }
                } else {
                    match outcome {
                        Outcome::Failed(e) => (
                            SupervisorState {
                                failure: Some(e),
                                stack: self.stack.push(ns),
                                current: None,
                                ..self
                            }.unwind(),
                            None,
                        ),
                        _ => (self.announced(ns), None),
                    }
                },
                None => match outcome {
                    Outcome::Failed(e) => (
                        SupervisorState { failure: Some(e), ..self }.unwind(),
                        None,
                    ),
                    _ => (SupervisorState { mode: Mode::Serving, ..self }, None),
                },
            },
            (Mode::Serving, Feedback::Event(event)) => match self.reaping {
                None => match event {
                    Event::ChildExit(pid) => (
                        SupervisorState { reaping: Some(pid), ..self },
                        None,
                    ),
                    _ => (self.unwind(), None),
                },
                Some(_) => (self, None),
            },
            (Mode::Serving, Feedback::Outcome(outcome)) => match self.reaping {
                Some(_) => (SupervisorState { reaping: None, ..self }, error_of(outcome)),
                None => (self, None),
            },
            (Mode::Unwinding, Feedback::Outcome(outcome)) => match self.current {
                Some(ns) => {
                    let (next, log) = ns.step(outcome);
                    if next.remaining.len() == 0 {
                        (SupervisorState { current: None, ..self }.unwind(), log)
                    } else {
                        (SupervisorState { current: Some(next), ..self }, log)
                    }
                },
                None => (self.unwind(), None),
            },
            _ => (self, None),
        }
    }
}

/// The supervisor of one run.
#[derive(Debug)]
pub struct Supervisor {
    prefix: String,
    count: usize,
    stack: Vec<NetNs>,
    current: Option<NetNs>,
    mode: Mode,
    reaping: Option<pid_t>,
    failure: Option<HLError>,
}

/// The namespaces of a cleanup stack as contracts see them.
pub open spec fn stack_view(stack: Seq<NetNs>) -> Seq<NetNsState> {
    Seq::new(stack.len(), |i: int| stack[i]@)
}

impl View for Supervisor {
    type V = SupervisorState;

    closed spec fn view(&self) -> SupervisorState {
        SupervisorState {
            prefix: self.prefix@,
            count: self.count as nat,
            stack: stack_view(self.stack@),
            current: match self.current {
                Some(ns) => Some(ns@),
                None => None,
            },
            mode: self.mode,
            reaping: self.reaping,
            failure: self.failure,
        }
    }
}

impl Supervisor {
    /// A supervisor for `count` namespaces named after `prefix`, which has
    /// done nothing yet.
    pub fn new(prefix: String, count: usize) -> (r: Supervisor)
        ensures
            r@ == SupervisorState::initial(prefix@, count as nat),
    {
        let current = if count > 0 {
            Some(NetNs::new(netns_name(prefix.as_str(), 0)))
        } else {
            None
        };
        let r = Supervisor {
            prefix,
            count,
            stack: Vec::new(),
            current,
            mode: Mode::Setup,
            reaping: None,
            failure: None,
        };
        assert(r@.stack =~= Seq::empty());
        r
    }

    /// What the supervisor is busy with.
    pub fn mode(&self) -> (r: Mode)
        ensures
            r == self@.mode,
    {
        self.mode
    }

    /// The exit code of the run: 1 where setup failed, 0 for an orderly
    /// run.
    pub fn exit_code(&self) -> (r: i32)
        ensures
            r == self@.exit_code(),
    {
        match &self.failure {
            Some(_) => 1,
            None => 0,
        }
    }

    /// The name of the namespace with number `index`.
    pub fn name(&self, index: usize) -> (r: String)
        ensures
            r@ == self@.name(index as nat),
    {
        netns_name(self.prefix.as_str(), index)
    }

    /// What the driver is to do next.
    pub fn action(&self) -> (r: Action)
        ensures
            r == self@.action(),
    {
        match self.mode {
            Mode::Setup => match &self.current {
                Some(ns) => match ns.pending() {
                    Some(op) => Action::Perform(self.stack.len(), op),
                    None => Action::Announce(self.stack.len()),
                },
                None => Action::CloseOutput,
            },
            Mode::Serving => match self.reaping {
                Some(pid) => Action::Reap(pid),
                None => Action::AwaitEvent,
            },
            Mode::Unwinding => match &self.current {
                Some(ns) => match ns.pending() {
                    Some(op) => Action::Perform(self.stack.len(), op),
                    None => Action::Exit(self.exit_code()),
                },
                None => Action::Exit(self.exit_code()),
            },
            Mode::Finished => Action::Exit(self.exit_code()),
        }
    }

    fn unwind(&mut self)
        ensures
            final(self)@ == old(self)@.unwind(),
    {
        self.reaping = None;
        match self.stack.pop() {
            Some(mut ns) => {
                assert(stack_view(self.stack@) =~= old(self)@.stack.drop_last());
                assert(ns@ == old(self)@.stack.last());
                ns.destroy();
                self.mode = Mode::Unwinding;
                self.current = Some(ns);
            },
            None => {
                assert(stack_view(self.stack@) =~= old(self)@.stack);
                self.mode = Mode::Finished;
                self.current = None;
            },
        }
    }

    fn keep(&mut self, ns: NetNs)
        ensures
            final(self)@ == (SupervisorState {
                stack: old(self)@.stack.push(ns@),
                ..old(self)@
            }),
    {
        self.stack.push(ns);
        assert(stack_view(self.stack@) =~= old(self)@.stack.push(ns@));
    }

    /// Takes what came of the pending action. Hands back the error of a
    /// failure that is to be logged and not to stop anything.
    pub fn advance(&mut self, feedback: Feedback) -> (log: Option<HLError>)
        ensures
            (final(self)@, log) == old(self)@.step(feedback),
    {
        match (self.mode, feedback) {
            (Mode::Setup, Feedback::Outcome(outcome)) => {
                match self.current.take() {
                    Some(mut ns) => {
                        if ns.pending().is_some() {
                            let log = ns.completed(outcome);
                            match ns.phase() {
                                Phase::Failed => {
                                    self.failure = ns.take_failure();
                                    self.unwind();
                                },
                                _ => {
                                    self.current = Some(ns);
                                },
                            }
                            log
                        } else {
                            self.keep(ns);
                            match outcome {
                                Outcome::Failed(e) => {
                                    self.failure = Some(e);
                                    self.unwind();
                                },
                                _ => {
                                    if self.stack.len() < self.count {
                                        let name = netns_name(
                                            self.prefix.as_str(),
                                            self.stack.len(),
                                        );
                                        self.current = Some(NetNs::new(name));
                                    }
                                },
                            }
                            None
                        }
                    },
                    None => {
                        match outcome {
                            Outcome::Failed(e) => {
                                self.failure = Some(e);
                                self.unwind();
                            },
                            _ => {
                                self.mode = Mode::Serving;
                            },
                        }
                        None
                    },
                }
            },
            (Mode::Serving, Feedback::Event(event)) => {
                match self.reaping {
                    None => match event {
                        Event::ChildExit(pid) => {
                            self.reaping = Some(pid);
                        },
                        _ => {
                            self.unwind();
                        },
                    },
                    Some(_) => {},
                }
                None
            },
            (Mode::Serving, Feedback::Outcome(outcome)) => {
                match self.reaping {
                    Some(_) => {
                        self.reaping = None;
                        match outcome {
                            Outcome::Failed(e) => Some(e),
                            _ => None,
                        }
                    },
                    None => None,
                }
            },
            (Mode::Unwinding, Feedback::Outcome(outcome)) => {
                match self.current.take() {
                    Some(mut ns) => {
                        let log = ns.completed(outcome);
                        if ns.pending().is_some() {
                            self.current = Some(ns);
                        } else {
                            self.unwind();
                        }
                        log
                    },
                    None => {
                        self.unwind();
                        None
                    },
                }
            },
            _ => None,
        }
    }

    /// Ends the run: hands out the error that made setup fail, once the
    /// run is finished; `None` before that, and after an orderly run.
    pub fn into_failure(self) -> (r: Option<HLError>)
        ensures
            r == (if self@.mode == Mode::Finished {
                self@.failure
            } else {
                None
            }),
    {
        match self.mode {
            Mode::Finished => self.failure,
            _ => None,
        }
    }
}

/// What is said about an event that ends the run, where `name` is the name
/// of the signal, if it has one: nothing about any other event.
pub open spec fn leave_note(event: Event, name: Option<Seq<char>>) -> Option<Seq<char>> {
    match event {
        Event::StdinClosed => Some("# stdin closed, exiting"@),
        Event::TermSignal(number) => Some(
            "# "@ + (match name {
                Some(name) => name,
                None => "signal "@ + signed_decimal(number as int),
            }) + ", exiting"@,
        ),
        Event::ChildExit(_) => None,
    }
}

/// The line to show for `event`, given the name of the signal where the
/// event is one that has a name.
pub fn note_with(event: Event, name: Option<String>) -> (r: Option<String>)
    ensures
        option_view(r) == leave_note(event, option_view(name)),
{
    match event {
        Event::StdinClosed => Some(String::from_str("# stdin closed, exiting")),
        Event::TermSignal(number) => {
            let mut line = String::from_str("# ");
            match name {
                Some(name) => {
                    line.append(name.as_str());
                },
                None => {
                    line.append("signal ");
                    push_signed_decimal(&mut line, number as i64);
                },
            }
            line.append(", exiting");
            Some(line)
        },
        Event::ChildExit(_) => None,
    }
}

/// The line to show, in a verbose run, for an event that ends the run: the
/// end of the input, or a terminating signal by its name.
pub fn note(event: Event, verbose: bool) -> (r: Option<String>)
    ensures
        option_view(r) == (if verbose {
            leave_note(
                event,
                match event {
                    Event::TermSignal(number) => signal_name_of(number),
                    _ => None,
                },
            )
        } else {
            None
        }),
{
    if verbose {
        let name = match event {
            Event::TermSignal(number) => signal_name(number),
            _ => None,
        };
        note_with(event, name)
    } else {
        None
    }
}

} // verus!
