//! One network namespace as a scoped resource: created step by step, with
//! each step undone if a later one fails, and torn down by a fixed protocol
//! that clears out the processes still inside.
//!
//! The resource does none of the work itself. It names the operation that
//! comes next ([`NetNs::pending`]) and takes its outcome
//! ([`NetNs::completed`]).

use crate::err::HLError;
use crate::text::{decimal, push_decimal, str_views};
use libc::pid_t;
use vstd::prelude::*;
use vstd::string::*;

verus! {

/// How long residents of a namespace are given to exit after they were
/// asked to terminate, in seconds.
pub const GRACE_SECONDS: u64 = 5;

/// One piece of work on a namespace.
#[derive(Clone, Copy, Debug, PartialEq, Eq, Structural)]
pub enum Operation {
    /// Create the configuration directory, with its parents.
    MakeConfDir,
    /// Create the namespace.
    AddNamespace,
    /// Bring the loopback interface up.
    LoopbackUp,
    /// Enumerate the processes that reside in the namespace.
    ListResidents,
    /// Ask this process to terminate.
    Terminate(pid_t),
    /// Wait for [`GRACE_SECONDS`].
    Grace,
    /// Kill this process.
    Kill(pid_t),
    /// Bring the loopback interface down.
    LoopbackDown,
    /// Delete the namespace.
    DeleteNamespace,
    /// Remove the configuration directory and what is in it.
    RemoveConfDir,
}

/// Where a namespace is in its life.
#[derive(Clone, Copy, Debug, PartialEq, Eq, Structural)]
pub enum Phase {
    /// Being created; not yet usable.
    Creating,
    /// A creation step has failed and the earlier ones are being undone.
    Compensating,
    /// Fully created. Teardown is owed.
    Owned,
    /// Being torn down.
    Destroying,
    /// Creation has failed and nothing of it is left.
    Failed,
    /// Torn down.
    Gone,
}

/// The outcome of an operation.
#[derive(Debug)]
pub enum Outcome {
    /// It succeeded.
    Done,
    /// It failed.
    Failed(HLError),
    /// The enumeration succeeded, with these process ids.
    Residents(Vec<pid_t>),
}

/// The steps that create a namespace, in order.
pub open spec fn creation_script() -> Seq<Operation> {
    seq![Operation::MakeConfDir, Operation::AddNamespace, Operation::LoopbackUp]
}

/// The steps that remove a namespace, in order, once nobody is left in it.
pub open spec fn removal_script() -> Seq<Operation> {
    seq![Operation::LoopbackDown, Operation::DeleteNamespace, Operation::RemoveConfDir]
}

/// The steps that undo what was created before the creation step `failed`
/// went wrong.
pub open spec fn compensation(failed: Operation) -> Seq<Operation> {
    match failed {
        Operation::AddNamespace => seq![Operation::RemoveConfDir],
        Operation::LoopbackUp => seq![Operation::DeleteNamespace, Operation::RemoveConfDir],
        _ => Seq::empty(),
    }
}

/// A request to terminate for each of `pids`, in order.
pub open spec fn terminations(pids: Seq<pid_t>) -> Seq<Operation> {
    Seq::new(pids.len(), |i: int| Operation::Terminate(pids[i]))
}

/// A kill for each of `pids`, in order.
pub open spec fn kills(pids: Seq<pid_t>) -> Seq<Operation> {
    Seq::new(pids.len(), |i: int| Operation::Kill(pids[i]))
}

/// The process ids that an enumeration found: none where it failed.
pub open spec fn residents(outcome: Outcome) -> Seq<pid_t> {
    match outcome {
        Outcome::Residents(pids) => pids@,
        _ => Seq::empty(),
    }
}

/// The error that an outcome carries.
pub open spec fn error_of(outcome: Outcome) -> Option<HLError> {
    match outcome {
        Outcome::Failed(e) => Some(e),
        _ => None,
    }
}

/// The error to be logged for an operation that ended as `outcome` says,
/// where a failure stops nothing. A request to terminate or a kill that
/// could not be delivered is no error and is not logged: the process may
/// be gone already.
pub open spec fn logged(op: Operation, outcome: Outcome) -> Option<HLError> {
    match op {
        Operation::Terminate(_) => None,
        Operation::Kill(_) => None,
        _ => error_of(outcome),
    }
}

/// The phase in which a namespace comes to rest when nothing is left to do
/// in `phase`.
pub open spec fn settled(phase: Phase) -> Phase {
    match phase {
        Phase::Creating => Phase::Owned,
        Phase::Compensating => Phase::Failed,
        Phase::Destroying => Phase::Gone,
        p => p,
    }
}

/// A namespace, as contracts see it.
pub struct NetNsState {
    /// Its name.
    pub name: Seq<char>,
    pub phase: Phase,
    /// The operations still to do in this phase, the pending one first.
    pub remaining: Seq<Operation>,
    /// Whether its residents have been asked to terminate.
    pub escalated: bool,
    /// Why creation failed, if it did.
    pub failure: Option<HLError>,
}

impl NetNsState {
    /// A namespace of which nothing exists yet, about to be created.
    pub open spec fn absent(name: Seq<char>) -> NetNsState {
        NetNsState {
            name,
            phase: Phase::Creating,
            remaining: creation_script(),
            escalated: false,
            failure: None,
        }
    }

    /// This state with `remaining` left to do: still in its phase while
    /// there is something, and settled when there is not.
    pub open spec fn with_remaining(self, remaining: Seq<Operation>) -> NetNsState {
        NetNsState {
            remaining,
            phase: if remaining.len() > 0 {
                self.phase
            } else {
                settled(self.phase)
            },
            ..self
        }
    }

    /// The state after the pending operation has ended as `outcome` says,
    /// and the error to be logged, if there is one.
    ///
    /// While creating, a failure stops the creation: what was made so far
    /// is undone, and the error is kept until that is done. While undoing
    /// or destroying, the next operation follows whatever the outcome: a
    /// failure is logged, but for that of a request to terminate or a kill,
    /// which is ignored. The first enumeration of residents leads to requests
    /// to terminate, the grace interval and a second enumeration; the second
    /// leads to kills. An enumeration that finds nobody, or fails, leads
    /// straight to the removal.
    pub open spec fn step(self, outcome: Outcome) -> (NetNsState, Option<HLError>) {
        if self.remaining.len() == 0 {
            (self, None)
        } else {
            let op = self.remaining[0];
            let rest = self.remaining.drop_first();
            match self.phase {
                Phase::Creating => match outcome {
                    Outcome::Failed(e) => (
                        NetNsState {
                            phase: Phase::Compensating,
                            failure: Some(e),
                            ..self
                        }.with_remaining(compensation(op)),
                        None,
                    ),
                    _ => (self.with_remaining(rest), None),
                },
                Phase::Destroying => if op == Operation::ListResidents {
                    let found = residents(outcome);
                    if found.len() == 0 {
                        (self.with_remaining(removal_script()), error_of(outcome))
                    } else if !self.escalated {
                        (
                            NetNsState { escalated: true, ..self }.with_remaining(
                                terminations(found) + seq![
                                    Operation::Grace,
                                    Operation::ListResidents,
                                ],
                            ),
                            None,
                        )
                    } else {
                        (self.with_remaining(kills(found) + removal_script()), None)
                    }
                } else {
                    (self.with_remaining(rest), logged(op, outcome))
                },
                _ => (self.with_remaining(rest), logged(op, outcome)),
            }
        }
    }

    /// The state after teardown has been asked for: an owned namespace
    /// begins with the enumeration of its residents, and any other stays
    /// as it is.
    pub open spec fn destroy(self) -> NetNsState {
        if self.phase == Phase::Owned {
            NetNsState {
                phase: Phase::Destroying,
                remaining: seq![Operation::ListResidents],
                escalated: false,
                ..self
            }
        } else {
            self
        }
    }
}

/// A network namespace and its configuration directory.
#[derive(Debug)]
pub struct NetNs {
    name: String,
    phase: Phase,
    queue: Vec<Operation>,
    escalated: bool,
    failure: Option<HLError>,
}

impl View for NetNs {
    type V = NetNsState;

    closed spec fn view(&self) -> NetNsState {
        NetNsState {
            name: self.name@,
            phase: self.phase,
            remaining: self.queue@,
            escalated: self.escalated,
            failure: self.failure,
        }
    }
}

fn removal_steps(queue: &mut Vec<Operation>)
    ensures
        final(queue)@ == old(queue)@ + removal_script(),
{
    queue.push(Operation::LoopbackDown);
    queue.push(Operation::DeleteNamespace);
    queue.push(Operation::RemoveConfDir);
    assert(queue@ =~= old(queue)@ + removal_script());
}

fn log_for(op: Operation, outcome: Outcome) -> (r: Option<HLError>)
    ensures
        r == logged(op, outcome),
{
    match op {
        Operation::Terminate(_) => None,
        Operation::Kill(_) => None,
        _ => match outcome {
            Outcome::Failed(e) => Some(e),
            _ => None,
        },
    }
}

fn compensation_steps(failed: Operation) -> (queue: Vec<Operation>)
    ensures
        queue@ == compensation(failed),
{
    let mut queue = Vec::new();
    match failed {
        Operation::AddNamespace => {
            queue.push(Operation::RemoveConfDir);
        },
        Operation::LoopbackUp => {
            queue.push(Operation::DeleteNamespace);
            queue.push(Operation::RemoveConfDir);
        },
        _ => {},
    }
    assert(queue@ =~= compensation(failed));
    queue
}

fn termination_steps(pids: &Vec<pid_t>) -> (queue: Vec<Operation>)
    ensures
        queue@ == terminations(pids@) + seq![Operation::Grace, Operation::ListResidents],
{
    let mut queue = Vec::new();
    let mut i: usize = 0;
    while i < pids.len()
        invariant
            0 <= i <= pids.len(),
            queue@ == terminations(pids@.take(i as int)),
        decreases pids.len() - i,
    {
        queue.push(Operation::Terminate(pids[i]));
        assert(queue@ =~= terminations(pids@.take(i as int + 1)));
        i += 1;
    }
    assert(pids@.take(i as int) =~= pids@);
    queue.push(Operation::Grace);
    queue.push(Operation::ListResidents);
    assert(queue@ =~= terminations(pids@) + seq![Operation::Grace, Operation::ListResidents]);
    queue
}

fn kill_steps(pids: &Vec<pid_t>) -> (queue: Vec<Operation>)
    ensures
        queue@ == kills(pids@) + removal_script(),
{
    let mut queue = Vec::new();
    let mut i: usize = 0;
    while i < pids.len()
        invariant
            0 <= i <= pids.len(),
            queue@ == kills(pids@.take(i as int)),
        decreases pids.len() - i,
    {
        queue.push(Operation::Kill(pids[i]));
        assert(queue@ =~= kills(pids@.take(i as int + 1)));
        i += 1;
    }
    assert(pids@.take(i as int) =~= pids@);
    removal_steps(&mut queue);
    queue
}

impl NetNs {
    /// The namespace `name`, of which nothing exists yet.
    pub fn new(name: String) -> (r: NetNs)
        ensures
            r@ == NetNsState::absent(name@),
    {
        let mut queue = Vec::new();
        queue.push(Operation::MakeConfDir);
        queue.push(Operation::AddNamespace);
        queue.push(Operation::LoopbackUp);
        assert(queue@ =~= creation_script());
        NetNs { name, phase: Phase::Creating, queue, escalated: false, failure: None }
    }

    /// The name of the namespace.
    pub fn name(&self) -> (r: &str)
        ensures
            r@ == self@.name,
    {
        self.name.as_str()
    }

    /// Where the namespace is in its life.
    pub fn phase(&self) -> (r: Phase)
        ensures
            r == self@.phase,
    {
        self.phase
    }

    /// Whether the namespace is fully created, so that teardown is owed.
    pub fn is_owned(&self) -> (r: bool)
        ensures
            r == (self@.phase == Phase::Owned),
    {
        match self.phase {
            Phase::Owned => true,
            _ => false,
        }
    }

    /// The operation to perform next, if there is one.
    pub fn pending(&self) -> (r: Option<Operation>)
        ensures
            r == (if self@.remaining.len() > 0 {
                Some(self@.remaining[0])
            } else {
                None
            }),
    {
        if self.queue.len() > 0 {
            Some(self.queue[0])
        } else {
            None
        }
    }

    fn settle(&mut self)
        ensures
            final(self)@ == old(self)@.with_remaining(old(self)@.remaining),
    {
        if self.queue.len() == 0 {
            self.phase = match self.phase {
                Phase::Creating => Phase::Owned,
                Phase::Compensating => Phase::Failed,
                Phase::Destroying => Phase::Gone,
                p => p,
            };
        }
    }

    /// Takes the outcome of the pending operation. Hands back the error of
    /// a failure that is to be logged and not to stop anything; a request
    /// to terminate or a kill that failed is not among them.
    pub fn completed(&mut self, outcome: Outcome) -> (log: Option<HLError>)
        ensures
            (final(self)@, log) == old(self)@.step(outcome),
    {
        if self.queue.len() == 0 {
            return None;
        }
        let op = self.queue.remove(0);
        assert(self.queue@ =~= old(self)@.remaining.drop_first());
        let log = match self.phase {
            Phase::Creating => {
                match outcome {
                    Outcome::Failed(e) => {
                        self.phase = Phase::Compensating;
                        self.failure = Some(e);
                        self.queue = compensation_steps(op);
                    },
                    _ => {},
                }
                None
            },
            Phase::Destroying => {
                match op {
                    Operation::ListResidents => {
                        match outcome {
                            Outcome::Residents(pids) => {
                                if pids.len() == 0 {
                                    self.queue.clear();
                                    removal_steps(&mut self.queue);
                                } else if !self.escalated {
                                    self.escalated = true;
                                    self.queue = termination_steps(&pids);
                                } else {
                                    self.queue = kill_steps(&pids);
                                }
                                None
                            },
                            Outcome::Failed(e) => {
                                self.queue.clear();
                                removal_steps(&mut self.queue);
                                Some(e)
                            },
                            Outcome::Done => {
                                self.queue.clear();
                                removal_steps(&mut self.queue);
                                None
                            },
                        }
                    },
                    _ => log_for(op, outcome),
                }
            },
            _ => log_for(op, outcome),
        };
        self.settle();
        log
    }

    /// Asks for teardown. An owned namespace begins to be destroyed; on any
    /// other this has no effect.
    pub fn destroy(&mut self)
        ensures
            final(self)@ == old(self)@.destroy(),
    {
        if self.is_owned() {
            self.phase = Phase::Destroying;
            self.queue.clear();
            self.queue.push(Operation::ListResidents);
            self.escalated = false;
            assert(self.queue@ =~= seq![Operation::ListResidents]);
        }
    }

    /// The error that made creation fail, once everything that had been
    /// created is undone; `None` before that, and for a namespace whose
    /// creation has not failed.
    pub fn take_failure(&mut self) -> (r: Option<HLError>)
        ensures
            r == (if old(self)@.phase == Phase::Failed {
                old(self)@.failure
            } else {
                None
            }),
            final(self)@ == (if old(self)@.phase == Phase::Failed {
                NetNsState { failure: None, ..old(self)@ }
            } else {
                old(self)@
            }),
    {
        match self.phase {
            Phase::Failed => self.failure.take(),
            _ => None,
        }
    }
}

/// The name of the namespace with number `index` among those named after
/// `prefix`.
pub open spec fn spec_netns_name(prefix: Seq<char>, index: nat) -> Seq<char> {
    prefix + "_ns"@ + decimal(index)
}

/// The name of the namespace with number `index` among those named after
/// `prefix`: the prefix, `_ns` and the number.
pub fn netns_name(prefix: &str, index: usize) -> (r: String)
    ensures
        r@ == spec_netns_name(prefix@, index as nat),
{
    let mut name = String::from_str(prefix);
    name.append("_ns");
    push_decimal(&mut name, index as u64);
    name
}

/// The configuration directory of the namespace `name`.
pub open spec fn spec_conf_dir(name: Seq<char>) -> Seq<char> {
    "/etc/netns/"@ + name
}

/// The configuration directory of the namespace `name`.
pub fn conf_dir(name: &str) -> (r: String)
    ensures
        r@ == spec_conf_dir(name@),
{
    let mut path = String::from_str("/etc/netns/");
    path.append(name);
    path
}

/// The words of the command that carries out `op` on the namespace `name`;
/// `None` for an operation that is no command.
pub open spec fn command_words(op: Operation, name: Seq<char>) -> Option<Seq<Seq<char>>> {
    match op {
        Operation::AddNamespace => Some(seq!["ip"@, "netns"@, "add"@, name]),
        Operation::DeleteNamespace => Some(seq!["ip"@, "netns"@, "del"@, name]),
        Operation::ListResidents => Some(seq!["ip"@, "netns"@, "pids"@, name]),
        Operation::LoopbackUp => Some(
            seq![
                "ip"@,
                "netns"@,
                "exec"@,
                name,
                "ip"@,
                "link"@,
                "set"@,
                "dev"@,
                "lo"@,
                "up"@,
            ],
        ),
        Operation::LoopbackDown => Some(
            seq![
                "ip"@,
                "netns"@,
                "exec"@,
                name,
                "ip"@,
                "link"@,
                "set"@,
                "dev"@,
                "lo"@,
                "down"@,
            ],
        ),
        _ => None,
    }
}

fn namespace_command<'a>(verb: &'a str, name: &'a str) -> (argv: Vec<&'a str>)
    ensures
        str_views(argv@) == seq!["ip"@, "netns"@, verb@, name@],
{
    let mut argv = Vec::new();
    argv.push("ip");
    argv.push("netns");
    argv.push(verb);
    argv.push(name);
    assert(str_views(argv@) =~= seq!["ip"@, "netns"@, verb@, name@]);
    argv
}

fn loopback_command<'a>(name: &'a str, state: &'a str) -> (argv: Vec<&'a str>)
    ensures
        str_views(argv@) == seq![
            "ip"@,
            "netns"@,
            "exec"@,
            name@,
            "ip"@,
            "link"@,
            "set"@,
            "dev"@,
            "lo"@,
            state@,
        ],
{
    let mut argv = Vec::new();
    argv.push("ip");
    argv.push("netns");
    argv.push("exec");
    argv.push(name);
    argv.push("ip");
    argv.push("link");
    argv.push("set");
    argv.push("dev");
    argv.push("lo");
    argv.push(state);
    assert(str_views(argv@) =~= seq![
        "ip"@,
        "netns"@,
        "exec"@,
        name@,
        "ip"@,
        "link"@,
        "set"@,
        "dev"@,
        "lo"@,
        state@,
    ]);
    argv
}

/// The command that carries out `op` on the namespace `name`, word by
/// word; `None` for an operation that is no command.
pub fn command<'a>(op: Operation, name: &'a str) -> (r: Option<Vec<&'a str>>)
    ensures
        match r {
            Some(argv) => command_words(op, name@) == Some(str_views(argv@)),
            None => command_words(op, name@) is None,
        },
{
    match op {
        Operation::AddNamespace => Some(namespace_command("add", name)),
        Operation::DeleteNamespace => Some(namespace_command("del", name)),
        Operation::ListResidents => Some(namespace_command("pids", name)),
        Operation::LoopbackUp => Some(loopback_command(name, "up")),
        Operation::LoopbackDown => Some(loopback_command(name, "down")),
        _ => None,
    }
}

} // verus!
