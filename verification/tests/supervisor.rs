use nix::sys::signal::Signal;
use openvpn_netns_tools::err::{map_unsuc_child, ChildStatus};
use openvpn_netns_tools::idle_loop::{Event, IdleLoop, InputStatus, Reply, Request};
use openvpn_netns_tools::netns::{Operation, Outcome};
use openvpn_netns_tools::supervisor::{note, note_with, Action, Feedback, Mode, Supervisor};

fn done() -> Feedback {
    Feedback::Outcome(Outcome::Done)
}

fn failed() -> Feedback {
    Feedback::Outcome(Outcome::Failed(map_unsuc_child(&ChildStatus::Exited(1), &["ip"])))
}

/// What a driver sees of a run.
struct Record {
    /// The lines written to the output, and whether it was closed after
    /// them.
    lines: Vec<String>,
    closed: bool,
    /// The namespaces that were added and deleted, in order.
    added: Vec<String>,
    deleted: Vec<String>,
    actions: Vec<Action>,
    exit: Option<i32>,
}

/// Drives a run. Operation number `fail_at` fails, if there is such a
/// number; every other succeeds and finds the namespaces empty. The idle
/// loop hands out `events`, one after the other.
fn drive(prefix: &str, count: usize, fail_at: Option<usize>, events: Vec<Event>) -> Record {
    let mut sup = Supervisor::new(String::from(prefix), count);
    let mut events = events.into_iter();
    let mut record = Record {
        lines: Vec::new(),
        closed: false,
        added: Vec::new(),
        deleted: Vec::new(),
        actions: Vec::new(),
        exit: None,
    };
    let mut performed = 0;
    loop {
        let action = sup.action();
        record.actions.push(action);
        assert!(record.actions.len() < 10_000);
        let feedback = match action {
            Action::Perform(index, op) => {
                match op {
                    Operation::AddNamespace => record.added.push(sup.name(index)),
                    Operation::DeleteNamespace => record.deleted.push(sup.name(index)),
                    _ => {},
                }
                performed += 1;
                if fail_at == Some(performed - 1) {
                    failed()
                } else if op == Operation::ListResidents {
                    Feedback::Outcome(Outcome::Residents(Vec::new()))
                } else {
                    done()
                }
            },
            Action::Announce(index) => {
                assert!(!record.closed);
                record.lines.push(sup.name(index));
                done()
            },
            Action::CloseOutput => {
                assert!(!record.closed);
                record.closed = true;
                done()
            },
            Action::AwaitEvent => Feedback::Event(events.next().expect("an event")),
            Action::Reap(_) => done(),
            Action::Exit(code) => {
                assert_eq!(sup.mode(), Mode::Finished);
                assert_eq!(sup.exit_code(), code);
                record.exit = Some(code);
                let failure = sup.into_failure();
                assert_eq!(failure.is_some(), code != 0);
                return record;
            },
        };
        sup.advance(feedback);
    }
}

fn names(list: &[&str]) -> Vec<String> {
    list.iter().map(|s| String::from(*s)).collect()
}

#[test]
fn three_namespaces_are_announced_and_torn_down_in_reverse() {
    let r = drive("x", 3, None, vec![Event::StdinClosed]);
    assert_eq!(r.lines, names(&["x_ns0", "x_ns1", "x_ns2"]));
    assert!(r.closed);
    assert_eq!(r.added, names(&["x_ns0", "x_ns1", "x_ns2"]));
    assert_eq!(r.deleted, names(&["x_ns2", "x_ns1", "x_ns0"]));
    assert_eq!(r.exit, Some(0));
}

#[test]
fn whole_run_of_one_namespace_step_by_step() {
    let r = drive("x", 1, None, vec![Event::StdinClosed]);
    assert_eq!(
        r.actions,
        vec![
            Action::Perform(0, Operation::MakeConfDir),
            Action::Perform(0, Operation::AddNamespace),
            Action::Perform(0, Operation::LoopbackUp),
            Action::Announce(0),
            Action::CloseOutput,
            Action::AwaitEvent,
            Action::Perform(0, Operation::ListResidents),
            Action::Perform(0, Operation::LoopbackDown),
            Action::Perform(0, Operation::DeleteNamespace),
            Action::Perform(0, Operation::RemoveConfDir),
            Action::Exit(0),
        ]
    );
}

#[test]
fn output_is_closed_right_after_the_last_line() {
    let r = drive("x", 2, None, vec![Event::StdinClosed]);
    let close = r.actions.iter().position(|a| *a == Action::CloseOutput).unwrap();
    assert_eq!(r.actions[close - 1], Action::Announce(1));
    assert_eq!(r.actions[close + 1], Action::AwaitEvent);
    assert_eq!(r.actions.iter().filter(|a| **a == Action::CloseOutput).count(), 1);
}

#[test]
fn terminating_signal_unwinds_and_exits_in_good_order() {
    let term = Signal::SIGTERM as i32;
    let r = drive("x", 2, None, vec![Event::TermSignal(term)]);
    assert_eq!(r.deleted, names(&["x_ns1", "x_ns0"]));
    assert_eq!(r.exit, Some(0));
}

#[test]
fn exited_child_is_reaped_and_the_run_goes_on() {
    let events = vec![Event::ChildExit(77), Event::ChildExit(78), Event::StdinClosed];
    let r = drive("x", 1, None, events);
    let reaps: Vec<&Action> =
        r.actions.iter().filter(|a| matches!(a, Action::Reap(_))).collect();
    assert_eq!(reaps, vec![&Action::Reap(77), &Action::Reap(78)]);
    let first = r.actions.iter().position(|a| *a == Action::Reap(77)).unwrap();
    assert_eq!(r.actions[first - 1], Action::AwaitEvent);
    assert_eq!(r.actions[first + 1], Action::AwaitEvent);
    assert_eq!(r.deleted, names(&["x_ns0"]));
    assert_eq!(r.exit, Some(0));
}

#[test]
fn failed_interface_of_the_second_namespace_undoes_it_and_unwinds_the_first() {
    // Operations 0 to 2 create x_ns0; 3 to 5 are to create x_ns1.
    let r = drive("x", 3, Some(5), vec![]);
    assert_eq!(r.lines, names(&["x_ns0"]));
    assert!(!r.closed);
    assert_eq!(r.added, names(&["x_ns0", "x_ns1"]));
    assert_eq!(r.deleted, names(&["x_ns1", "x_ns0"]));
    assert_eq!(r.exit, Some(1));
    assert!(!r.actions.contains(&Action::AwaitEvent));
    assert!(!r.actions.contains(&Action::Announce(1)));
    let tail: Vec<Action> = r.actions[7..].to_vec();
    assert_eq!(
        tail,
        vec![
            Action::Perform(1, Operation::DeleteNamespace),
            Action::Perform(1, Operation::RemoveConfDir),
            Action::Perform(0, Operation::ListResidents),
            Action::Perform(0, Operation::LoopbackDown),
            Action::Perform(0, Operation::DeleteNamespace),
            Action::Perform(0, Operation::RemoveConfDir),
            Action::Exit(1),
        ]
    );
}

#[test]
fn failure_of_the_very_first_step_leaves_nothing_behind() {
    let r = drive("x", 3, Some(0), vec![]);
    assert_eq!(
        r.actions,
        vec![Action::Perform(0, Operation::MakeConfDir), Action::Exit(1)]
    );
    assert!(r.lines.is_empty());
}

#[test]
fn teardown_is_the_reverse_of_creation_wherever_setup_fails() {
    for count in 0..5usize {
        for fail_at in 0..(3 * count) {
            let r = drive("n", count, Some(fail_at), vec![]);
            let created = fail_at / 3;
            let expected: Vec<String> = (0..created).map(|i| format!("n_ns{}", i)).collect();
            assert_eq!(r.lines, expected);
            let mut owned_then_deleted: Vec<String> =
                r.deleted.iter().filter(|n| expected.contains(n)).cloned().collect();
            owned_then_deleted.reverse();
            assert_eq!(owned_then_deleted, expected);
            assert_eq!(r.exit, Some(1));
            assert!(!r.closed);
        }
        let r = drive("n", count, None, vec![Event::StdinClosed]);
        let expected: Vec<String> = (0..count).map(|i| format!("n_ns{}", i)).collect();
        assert_eq!(r.lines, expected);
        assert_eq!(r.added, expected);
        let mut deleted = r.deleted.clone();
        deleted.reverse();
        assert_eq!(deleted, expected);
        assert_eq!(r.exit, Some(0));
    }
}

#[test]
fn failures_during_teardown_do_not_change_the_exit_code() {
    // Operations 0 to 2 create the namespace; 3 is the enumeration, 4 to 6
    // the removal.
    for fail_at in 3..7 {
        let r = drive("x", 1, Some(fail_at), vec![Event::StdinClosed]);
        assert_eq!(r.deleted, names(&["x_ns0"]));
        assert_eq!(*r.actions.last().unwrap(), Action::Exit(0));
        assert_eq!(r.actions.len(), 11);
    }
}

#[test]
fn failure_to_announce_ends_the_setup() {
    let mut sup = Supervisor::new(String::from("x"), 2);
    sup.advance(done());
    sup.advance(done());
    sup.advance(done());
    assert_eq!(sup.action(), Action::Announce(0));
    sup.advance(failed());
    assert_eq!(sup.mode(), Mode::Unwinding);
    assert_eq!(sup.action(), Action::Perform(0, Operation::ListResidents));
    assert_eq!(sup.exit_code(), 1);
}

#[test]
fn failure_to_close_the_output_ends_the_setup() {
    let mut sup = Supervisor::new(String::from("x"), 1);
    for _ in 0..4 {
        sup.advance(done());
    }
    assert_eq!(sup.action(), Action::CloseOutput);
    sup.advance(failed());
    assert_eq!(sup.mode(), Mode::Unwinding);
    assert_eq!(sup.exit_code(), 1);
}

#[test]
fn no_namespaces_means_nothing_to_do() {
    let r = drive("x", 0, None, vec![Event::StdinClosed]);
    assert_eq!(r.actions, vec![Action::CloseOutput, Action::AwaitEvent, Action::Exit(0)]);
    assert!(r.lines.is_empty());
}

#[test]
fn feedback_of_the_wrong_kind_changes_nothing() {
    let mut sup = Supervisor::new(String::from("x"), 1);
    assert!(sup.advance(Feedback::Event(Event::StdinClosed)).is_none());
    assert_eq!(sup.action(), Action::Perform(0, Operation::MakeConfDir));
    for _ in 0..5 {
        sup.advance(done());
    }
    assert_eq!(sup.action(), Action::AwaitEvent);
    assert!(sup.advance(failed()).is_none());
    assert_eq!(sup.action(), Action::AwaitEvent);
    assert_eq!(sup.mode(), Mode::Serving);
}

#[test]
fn failed_reaping_is_logged() {
    let mut sup = Supervisor::new(String::from("x"), 0);
    sup.advance(done());
    sup.advance(Feedback::Event(Event::ChildExit(5)));
    assert_eq!(sup.action(), Action::Reap(5));
    assert!(sup.advance(failed()).is_some());
    assert_eq!(sup.action(), Action::AwaitEvent);
}

#[test]
fn error_comes_out_only_when_the_run_is_finished() {
    let mut sup = Supervisor::new(String::from("x"), 1);
    sup.advance(done());
    sup.advance(failed());
    assert_eq!(sup.mode(), Mode::Setup);
    assert_eq!(sup.action(), Action::Perform(0, Operation::RemoveConfDir));
    assert!(sup.into_failure().is_none());
}

#[test]
fn end_of_input_is_noted_in_a_verbose_run() {
    assert_eq!(note(Event::StdinClosed, true), Some(String::from("# stdin closed, exiting")));
    assert_eq!(note(Event::StdinClosed, false), None);
}

#[test]
fn terminating_signal_is_noted_by_name() {
    let term = Signal::SIGTERM as i32;
    assert_eq!(note(Event::TermSignal(term), true), Some(String::from("# SIGTERM, exiting")));
    assert_eq!(note(Event::TermSignal(term), false), None);
    assert_eq!(note(Event::TermSignal(250), true), Some(String::from("# signal 250, exiting")));
}

#[test]
fn exited_child_is_not_noted() {
    assert_eq!(note(Event::ChildExit(5), true), None);
    assert_eq!(note(Event::ChildExit(5), false), None);
}

#[test]
fn note_uses_the_name_it_is_given() {
    assert_eq!(
        note_with(Event::TermSignal(1), Some(String::from("SIGX"))),
        Some(String::from("# SIGX, exiting"))
    );
    assert_eq!(note_with(Event::TermSignal(1), None), Some(String::from("# signal 1, exiting")));
    assert_eq!(
        note_with(Event::StdinClosed, Some(String::from("SIGX"))),
        Some(String::from("# stdin closed, exiting"))
    );
    assert_eq!(note_with(Event::ChildExit(1), None), None);
}

/// The idle loop as the driver runs it, over a channel that holds
/// `signals` and an input that stays quiet and open.
fn await_event(lp: &mut IdleLoop, signals: &mut Vec<i32>) -> Event {
    loop {
        let reply = match lp.request() {
            Request::Wait { watch_input } => {
                assert!(watch_input);
                assert!(!signals.is_empty(), "the loop would wait for ever");
                Reply::Ready { signal: true, input: false }
            },
            Request::DrainInput => Reply::Input(InputStatus::Drained),
            Request::ReadSignal => {
                if signals.is_empty() {
                    Reply::Signal(None)
                } else {
                    Reply::Signal(Some(signals.remove(0)))
                }
            },
            Request::QueryChild => Reply::Child(None),
        };
        if let Some(event) = lp.next_event(reply) {
            return event;
        }
    }
}

#[test]
fn signal_in_the_middle_of_the_wait_ends_the_run_in_good_order() {
    let mut sup = Supervisor::new(String::from("x"), 2);
    let mut lp = IdleLoop::new(3);
    let mut signals = vec![Signal::SIGCHLD as i32, Signal::SIGTERM as i32];
    let mut deleted = Vec::new();
    let mut events = Vec::new();
    let code = loop {
        let feedback = match sup.action() {
            Action::Perform(index, op) => {
                if op == Operation::DeleteNamespace {
                    deleted.push(sup.name(index));
                }
                if op == Operation::ListResidents {
                    Feedback::Outcome(Outcome::Residents(Vec::new()))
                } else {
                    done()
                }
            },
            Action::AwaitEvent => {
                let event = await_event(&mut lp, &mut signals);
                events.push(event);
                Feedback::Event(event)
            },
            Action::Exit(code) => break code,
            _ => done(),
        };
        sup.advance(feedback);
    };
    assert_eq!(events, vec![Event::TermSignal(Signal::SIGTERM as i32)]);
    assert_eq!(deleted, names(&["x_ns1", "x_ns0"]));
    assert_eq!(code, 0);
}

#[test]
fn failed_kill_during_teardown_is_not_logged() {
    let mut sup = Supervisor::new(String::from("x"), 1);
    for _ in 0..5 {
        sup.advance(done());
    }
    sup.advance(Feedback::Event(Event::StdinClosed));
    assert_eq!(sup.action(), Action::Perform(0, Operation::ListResidents));
    sup.advance(Feedback::Outcome(Outcome::Residents(vec![31])));
    assert_eq!(sup.action(), Action::Perform(0, Operation::Terminate(31)));
    assert!(sup.advance(failed()).is_none());
    assert_eq!(sup.action(), Action::Perform(0, Operation::Grace));
    sup.advance(done());
    sup.advance(Feedback::Outcome(Outcome::Residents(vec![31])));
    assert_eq!(sup.action(), Action::Perform(0, Operation::Kill(31)));
    assert!(sup.advance(failed()).is_none());
    assert_eq!(sup.action(), Action::Perform(0, Operation::LoopbackDown));
    assert_eq!(sup.exit_code(), 0);
}
