use nix::sys::signal::Signal;
use openvpn_netns_tools::signals::{
    deserialize_signal, next_signal, serialize_signal, sigset_normal_termination,
    try_deserialize_signal, TokenRead,
};

/// Whether the default action of a signal is to end the process without a
/// core dump, or the signal is the one that tells of a child's exit.
fn is_blocked(sig: Signal) -> bool {
    matches!(
        sig,
        Signal::SIGHUP
            | Signal::SIGINT
            | Signal::SIGPIPE
            | Signal::SIGALRM
            | Signal::SIGTERM
            | Signal::SIGUSR1
            | Signal::SIGUSR2
            | Signal::SIGSTKFLT
            | Signal::SIGVTALRM
            | Signal::SIGPROF
            | Signal::SIGIO
            | Signal::SIGPWR
            | Signal::SIGCHLD
    )
}

#[test]
fn blocked_set_holds_the_terminating_signals() {
    let set = sigset_normal_termination();
    assert!(set.contains(Signal::SIGHUP));
    assert!(set.contains(Signal::SIGINT));
    assert!(set.contains(Signal::SIGPIPE));
    assert!(set.contains(Signal::SIGALRM));
    assert!(set.contains(Signal::SIGTERM));
    assert!(set.contains(Signal::SIGUSR1));
    assert!(set.contains(Signal::SIGUSR2));
    assert!(set.contains(Signal::SIGSTKFLT));
    assert!(set.contains(Signal::SIGVTALRM));
    assert!(set.contains(Signal::SIGPROF));
    assert!(set.contains(Signal::SIGIO));
    assert!(set.contains(Signal::SIGPWR));
}

#[test]
fn blocked_set_holds_the_child_signal() {
    assert!(sigset_normal_termination().contains(Signal::SIGCHLD));
}

#[test]
fn blocked_set_leaves_out_what_cannot_be_caught() {
    let set = sigset_normal_termination();
    assert!(!set.contains(Signal::SIGKILL));
    assert!(!set.contains(Signal::SIGSTOP));
}

#[test]
fn blocked_set_leaves_out_what_suspends_or_resumes() {
    let set = sigset_normal_termination();
    assert!(!set.contains(Signal::SIGTSTP));
    assert!(!set.contains(Signal::SIGTTIN));
    assert!(!set.contains(Signal::SIGTTOU));
    assert!(!set.contains(Signal::SIGCONT));
}

#[test]
fn blocked_set_leaves_out_what_is_ignored() {
    let set = sigset_normal_termination();
    assert!(!set.contains(Signal::SIGURG));
    assert!(!set.contains(Signal::SIGWINCH));
}

#[test]
fn blocked_set_leaves_out_crashes_and_aborts() {
    let set = sigset_normal_termination();
    assert!(!set.contains(Signal::SIGABRT));
    assert!(!set.contains(Signal::SIGBUS));
    assert!(!set.contains(Signal::SIGFPE));
    assert!(!set.contains(Signal::SIGILL));
    assert!(!set.contains(Signal::SIGQUIT));
    assert!(!set.contains(Signal::SIGSEGV));
    assert!(!set.contains(Signal::SIGSYS));
    assert!(!set.contains(Signal::SIGTRAP));
}

#[test]
fn blocked_set_leaves_out_what_dumps_core_on_a_limit() {
    let set = sigset_normal_termination();
    assert!(!set.contains(Signal::SIGXCPU));
    assert!(!set.contains(Signal::SIGXFSZ));
}

#[test]
fn blocked_set_is_the_terminating_signals_and_the_child_signal() {
    let set = sigset_normal_termination();
    let mut members = 0;
    for sig in Signal::iterator() {
        assert_eq!(set.contains(sig), is_blocked(sig), "{:?}", sig);
        if set.contains(sig) {
            members += 1;
        }
    }
    assert_eq!(members, 13);
}

#[test]
fn signal_token_is_its_number() {
    assert_eq!(serialize_signal(Signal::SIGTERM as i32), Signal::SIGTERM as u8);
    assert_eq!(serialize_signal(1), 1);
    assert_eq!(serialize_signal(255), 255);
    assert_eq!(deserialize_signal(Signal::SIGHUP as u8), Signal::SIGHUP as i32);
}

#[test]
fn signal_survives_the_channel() {
    for sig in Signal::iterator() {
        let token = serialize_signal(sig as i32);
        assert_eq!(deserialize_signal(token), sig as i32);
        assert_eq!(try_deserialize_signal(token), Some(sig as i32));
    }
}

#[test]
fn token_that_is_no_signal_is_refused() {
    assert_eq!(try_deserialize_signal(0), None);
    assert_eq!(try_deserialize_signal(200), None);
    assert_eq!(try_deserialize_signal(255), None);
}

#[test]
fn next_signal_reads_nothing_from_an_idle_channel() {
    assert_eq!(next_signal(TokenRead::WouldBlock), Ok(None));
    assert_eq!(next_signal(TokenRead::Empty), Ok(None));
}

#[test]
fn next_signal_reads_the_queued_signal() {
    let term = Signal::SIGTERM as i32;
    assert_eq!(next_signal(TokenRead::Token(term as u8)), Ok(Some(term)));
    let chld = Signal::SIGCHLD as i32;
    assert_eq!(next_signal(TokenRead::Token(chld as u8)), Ok(Some(chld)));
}

#[test]
fn next_signal_hands_back_a_token_that_is_no_signal() {
    assert_eq!(next_signal(TokenRead::Token(0)), Err(0));
    assert_eq!(next_signal(TokenRead::Token(250)), Err(250));
}
