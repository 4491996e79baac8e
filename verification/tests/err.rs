use nix::errno::Errno;
use openvpn_netns_tools::err::{
    check_child_status, map_io_err, map_nix_err, map_pi_err, map_unsuc_child, map_utf8_err,
    unsuccessful_child, ChildStatus, HLError,
};
use std::io;

fn parse_error() -> std::num::ParseIntError {
    "x1".parse::<i32>().unwrap_err()
}

fn utf8_error() -> std::str::Utf8Error {
    let bytes: Vec<u8> = vec![0x61, 0xff];
    std::str::from_utf8(&bytes).unwrap_err()
}

fn status_and_cmdline(e: HLError) -> (String, String) {
    match e {
        HLError::UnsuccessfulChild { status, cmdline } => (status, cmdline),
        other => panic!("not an unsuccessful child: {:?}", other),
    }
}

#[test]
fn child_that_exits_with_a_code_is_described_by_it() {
    let e = map_unsuc_child(&ChildStatus::Exited(3), &["ip", "netns", "add", "x_ns0"]);
    let (status, cmdline) = status_and_cmdline(e);
    assert_eq!(status, "exited unsuccessfully (code 3)");
    assert_eq!(cmdline, "ip netns add x_ns0");
}

#[test]
fn child_with_a_negative_code_is_described_by_it() {
    let e = map_unsuc_child(&ChildStatus::Exited(-1), &["false"]);
    let (status, cmdline) = status_and_cmdline(e);
    assert_eq!(status, "exited unsuccessfully (code -1)");
    assert_eq!(cmdline, "false");
}

#[test]
fn child_killed_by_a_signal_is_described_by_its_name() {
    let term = nix::sys::signal::Signal::SIGTERM as i32;
    let e = map_unsuc_child(&ChildStatus::Signaled(term), &["sleep", "100"]);
    let (status, cmdline) = status_and_cmdline(e);
    assert_eq!(status, "killed by SIGTERM");
    assert_eq!(cmdline, "sleep 100");
}

#[test]
fn child_killed_by_sigkill_is_described_by_its_name() {
    let kill = nix::sys::signal::Signal::SIGKILL as i32;
    let e = map_unsuc_child(&ChildStatus::Signaled(kill), &["sleep"]);
    assert_eq!(status_and_cmdline(e).0, "killed by SIGKILL");
}

#[test]
fn child_killed_by_an_unknown_signal_is_described_by_its_number() {
    let e = map_unsuc_child(&ChildStatus::Signaled(200), &["sleep"]);
    assert_eq!(status_and_cmdline(e).0, "killed by signal 200");
}

#[test]
fn unsuccessful_child_uses_the_name_it_is_given() {
    let e = unsuccessful_child(
        &ChildStatus::Signaled(9),
        Some(String::from("SIGWHATEVER")),
        &["a", "b"],
    );
    let (status, cmdline) = status_and_cmdline(e);
    assert_eq!(status, "killed by SIGWHATEVER");
    assert_eq!(cmdline, "a b");
    let e = unsuccessful_child(&ChildStatus::Signaled(9), None, &["a"]);
    assert_eq!(status_and_cmdline(e).0, "killed by signal 9");
    let e = unsuccessful_child(&ChildStatus::Exited(2), Some(String::from("SIGINT")), &["a"]);
    assert_eq!(status_and_cmdline(e).0, "exited unsuccessfully (code 2)");
}

#[test]
fn only_exit_code_zero_is_success() {
    assert!(ChildStatus::Exited(0).success());
    assert!(!ChildStatus::Exited(1).success());
    assert!(!ChildStatus::Exited(255).success());
    assert!(!ChildStatus::Signaled(0).success());
    assert!(!ChildStatus::Signaled(15).success());
}

#[test]
fn check_child_status_accepts_success() {
    assert!(check_child_status(&["true"], &ChildStatus::Exited(0)).is_ok());
}

#[test]
fn check_child_status_reports_failure() {
    let e = check_child_status(&["ip", "link"], &ChildStatus::Exited(1)).unwrap_err();
    let (status, cmdline) = status_and_cmdline(e);
    assert_eq!(status, "exited unsuccessfully (code 1)");
    assert_eq!(cmdline, "ip link");
    let e = check_child_status(&["ip"], &ChildStatus::Signaled(2)).unwrap_err();
    assert_eq!(status_and_cmdline(e).0, "killed by SIGINT");
}

#[test]
fn io_error_keeps_cause_and_detail() {
    let e = map_io_err(io::Error::new(io::ErrorKind::Other, "boom"), String::from("spawn ip"));
    match &e {
        HLError::IOError { cause, detail } => {
            assert_eq!(cause.kind(), io::ErrorKind::Other);
            assert_eq!(detail, "spawn ip");
        },
        other => panic!("wrong kind: {:?}", other),
    }
    assert_eq!(e.message(), "spawn ip: boom.");
    assert_eq!(e.description(), "I/O error");
    assert!(e.has_cause());
    assert_eq!(e.cause_text(), "boom");
}

#[test]
fn nix_error_keeps_cause_and_detail() {
    let e = map_nix_err(Errno::ENOENT, String::from("pipe"));
    match &e {
        HLError::NixError { cause, detail } => {
            assert_eq!(*cause, Errno::ENOENT);
            assert_eq!(detail, "pipe");
        },
        other => panic!("wrong kind: {:?}", other),
    }
    assert_eq!(e.message(), format!("pipe: {}.", Errno::ENOENT));
    assert_eq!(e.description(), "System error");
    assert!(e.has_cause());
}

#[test]
fn parse_error_keeps_cause_and_detail() {
    let e = map_pi_err(parse_error(), String::from("expected process id"));
    match &e {
        HLError::PIError { cause, detail } => {
            assert_eq!(*cause, parse_error());
            assert_eq!(detail, "expected process id");
        },
        other => panic!("wrong kind: {:?}", other),
    }
    assert_eq!(
        e.message(),
        "Invalid integer expected process id: invalid digit found in string."
    );
    assert_eq!(e.description(), "Invalid integer");
    assert!(e.has_cause());
}

#[test]
fn utf8_error_keeps_cause_and_detail() {
    let e = map_utf8_err(utf8_error(), String::from("[97, 255]"));
    match &e {
        HLError::UTF8Error { cause, detail } => {
            assert_eq!(*cause, utf8_error());
            assert_eq!(detail, "[97, 255]");
        },
        other => panic!("wrong kind: {:?}", other),
    }
    assert_eq!(e.message(), format!("Invalid UTF-8 in [97, 255]: {}.", utf8_error()));
    assert_eq!(e.description(), "Invalid UTF-8 text");
    assert!(e.has_cause());
}

#[test]
fn unsuccessful_child_message_names_command_and_status() {
    let e = map_unsuc_child(&ChildStatus::Exited(2), &["ip", "netns", "del", "x_ns1"]);
    assert_eq!(
        e.message(),
        "Child process 'ip netns del x_ns1' exited unsuccessfully (code 2)."
    );
    assert_eq!(e.description(), "Child process failed");
    assert!(!e.has_cause());
    assert_eq!(e.cause_text(), "");
}

#[test]
fn diagnostic_uses_the_cause_text_it_is_given() {
    let e = map_io_err(io::Error::new(io::ErrorKind::Other, "boom"), String::from("stdin"));
    assert_eq!(e.diagnostic_with("no luck"), "stdin: no luck.");
    let e = map_pi_err(parse_error(), String::from("pid"));
    assert_eq!(e.diagnostic_with("bad"), "Invalid integer pid: bad.");
    let e = map_utf8_err(utf8_error(), String::from("output"));
    assert_eq!(e.diagnostic_with("bad"), "Invalid UTF-8 in output: bad.");
    let e = map_nix_err(Errno::EAGAIN, String::from("read"));
    assert_eq!(e.diagnostic_with("again"), "read: again.");
    let e = map_unsuc_child(&ChildStatus::Exited(1), &["x"]);
    assert_eq!(e.diagnostic_with("ignored"), "Child process 'x' exited unsuccessfully (code 1).");
}
