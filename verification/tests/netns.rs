use openvpn_netns_tools::err::{map_unsuc_child, ChildStatus, HLError};
use openvpn_netns_tools::netns::{
    command, conf_dir, netns_name, NetNs, Operation, Outcome, Phase, GRACE_SECONDS,
};

fn failure() -> Outcome {
    Outcome::Failed(map_unsuc_child(&ChildStatus::Exited(1), &["ip"]))
}

fn owned(name: &str) -> NetNs {
    let mut ns = NetNs::new(String::from(name));
    while ns.pending().is_some() {
        assert!(ns.completed(Outcome::Done).is_none());
    }
    assert!(ns.is_owned());
    ns
}

/// Performs what is pending, with success, until the namespace is at rest.
fn work_off(ns: &mut NetNs) -> Vec<Operation> {
    let mut ops = Vec::new();
    while let Some(op) = ns.pending() {
        ops.push(op);
        ns.completed(Outcome::Done);
        assert!(ops.len() < 100);
    }
    ops
}

#[test]
fn grace_interval_is_five_seconds() {
    assert_eq!(GRACE_SECONDS, 5);
}

#[test]
fn namespace_names_are_prefix_and_number() {
    assert_eq!(netns_name("x", 0), "x_ns0");
    assert_eq!(netns_name("x", 1), "x_ns1");
    assert_eq!(netns_name("x", 2), "x_ns2");
    assert_eq!(netns_name("vpn", 12), "vpn_ns12");
    assert_eq!(netns_name("", 1023), "_ns1023");
}

#[test]
fn configuration_directory_is_under_etc_netns() {
    assert_eq!(conf_dir("x_ns0"), "/etc/netns/x_ns0");
}

#[test]
fn commands_of_the_namespace_tool() {
    assert_eq!(
        command(Operation::AddNamespace, "x_ns0").unwrap(),
        vec!["ip", "netns", "add", "x_ns0"]
    );
    assert_eq!(
        command(Operation::DeleteNamespace, "x_ns0").unwrap(),
        vec!["ip", "netns", "del", "x_ns0"]
    );
    assert_eq!(
        command(Operation::ListResidents, "x_ns0").unwrap(),
        vec!["ip", "netns", "pids", "x_ns0"]
    );
    assert_eq!(
        command(Operation::LoopbackUp, "x_ns0").unwrap(),
        vec!["ip", "netns", "exec", "x_ns0", "ip", "link", "set", "dev", "lo", "up"]
    );
    assert_eq!(
        command(Operation::LoopbackDown, "x_ns0").unwrap(),
        vec!["ip", "netns", "exec", "x_ns0", "ip", "link", "set", "dev", "lo", "down"]
    );
}

#[test]
fn other_operations_are_no_commands() {
    assert!(command(Operation::MakeConfDir, "x").is_none());
    assert!(command(Operation::RemoveConfDir, "x").is_none());
    assert!(command(Operation::Terminate(1), "x").is_none());
    assert!(command(Operation::Kill(1), "x").is_none());
    assert!(command(Operation::Grace, "x").is_none());
}

#[test]
fn creation_takes_three_steps_in_order() {
    let mut ns = NetNs::new(String::from("x_ns0"));
    assert_eq!(ns.name(), "x_ns0");
    assert_eq!(ns.phase(), Phase::Creating);
    assert_eq!(ns.pending(), Some(Operation::MakeConfDir));
    assert!(ns.completed(Outcome::Done).is_none());
    assert!(!ns.is_owned());
    assert_eq!(ns.pending(), Some(Operation::AddNamespace));
    assert!(ns.completed(Outcome::Done).is_none());
    assert!(!ns.is_owned());
    assert_eq!(ns.pending(), Some(Operation::LoopbackUp));
    assert!(ns.completed(Outcome::Done).is_none());
    assert!(ns.is_owned());
    assert_eq!(ns.phase(), Phase::Owned);
    assert_eq!(ns.pending(), None);
    assert!(ns.take_failure().is_none());
}

#[test]
fn failed_directory_leaves_nothing_to_undo() {
    let mut ns = NetNs::new(String::from("x_ns0"));
    assert!(ns.completed(failure()).is_none());
    assert_eq!(ns.phase(), Phase::Failed);
    assert_eq!(ns.pending(), None);
    assert!(matches!(ns.take_failure(), Some(HLError::UnsuccessfulChild { .. })));
    assert!(ns.take_failure().is_none());
}

#[test]
fn failed_namespace_creation_removes_the_directory() {
    let mut ns = NetNs::new(String::from("x_ns0"));
    ns.completed(Outcome::Done);
    assert!(ns.completed(failure()).is_none());
    assert_eq!(ns.phase(), Phase::Compensating);
    assert!(ns.take_failure().is_none());
    assert_eq!(ns.pending(), Some(Operation::RemoveConfDir));
    assert!(ns.completed(Outcome::Done).is_none());
    assert_eq!(ns.phase(), Phase::Failed);
    assert!(ns.take_failure().is_some());
}

#[test]
fn failed_interface_deletes_the_namespace_before_the_error_comes_out() {
    let mut ns = NetNs::new(String::from("x_ns0"));
    ns.completed(Outcome::Done);
    ns.completed(Outcome::Done);
    assert_eq!(ns.pending(), Some(Operation::LoopbackUp));
    assert!(ns.completed(failure()).is_none());
    assert!(!ns.is_owned());
    assert!(ns.take_failure().is_none());
    assert_eq!(ns.pending(), Some(Operation::DeleteNamespace));
    ns.completed(Outcome::Done);
    assert!(!ns.is_owned());
    assert!(ns.take_failure().is_none());
    assert_eq!(ns.pending(), Some(Operation::RemoveConfDir));
    ns.completed(Outcome::Done);
    assert!(!ns.is_owned());
    assert_eq!(ns.phase(), Phase::Failed);
    assert_eq!(ns.pending(), None);
    let e = ns.take_failure().unwrap();
    assert_eq!(e.message(), "Child process 'ip' exited unsuccessfully (code 1).");
}

#[test]
fn failures_while_undoing_are_logged_and_do_not_stop_it() {
    let mut ns = NetNs::new(String::from("x_ns0"));
    ns.completed(Outcome::Done);
    ns.completed(Outcome::Done);
    ns.completed(failure());
    assert!(ns.completed(failure()).is_some());
    assert_eq!(ns.pending(), Some(Operation::RemoveConfDir));
    assert!(ns.completed(failure()).is_some());
    assert_eq!(ns.phase(), Phase::Failed);
    assert!(ns.take_failure().is_some());
}

#[test]
fn destroying_a_namespace_that_is_not_owned_does_nothing() {
    let mut ns = NetNs::new(String::from("x_ns0"));
    ns.destroy();
    assert_eq!(ns.phase(), Phase::Creating);
    assert_eq!(ns.pending(), Some(Operation::MakeConfDir));
}

#[test]
fn empty_namespace_is_removed_without_force() {
    let mut ns = owned("x_ns0");
    ns.destroy();
    assert_eq!(ns.phase(), Phase::Destroying);
    assert_eq!(ns.pending(), Some(Operation::ListResidents));
    assert!(ns.completed(Outcome::Residents(vec![])).is_none());
    assert_eq!(
        work_off(&mut ns),
        vec![Operation::LoopbackDown, Operation::DeleteNamespace, Operation::RemoveConfDir]
    );
    assert_eq!(ns.phase(), Phase::Gone);
}

#[test]
fn failed_enumeration_is_logged_and_removal_goes_on() {
    let mut ns = owned("x_ns0");
    ns.destroy();
    assert!(ns.completed(failure()).is_some());
    assert_eq!(
        work_off(&mut ns),
        vec![Operation::LoopbackDown, Operation::DeleteNamespace, Operation::RemoveConfDir]
    );
    assert_eq!(ns.phase(), Phase::Gone);
}

#[test]
fn residents_are_asked_to_terminate_then_killed_after_the_grace_interval() {
    let mut ns = owned("x_ns0");
    ns.destroy();
    assert_eq!(ns.pending(), Some(Operation::ListResidents));
    ns.completed(Outcome::Residents(vec![11, 12, 13]));
    assert_eq!(ns.pending(), Some(Operation::Terminate(11)));
    ns.completed(Outcome::Done);
    assert_eq!(ns.pending(), Some(Operation::Terminate(12)));
    assert!(ns.completed(failure()).is_none());
    assert_eq!(ns.pending(), Some(Operation::Terminate(13)));
    ns.completed(Outcome::Done);
    assert_eq!(ns.pending(), Some(Operation::Grace));
    ns.completed(Outcome::Done);
    assert_eq!(ns.pending(), Some(Operation::ListResidents));
    ns.completed(Outcome::Residents(vec![12, 14]));
    assert_eq!(
        work_off(&mut ns),
        vec![
            Operation::Kill(12),
            Operation::Kill(14),
            Operation::LoopbackDown,
            Operation::DeleteNamespace,
            Operation::RemoveConfDir,
        ]
    );
    assert_eq!(ns.phase(), Phase::Gone);
}

#[test]
fn residents_that_left_in_time_are_not_killed() {
    let mut ns = owned("x_ns0");
    ns.destroy();
    ns.completed(Outcome::Residents(vec![11]));
    assert_eq!(ns.pending(), Some(Operation::Terminate(11)));
    ns.completed(Outcome::Done);
    assert_eq!(ns.pending(), Some(Operation::Grace));
    ns.completed(Outcome::Done);
    assert_eq!(ns.pending(), Some(Operation::ListResidents));
    ns.completed(Outcome::Residents(vec![]));
    assert_eq!(
        work_off(&mut ns),
        vec![Operation::LoopbackDown, Operation::DeleteNamespace, Operation::RemoveConfDir]
    );
}

#[test]
fn failed_second_enumeration_kills_nobody() {
    let mut ns = owned("x_ns0");
    ns.destroy();
    ns.completed(Outcome::Residents(vec![11]));
    ns.completed(Outcome::Done);
    ns.completed(Outcome::Done);
    assert_eq!(ns.pending(), Some(Operation::ListResidents));
    assert!(ns.completed(failure()).is_some());
    assert_eq!(
        work_off(&mut ns),
        vec![Operation::LoopbackDown, Operation::DeleteNamespace, Operation::RemoveConfDir]
    );
}

#[test]
fn teardown_never_stops_half_way() {
    let mut ns = owned("x_ns0");
    ns.destroy();
    ns.completed(Outcome::Residents(vec![]));
    assert_eq!(ns.pending(), Some(Operation::LoopbackDown));
    assert!(ns.completed(failure()).is_some());
    assert_eq!(ns.pending(), Some(Operation::DeleteNamespace));
    assert!(ns.completed(failure()).is_some());
    assert_eq!(ns.pending(), Some(Operation::RemoveConfDir));
    assert!(ns.completed(failure()).is_some());
    assert_eq!(ns.phase(), Phase::Gone);
    assert_eq!(ns.pending(), None);
}

#[test]
fn namespace_at_rest_takes_no_outcome() {
    let mut ns = owned("x_ns0");
    assert!(ns.completed(failure()).is_none());
    assert!(ns.is_owned());
    assert_eq!(ns.pending(), None);
}

#[test]
fn namespace_is_destroyed_once() {
    let mut ns = owned("x_ns0");
    ns.destroy();
    ns.completed(Outcome::Residents(vec![]));
    work_off(&mut ns);
    assert_eq!(ns.phase(), Phase::Gone);
    ns.destroy();
    assert_eq!(ns.phase(), Phase::Gone);
    assert_eq!(ns.pending(), None);
}

#[test]
fn request_to_terminate_that_fails_is_ignored() {
    let mut ns = owned("x_ns0");
    ns.destroy();
    ns.completed(Outcome::Residents(vec![11]));
    assert_eq!(ns.pending(), Some(Operation::Terminate(11)));
    assert!(ns.completed(failure()).is_none());
    assert_eq!(ns.pending(), Some(Operation::Grace));
    assert!(ns.completed(Outcome::Done).is_none());
    assert_eq!(ns.pending(), Some(Operation::ListResidents));
    assert!(ns.completed(Outcome::Residents(vec![21, 22])).is_none());
    assert_eq!(ns.pending(), Some(Operation::Kill(21)));
    assert!(ns.completed(failure()).is_none());
    assert_eq!(ns.pending(), Some(Operation::Kill(22)));
    assert!(ns.completed(failure()).is_none());
    assert_eq!(
        work_off(&mut ns),
        vec![Operation::LoopbackDown, Operation::DeleteNamespace, Operation::RemoveConfDir]
    );
    assert_eq!(ns.phase(), Phase::Gone);
}

#[test]
fn only_delivery_failures_are_ignored() {
    let mut ns = owned("x_ns0");
    ns.destroy();
    ns.completed(Outcome::Residents(vec![11]));
    assert!(ns.completed(failure()).is_none());
    assert_eq!(ns.pending(), Some(Operation::Grace));
    ns.completed(Outcome::Done);
    ns.completed(Outcome::Residents(vec![11]));
    assert_eq!(ns.pending(), Some(Operation::Kill(11)));
    assert!(ns.completed(failure()).is_none());
    assert_eq!(ns.pending(), Some(Operation::LoopbackDown));
    assert!(ns.completed(failure()).is_some());
}
