//! Forwarded ports: how they are written, checked, started and shown.

use zed_ios::connect_form::{
    format_port_forwards, parse_port_forward_spec, parse_port_forwards, parse_ssh_args,
};
use zed_ios::port_forward_manager::{
    forward_target, forward_targets, validate_forwards, ForwardAction, ForwardError,
    PortForwardManager, PortForwardState,
};
use zed_ios::ssh_port_forward::SshPortForwardOption;

fn forward(local_port: u16, remote_port: u16) -> SshPortForwardOption {
    SshPortForwardOption {
        local_host: None,
        local_port,
        remote_host: Some("localhost".to_string()),
        remote_port,
    }
}

#[test]
fn validate_forwards_rejects_duplicate_local_ports() {
    let forwards = vec![forward(8080, 8080), forward(8080, 3000)];
    let error =
        validate_forwards(&forwards, &[None, None]).expect_err("expected duplicate local port error");
    assert!(error.message().contains("configured more than once"));
}

#[test]
fn validate_forwards_accepts_distinct_local_ports() {
    let forwards = vec![forward(38080, 8080), forward(39090, 9090)];
    let validated = validate_forwards(&forwards, &[None, None]).expect("expected valid forwards");
    assert_eq!(validated, forwards);
}

#[test]
fn ports_that_are_taken_are_refused() {
    let forwards = vec![forward(1, 1), forward(2, 2)];
    let error = validate_forwards(&forwards, &[None, Some("in use".into())]).unwrap_err();
    assert_eq!(error, ForwardError::Unavailable(2, "in use".into()));
    assert_eq!(error.message(), "Local port 2 is unavailable");
    assert_eq!(error.details(), "Local port 2 is unavailable: in use");
    assert_eq!(
        ForwardError::Duplicate(7).details(),
        "Local port 7 is configured more than once"
    );
}

#[test]
fn forwards_read_back_as_they_were_written() {
    let list = parse_port_forwards("3000:3000, host:8080:db:5432").unwrap();
    assert_eq!(list.len(), 2);
    assert_eq!(list[1].local_host.as_deref(), Some("host"));
    assert_eq!(list[1].local_port, 8080);
    assert_eq!(list[1].remote_host.as_deref(), Some("db"));
    assert_eq!(list[1].remote_port, 5432);
    let written = format_port_forwards(&list);
    assert_eq!(parse_port_forwards(&written), Ok(list));
    assert_eq!(parse_port_forwards("  "), Ok(vec![]));
}

#[test]
fn malformed_forwards_are_refused() {
    assert!(parse_port_forward_spec("3000").is_err());
    assert!(parse_port_forward_spec("a:b").is_err());
    assert!(parse_port_forward_spec("1:2:3:4:5").is_err());
    assert!(parse_port_forwards("3000:3000, x").is_err());
}

#[test]
fn ssh_args_are_the_words_of_the_line() {
    assert_eq!(parse_ssh_args("  ", None), Ok(vec![]));
    assert_eq!(
        parse_ssh_args("-i key", Some(vec!["-i".into(), "key".into()])),
        Ok(vec!["-i".to_string(), "key".to_string()])
    );
    assert!(parse_ssh_args("-i 'key", None).is_err());
}

#[test]
fn targets_have_hosts() {
    let target = forward_target(&SshPortForwardOption {
        local_host: None,
        local_port: 1,
        remote_host: None,
        remote_port: 2,
    });
    assert_eq!(target.local_host, "127.0.0.1");
    assert_eq!(target.remote_host, "localhost");
    assert_eq!(forward_targets(&[forward(1, 2), forward(3, 4)])[1].remote_port, 4);
}

#[test]
fn ports_are_started_suspended_and_taken_up_again() {
    let mut manager = PortForwardManager::new(Some(3), vec![forward(1, 2)]);
    assert!(manager.has_forwards());
    assert_eq!(manager.restart(), ForwardAction::Start);
    assert_eq!(manager.statuses()[0].message.as_deref(), Some("Applying..."));
    assert_eq!(manager.finish_apply(None), Some(3));
    assert_eq!(manager.statuses()[0].state, PortForwardState::Active);
    assert_eq!(manager.set_suspended(true), ForwardAction::Stop);
    assert_eq!(manager.statuses()[0].state, PortForwardState::Pending);
    assert_eq!(
        manager.statuses()[0].message.as_deref(),
        Some("Paused while app is backgrounded")
    );
    assert_eq!(manager.set_suspended(true), ForwardAction::Nothing);
    assert_eq!(manager.set_suspended(false), ForwardAction::Start);
    assert_eq!(manager.finish_apply(Some("no".into())), None);
    assert_eq!(manager.last_error(), Some("no"));
    assert_eq!(manager.statuses()[0].state, PortForwardState::Failed);
    assert_eq!(manager.apply_forwards(vec![]), ForwardAction::Stop);
    assert!(!manager.is_suspended());
    assert_eq!(manager.last_error(), None);
}

#[test]
fn refused_ports_are_not_started() {
    let wanted = vec![forward(1, 1), forward(2, 2)];
    let mut manager = PortForwardManager::new(Some(3), vec![]);
    assert_eq!(manager.apply_forwards(wanted.clone()), ForwardAction::Start);
    assert_eq!(manager.start_forwards(&wanted, &[None, Some("in use".into())]), None);
    assert_eq!(manager.last_error(), Some("Local port 2 is unavailable: in use"));
    for status in manager.statuses() {
        assert_eq!(status.state, PortForwardState::Failed);
        assert_eq!(
            status.message.as_deref(),
            Some("Local port 2 is unavailable: in use")
        );
    }
    assert_eq!(manager.restart(), ForwardAction::Start);
    let targets = manager.start_forwards(&wanted, &[None, None]).unwrap();
    assert_eq!(targets, forward_targets(&wanted));
    assert_eq!(manager.statuses()[1].state, PortForwardState::Pending);
}
