//! The screens of the app.

use zed_ios::connect_view::{
    saved_password, toggle_label, ConnectView, ConnectionState, ConnectionSucceeded,
    CredentialAction, StatusTone,
};
use zed_ios::host_key::{HostKeyChallenge, HostKeyDecision};
use zed_ios::mobile_settings::{MobileFeaturePolicy, MobileSettings};
use zed_ios::mobile_workspace_chrome::{
    DockPanel, DockStates, MobileWorkspaceChrome, Tool,
};
use zed_ios::persistence::{AuthMode, ConnectionDb, ConnectionProfileInput, SessionRestoreState};
use zed_ios::port_forward_manager::ForwardAction;
use zed_ios::root_view::{RootView, Screen};
use zed_ios::session_recovery::{
    SessionLifecyclePhase, SessionRecoveryCoordinator, SessionRecoveryState,
};
use zed_ios::ssh_options::{RemoteConnectionOptions, SshConnectionOptions};
use zed_ios::ssh_port_forward::SshPortForwardOption;
use zed_ios::tutorial_view::{TutorialBlock, TutorialDismissed, TutorialView};
use zed_ios::welcome_view::WelcomeView;
use zed_ios::workspace_view::{
    restore_result, ConnectionDetails, LoadTone, WorkspaceLoadState, WorkspaceView,
};

#[test]
fn maps_host_verification_errors_to_actionable_copy() {
    let message = ConnectView::friendly_error_message("known_hosts KeyChanged");
    assert!(message.contains("Host verification failed"));
}

#[test]
fn maps_authentication_errors_to_actionable_copy() {
    let message = ConnectView::friendly_error_message("Permission denied (publickey,password)");
    assert!(message.contains("Authentication failed"));
}

#[test]
fn recovery_status_labels_match_minimal_wrapper_copy() {
    assert_eq!(
        MobileWorkspaceChrome::recovery_status_label(SessionRecoveryState::Healthy),
        "Connected"
    );
    assert_eq!(
        MobileWorkspaceChrome::recovery_status_label(SessionRecoveryState::Reconnecting),
        "Reconnecting"
    );
    assert_eq!(
        MobileWorkspaceChrome::recovery_status_label(
            SessionRecoveryState::ReconnectFailedRetryable
        ),
        "Reconnect failed"
    );
    assert_eq!(
        MobileWorkspaceChrome::recovery_status_label(SessionRecoveryState::ReconnectExhausted),
        "Disconnected"
    );
}

fn filled_view() -> ConnectView {
    let mut view = ConnectView::new(Some(ConnectionDb::open_memory()));
    view.hostname_input.set_text("example.com".into());
    view.username_input.set_text("me".into());
    view.port_input.set_text("2222".into());
    view.remote_path_input.set_text("~/code".into());
    view
}

#[test]
fn form_is_checked_before_connecting() {
    let mut view = ConnectView::new(None);
    assert!(view.validate_input().is_err());
    assert_eq!(view.connect(Some(vec![]), "1.0"), None);
    assert!(matches!(view.state, ConnectionState::Error(_)));
    let view = filled_view();
    assert_eq!(view.validate_input(), Ok(()));
    assert_eq!(view.connection_path(), "~/code");
    let input = view.connection_profile_input(Some(vec![]), "1.0").unwrap();
    assert_eq!(input.hostname, "example.com");
    assert_eq!(input.port, 2222);
}

#[test]
fn successful_connection_is_saved() {
    let mut view = filled_view();
    view.toggle_remember_secret();
    assert!(view.remember_secret);
    let plan = view.connect(Some(vec![]), "1.0").unwrap();
    assert_eq!(plan.credential_store_url, "ssh://me@example.com:2222");
    assert_eq!(plan.options.host, "example.com");
    assert!(view.is_busy());
    assert_eq!(view.connect_label(), "Connecting...");
    view.show_password_prompt("Password:".into());
    assert_eq!(view.password_prompt().as_deref(), Some("Password:"));
    view.password_input.set_text("pw".into());
    assert_eq!(view.submit_password(true).as_deref(), Some("pw"));
    let outcome = view.connected(&plan, 100);
    assert_eq!(outcome.credentials, CredentialAction::Write("pw".into()));
    assert_eq!(outcome.event.connection_profile_id, Some(1));
    assert_eq!(view.state, ConnectionState::Connected);
    let saved = view.db.as_ref().unwrap().connection_profile_by_id(1).unwrap();
    assert_eq!(saved.auth_mode, AuthMode::KeychainSecret);
    assert_eq!(
        view.recent_lines(),
        vec![("me@example.com:2222".to_string(), "~/code".to_string())]
    );
}

#[test]
fn trusted_key_is_noted_and_failure_saves_nothing() {
    let mut view = filled_view();
    let plan = view.connect(Some(vec![]), "1.0").unwrap();
    view.show_host_key_prompt(HostKeyChallenge {
        host: "example.com".into(),
        port: 2222,
        algorithm: "ssh-ed25519".into(),
        fingerprint_sha256: "f".into(),
    });
    assert!(view.visible_parts().host_key_prompt);
    assert_eq!(view.host_key_prompt().unwrap().fingerprint, "SHA-256: f");
    assert_eq!(view.trust_host_key(), Some(HostKeyDecision::TrustAndSave));
    view.connected(&plan, 9);
    let saved = view.db.as_ref().unwrap().connection_profile_by_id(1).unwrap();
    assert_eq!(saved.host_key_fingerprint.as_deref(), Some("f"));

    let mut view = filled_view();
    view.connect(Some(vec![]), "1.0").unwrap();
    view.connection_failed("timed out".into());
    assert_eq!(view.db.as_ref().unwrap().profiles.len(), 0);
    assert_eq!(
        view.status_line(),
        Some((
            "Connection timed out. Verify the host, network, and SSH port.".to_string(),
            StatusTone::Error
        ))
    );
    assert_eq!(view.advanced_options_label(), "Show Advanced SSH Options");
    view.toggle_advanced_options();
    assert_eq!(view.advanced_options_label(), "Hide Advanced SSH Options");
    assert_eq!(toggle_label(true), "On");
    assert_eq!(view.reject_host_key(), None);
}

#[test]
fn saved_password_is_a_text() {
    assert_eq!(saved_password(Some(b"pw".to_vec()), true).as_deref(), Some("pw"));
    assert_eq!(saved_password(Some(vec![0xff]), true), None);
    assert_eq!(saved_password(Some(b"pw".to_vec()), false), None);
    assert_eq!(saved_password(None, true), None);
}

fn db_with_session() -> ConnectionDb {
    let mut db = ConnectionDb::open_memory();
    let profile = db
        .upsert_connection_profile(
            &ConnectionProfileInput {
                hostname: "h".into(),
                username: "u".into(),
                port: 22,
                nickname: Some("Box".into()),
                default_path: Some("~/d".into()),
                port_forwards: vec![SshPortForwardOption {
                    local_host: None,
                    local_port: 3000,
                    remote_host: None,
                    remote_port: 80,
                }],
                ..ConnectionProfileInput::default()
            },
            1,
        )
        .unwrap();
    db.save_session_restore_state(&SessionRestoreState {
        connection_profile_id: profile.id,
        remote_path: Some("~/r".into()),
        last_opened_worktree: Some("~/r".into()),
        workspace_state_json: None,
        updated_at: 2,
    })
    .unwrap();
    db
}

#[test]
fn last_session_is_resumed_once() {
    let mut root = RootView::new(Some(db_with_session()));
    assert_eq!(root.shown_screen(), Screen::Connect);
    assert_eq!(root.connect_view.hostname_input.text(), "h");
    assert!(root.on_window_activation_changed(true, true, 10));
    assert!(!root.on_window_activation_changed(true, true, 11));
    assert!(!root.on_window_activation_changed(false, true, 12));
    assert!(root.on_window_activation_changed(true, true, 13));

    let mut quiet = RootView::new_without_auto_restore(Some(db_with_session()));
    assert!(!quiet.on_window_activation_changed(true, true, 10));
}

fn options() -> RemoteConnectionOptions {
    RemoteConnectionOptions::Ssh(SshConnectionOptions {
        host: "h".into(),
        username: None,
        port: Some(2200),
        password: None,
        args: None,
        port_forwards: None,
        connection_timeout: None,
        nickname: None,
        upload_binary_over_ssh: false,
    })
}

#[test]
fn screens_follow_the_connection() {
    let mut root = RootView::new(None);
    root.show_tutorial();
    assert_eq!(root.shown_screen(), Screen::Tutorial);
    root.hide_tutorial();
    assert_eq!(root.shown_screen(), Screen::Connect);
    let event = ConnectionSucceeded {
        remote_path: Some("~/code".into()),
        connection_profile_id: Some(1),
    };
    let path = root.on_connection_succeeded(event.clone(), &options(), true, true);
    assert_eq!(path.as_deref(), Some("~/code"));
    assert_eq!(root.shown_screen(), Screen::Workspace);
    root.on_disconnect_requested();
    assert_eq!(root.shown_screen(), Screen::Connect);
    assert_eq!(root.on_connection_succeeded(event, &options(), false, true), None);
    assert!(root.has_client);
    assert_eq!(root.shown_screen(), Screen::Connect);
}

#[test]
fn workspace_is_opened_or_fails() {
    let (mut view, path) = WorkspaceView::new(&options(), Some("  ".into()), Some(4), true);
    assert_eq!(path.as_deref(), Some("~"));
    assert_eq!(view.connection_details.host_display(), "unknown@h:2200");
    assert_eq!(view.status_text(), ("Loading...", LoadTone::Warning));
    view.project_failed("gone");
    assert_eq!(view.message(), ("Failed to open project: gone".to_string(), true));
    assert!(view.shows_retry());
    assert_eq!(view.badge(), "!");
    assert_eq!(view.retry_connection(true).as_deref(), Some("~"));
    let opened = view.project_opened(Some("/home/u".into()), 77);
    assert_eq!(view.load_state, WorkspaceLoadState::Ready);
    let restore = opened.restore.unwrap();
    assert_eq!(restore.connection_profile_id, 4);
    assert_eq!(restore.remote_path.as_deref(), Some("/home/u"));
    assert_eq!(restore.updated_at, 77);
    assert_eq!(opened.ready.unwrap().remote_path.as_deref(), Some("/home/u"));
    view.disconnect();
    assert!(!view.has_workspace);
    let (view, path) = WorkspaceView::new(&RemoteConnectionOptions::Other, None, None, false);
    assert_eq!(path, None);
    assert_eq!(
        view.load_state,
        WorkspaceLoadState::Error("Workspace stack not initialized".into())
    );
    assert_eq!(
        ConnectionDetails::from_options(&RemoteConnectionOptions::Other).host_display(),
        "unknown@Remote:0"
    );
}

#[test]
fn only_shared_restoring_can_fail_late() {
    assert_eq!(restore_result(true, Ok(Err("e".into()))), Err("e".to_string()));
    assert_eq!(restore_result(false, Ok(Err("e".into()))), Ok(()));
    assert_eq!(restore_result(false, Err("w".into())), Err("w".to_string()));
    assert_eq!(restore_result(true, Ok(Ok(()))), Ok(()));
}

fn policy() -> MobileFeaturePolicy {
    MobileFeaturePolicy::from_app(&MobileSettings::from_settings(None))
}

#[test]
fn ports_follow_the_session() {
    let db = db_with_session();
    let mut coordinator = Some(SessionRecoveryCoordinator::new());
    let (mut chrome, action, recorded) = MobileWorkspaceChrome::new(
        Some(&db),
        policy(),
        &mut coordinator,
        5,
        Some(1),
        None,
        None,
    );
    assert_eq!(action, ForwardAction::Start);
    assert_eq!(recorded, None);
    assert_eq!(chrome.session_label(), "Box");
    let line = chrome.port_forward_status().unwrap();
    assert_eq!(line.label, "Ports: 1 pending (127.0.0.1:3000 -> localhost:80)");
    assert!(!line.shows_retry);
    assert_eq!(
        chrome.sync_runtime_state(
            SessionLifecyclePhase::Background,
            SessionRecoveryState::Healthy
        ),
        ForwardAction::Stop
    );
    assert_eq!(
        chrome.sync_runtime_state(
            SessionLifecyclePhase::Active,
            SessionRecoveryState::Healthy
        ),
        ForwardAction::Start
    );
    chrome.port_forward_manager.finish_apply(Some("taken".into()));
    let line = chrome.port_forward_status().unwrap();
    assert!(line.label.starts_with("Ports: 1 failed"));
    assert_eq!(line.error.as_deref(), Some("taken"));
    assert!(line.shows_retry);
    assert_eq!(chrome.retry_port_forwards(), ForwardAction::Start);
    assert_eq!(
        MobileWorkspaceChrome::format_port_forward_status("active", 0, &[]),
        "Ports: 0 active"
    );
}

#[test]
fn chosen_tool_is_kept() {
    let mut db = db_with_session();
    let mut coordinator = Some(SessionRecoveryCoordinator::new());
    let (mut chrome, _, _) = MobileWorkspaceChrome::new(
        Some(&db),
        policy(),
        &mut coordinator,
        5,
        Some(1),
        None,
        None,
    );
    chrome.toggle_git_panel();
    let docks = DockStates {
        left_open: true,
        right_open: true,
        right_panel: Some(DockPanel::Git),
        bottom_open: false,
        bottom_panel: Some(DockPanel::Terminal),
    };
    let snapshot = chrome.workspace_snapshot(docks).unwrap();
    assert_eq!(snapshot.active_tool.as_deref(), Some("git"));
    assert_eq!(snapshot.remote_path.as_deref(), Some("~/d"));
    assert!(snapshot.git_panel_visible && !snapshot.terminal_visible && !snapshot.agent_visible);
    chrome
        .persist_workspace_snapshot(&mut db, "{}".into(), 50)
        .unwrap();
    let state = db.load_session_restore_state().unwrap();
    assert_eq!(state.workspace_state_json.as_deref(), Some("{}"));
    assert_eq!(state.updated_at, 50);
    assert_eq!(
        chrome.tools(true).iter().map(|tool| chrome.tool_label(*tool)).collect::<Vec<_>>(),
        vec![
            "Restricted Mode", "Files", "Outline", "Git", "Terminal", "Search", "Tasks",
            "Problems", "Files...", "Commands", "Review",
        ]
    );
    let no_ai = MobileFeaturePolicy { show_ai: false, ..policy() };
    chrome.feature_policy = no_ai;
    assert!(!chrome.tools(false).contains(&Tool::Agent));
}

#[test]
fn ended_session_is_not_resumed() {
    let db = db_with_session();
    let mut coordinator = Some(SessionRecoveryCoordinator::new());
    let (chrome, _, _) = MobileWorkspaceChrome::new(
        Some(&db),
        policy(),
        &mut coordinator,
        5,
        Some(1),
        Some("~/r".into()),
        None,
    );
    let (mut root, _) = chrome.disconnect(Some(db), &mut coordinator);
    assert!(!root.on_window_activation_changed(true, true, 90));
    assert_eq!(root.connect_view.last_session_profile, None);
    assert_eq!(coordinator.unwrap().remote_client, None);
}

#[test]
fn tutorial_goes_step_by_step() {
    let mut tutorial = TutorialView::new();
    assert_eq!(tutorial.progress_label(), "Step 1 of 4 - Install Zed");
    tutorial.previous_step();
    assert_eq!(tutorial.current_step, 0);
    assert_eq!(tutorial.press_next(), None);
    tutorial.go_to_step(3);
    assert_eq!(tutorial.title(), "Connect");
    assert_eq!(tutorial.next_label(), "Done");
    assert_eq!(tutorial.press_next(), Some(TutorialDismissed));
    tutorial.next_step();
    assert_eq!(tutorial.current_step, 3);
    assert_eq!(tutorial.dismiss(), TutorialDismissed);
}

#[test]
fn tutorial_text_is_laid_out() {
    let blocks = TutorialView::render_content(
        "# # Title\n\n  ### Part\n- one\n* two\n12. three. four\n1a. five\n```sh\n  ls  \n```\nrun `ls`\n---\nplain\n",
    );
    assert_eq!(
        blocks,
        vec![
            TutorialBlock::Heading1("Title".into()),
            TutorialBlock::Space,
            TutorialBlock::Heading3("Part".into()),
            TutorialBlock::Bullet("one".into()),
            TutorialBlock::Bullet("two".into()),
            TutorialBlock::Numbered("12.".into(), "three. four".into()),
            TutorialBlock::Paragraph("1a. five".into()),
            TutorialBlock::CodeLine("  ls  ".into()),
            TutorialBlock::InlineCode("run `ls`".into()),
            TutorialBlock::Signs("---".into()),
            TutorialBlock::Paragraph("plain".into()),
        ]
    );
}

#[test]
fn taps_are_counted() {
    let mut welcome = WelcomeView::default();
    assert_eq!(welcome.title, "Zed");
    assert_eq!(welcome.tap_text(), "Tap to test input");
    welcome.tap();
    assert_eq!(welcome.tap_text(), "Tapped 1 time");
    welcome.tap();
    assert_eq!(welcome.tap_text(), "Tapped 2 times");
    assert_eq!(WelcomeView::new().subtitle, "Code at the speed of thought");
}

#[test]
fn nothing_is_started_while_an_attempt_is_on_its_way() {
    let mut view = ConnectView::new(Some(db_with_session()));
    assert!(view.press_connect(Some(vec![]), "1.0").is_some());
    assert!(view.is_busy());
    assert!(view.press_connect(Some(vec![]), "1.0").is_none());
    assert!(!view.press_resume(9));
    let mut view = ConnectView::new(Some(db_with_session()));
    assert!(view.press_resume(9));
    let mut view = ConnectView::new(None);
    assert!(!view.resume_last_session(9));
    assert!(!view.press_resume(9));
    assert!(view.press_connect(Some(vec![]), "1.0").is_none());
    assert!(matches!(view.state, ConnectionState::Error(_)));
}

#[test]
fn status_and_switches_change_alone() {
    let mut view = filled_view();
    view.set_connection_status(Some("Downloading".into()));
    assert_eq!(view.status_message.as_deref(), Some("Downloading"));
    view.set_connection_status(None);
    assert_eq!(view.status_message, None);
    let before = view.upload_binary_over_ssh;
    view.toggle_upload_binary_over_ssh();
    assert_eq!(view.upload_binary_over_ssh, !before);
    assert_eq!(view.hostname_input.text(), "example.com");
}

#[test]
fn each_panel_has_its_name() {
    let db = db_with_session();
    let mut coordinator = Some(SessionRecoveryCoordinator::new());
    let (mut chrome, _, _) =
        MobileWorkspaceChrome::new(Some(&db), policy(), &mut coordinator, 5, Some(1), None, None);
    chrome.toggle_project_panel();
    assert_eq!(chrome.selected_tool.as_deref(), Some("files"));
    chrome.toggle_outline_panel();
    assert_eq!(chrome.selected_tool.as_deref(), Some("outline"));
    chrome.toggle_terminal_panel();
    assert_eq!(chrome.selected_tool.as_deref(), Some("terminal"));
    chrome.toggle_agent_panel();
    assert_eq!(chrome.selected_tool.as_deref(), Some("agent"));
}
