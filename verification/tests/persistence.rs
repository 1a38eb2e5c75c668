//! Saved connections, and the session to restore.

use zed_ios::persistence::{
    credential_url, current_timestamp, deserialize_texts, migration_statements,
    private_key_credential_url, private_key_passphrase_url, profile_from_row, serialize_texts,
    timestamp_of, AuthMode, ConnectionDb, ConnectionProfileInput, ConnectionRow,
    MobileWorkspaceSnapshotV1, SessionRestoreState,
};
use zed_ios::ssh_port_forward::SshPortForwardOption;

#[test]
fn test_upsert_and_reload_connection_profile() {
    let mut db = ConnectionDb::open_memory();

    let profile = db
        .upsert_connection_profile(
            &ConnectionProfileInput {
                hostname: "example.com".into(),
                username: "user".into(),
                port: 22,
                nickname: Some("My Server".into()),
                default_path: Some("~/code".into()),
                ssh_args: vec!["-i".into(), "~/.ssh/id_ed25519".into()],
                port_forwards: vec![SshPortForwardOption {
                    local_host: None,
                    local_port: 3000,
                    remote_host: Some("localhost".into()),
                    remote_port: 3000,
                }],
                auth_mode: AuthMode::KeychainSecret,
                upload_binary_over_ssh: true,
                private_key_name: None,
                private_key_fingerprint: None,
                last_successful_server_version: Some("0.1.0".into()),
                last_opened_worktree: Some("~/code".into()),
            },
            current_timestamp(),
        )
        .unwrap();

    assert_eq!(profile.nickname.as_deref(), Some("My Server"));
    assert_eq!(profile.ssh_args, vec!["-i", "~/.ssh/id_ed25519"]);
    assert_eq!(profile.port_forwards.len(), 1);
    assert!(profile.upload_binary_over_ssh);
    assert_eq!(profile.auth_mode, AuthMode::KeychainSecret);
}

#[test]
fn test_session_restore_round_trip() {
    let mut db = ConnectionDb::open_memory();
    let profile = db
        .upsert_connection_profile(
            &ConnectionProfileInput {
                hostname: "example.com".into(),
                username: "user".into(),
                port: 22,
                ..ConnectionProfileInput::default()
            },
            current_timestamp(),
        )
        .unwrap();

    db.save_session_restore_state(&SessionRestoreState {
        connection_profile_id: profile.id,
        remote_path: Some("~/zed".into()),
        last_opened_worktree: Some("~/zed".into()),
        workspace_state_json: Some("{\"version\":1,\"remote_path\":\"~/zed\"}".into()),
        updated_at: current_timestamp(),
    })
    .unwrap();

    let state = db.load_session_restore_state().unwrap();
    assert_eq!(state.connection_profile_id, profile.id);
    assert_eq!(state.remote_path.as_deref(), Some("~/zed"));

    let restored_profile = db.last_session_connection_profile().unwrap();
    assert_eq!(restored_profile.hostname, "example.com");
}

fn input(hostname: &str, port: u16) -> ConnectionProfileInput {
    ConnectionProfileInput {
        hostname: hostname.into(),
        username: "user".into(),
        port,
        ..ConnectionProfileInput::default()
    }
}

#[test]
fn saving_again_changes_the_same_connection() {
    let mut db = ConnectionDb::open_memory();
    let first = db.upsert_connection_profile(&input("a", 22), 10).unwrap();
    let other = db.upsert_connection_profile(&input("a", 23), 20).unwrap();
    let again = db
        .upsert_connection_profile(
            &ConnectionProfileInput { nickname: Some("A".into()), ..input("a", 22) },
            30,
        )
        .unwrap();
    assert_eq!((first.id, other.id), (1, 2));
    assert_eq!(again.id, first.id);
    assert_eq!(again.created_at, 10);
    assert_eq!(again.last_used_at, 30);
    assert_eq!(again.display_name(), "A");
    assert_eq!(other.display_name(), "user@a:23");
    assert_eq!(first.display_name(), "user@a");
    assert_eq!(db.connection_profile_by_id(2), Some(other));
    assert_eq!(db.find_connection_profile("a", "user", 22), Some(again));
    assert_eq!(db.find_connection_profile("a", "other", 22), None);
}

#[test]
fn recent_connections_come_newest_first() {
    let mut db = ConnectionDb::open_memory();
    for (at, hostname) in ["a", "b", "c"].iter().enumerate() {
        db.upsert_connection_profile(&input(hostname, 22), at as i64).unwrap();
    }
    db.touch_connection_profile(1, 9);
    let names: Vec<String> = db
        .recent_connection_profiles(2)
        .into_iter()
        .map(|profile| profile.hostname)
        .collect();
    assert_eq!(names, vec!["a", "c"]);
}

#[test]
fn deleting_a_connection_forgets_its_session() {
    let mut db = ConnectionDb::open_memory();
    let profile = db.upsert_connection_profile(&input("a", 22), 1).unwrap();
    let state = SessionRestoreState {
        connection_profile_id: profile.id,
        remote_path: None,
        last_opened_worktree: Some("~/w".into()),
        workspace_state_json: None,
        updated_at: 5,
    };
    db.save_session_restore_state(&state).unwrap();
    let saved = db.connection_profile_by_id(profile.id).unwrap();
    assert_eq!(saved.last_opened_worktree.as_deref(), Some("~/w"));
    assert_eq!(saved.last_session_timestamp, Some(5));
    db.delete_connection_profile(profile.id);
    assert_eq!(db.connection_profile_by_id(profile.id), None);
    assert_eq!(db.load_session_restore_state(), None);
    assert_eq!(
        db.save_session_restore_state(&state),
        Err("Failed to save session restore state".to_string())
    );
    // The number of a deleted connection is not given out again.
    let next = db.upsert_connection_profile(&input("b", 22), 6).unwrap();
    assert_eq!(next.id, 2);
}

#[test]
fn changes_of_a_connection_are_read_back() {
    let mut db = ConnectionDb::open_memory();
    let profile = db.upsert_connection_profile(&input("a", 22), 1).unwrap();
    db.record_host_key_verification(profile.id, "SHA256:x", 7);
    let forward = SshPortForwardOption {
        local_host: None,
        local_port: 8080,
        remote_host: None,
        remote_port: 80,
    };
    let updated = db
        .update_connection_profile_port_forwards(profile.id, &[forward.clone()], 8)
        .unwrap();
    assert_eq!(updated.port_forwards, vec![forward]);
    let read = db.connection_profile_by_id(profile.id).unwrap();
    assert_eq!(read.host_key_fingerprint.as_deref(), Some("SHA256:x"));
    assert_eq!(read.host_key_verified_at, Some(7));
    assert_eq!(read.port_forwards.len(), 1);
    assert_eq!(
        db.update_connection_profile_port_forwards(99, &[], 8),
        None
    );
    db.clear_session_restore_state();
    assert_eq!(db.last_session_connection_profile(), None);
}

#[test]
fn auth_modes_read_back() {
    for mode in [AuthMode::Prompt, AuthMode::KeychainSecret, AuthMode::KeyBased] {
        assert_eq!(AuthMode::from_db_value(mode.as_db_value()), mode);
    }
    assert_eq!(AuthMode::from_db_value("other"), AuthMode::Prompt);
}

#[test]
fn secrets_have_addresses_of_their_own() {
    assert_eq!(credential_url("h", "u", 22), "ssh://u@h:22");
    assert_eq!(
        private_key_credential_url("h", "u", 22),
        "ssh-key://u@h:22/private-key"
    );
    assert_eq!(
        private_key_passphrase_url("h", "u", 22),
        "ssh-key://u@h:22/passphrase"
    );
    assert_ne!(
        private_key_credential_url("h", "u", 22),
        private_key_passphrase_url("h2", "u2", 2222)
    );
    assert_ne!(credential_url("h2", "u2", 2222), private_key_passphrase_url("h", "u", 22));
}

#[test]
fn timestamps_are_seconds_since_1970() {
    assert_eq!(timestamp_of(Some(12)), 12);
    assert_eq!(timestamp_of(None), 0);
    assert_eq!(timestamp_of(Some(u64::MAX)), -1);
    assert!(current_timestamp() > 1_600_000_000);
}

#[test]
fn texts_are_kept_as_json() {
    let list = vec!["-i".to_string(), "a \"b\"".to_string()];
    let raw = serialize_texts(&list);
    assert_eq!(raw.as_deref(), Some("[\"-i\",\"a \\\"b\\\"\"]"));
    assert_eq!(deserialize_texts(&raw), Ok(list));
    assert_eq!(serialize_texts(&[]), None);
    assert_eq!(deserialize_texts(&None), Ok(vec![]));
    let broken = deserialize_texts(&Some("{".to_string()));
    assert_eq!(broken, Err("Failed to deserialize JSON column".to_string()));
}

fn row(ssh_args_json: Option<&str>) -> ConnectionRow {
    ConnectionRow {
        id: 4,
        hostname: "h".into(),
        username: "u".into(),
        port: 65536 + 22,
        nickname: None,
        path: Some("~/p".into()),
        ssh_args_json: ssh_args_json.map(|raw| raw.to_string()),
        port_forwards: vec![],
        upload_binary_over_ssh: 2,
        auth_mode: Some("keychain_secret".into()),
        private_key_name: None,
        private_key_fingerprint: None,
        last_successful_server_version: None,
        last_opened_worktree: None,
        last_session_timestamp: None,
        host_key_fingerprint: None,
        host_key_verified_at: None,
        created_at: 1,
        last_used_at: 2,
    }
}

#[test]
fn rows_are_read() {
    let profile = profile_from_row(row(Some("[\"-v\"]"))).unwrap();
    assert_eq!(profile.port, 22);
    assert_eq!(profile.default_path.as_deref(), Some("~/p"));
    assert_eq!(profile.ssh_args, vec!["-v"]);
    assert!(profile.upload_binary_over_ssh);
    assert_eq!(profile.auth_mode.as_db_value(), "keychain_secret");
    assert!(profile_from_row(row(Some("nonsense"))).is_err());
}

#[test]
fn missing_columns_are_added() {
    let statements = migration_statements(&[]);
    assert!(statements
        .iter()
        .any(|statement| statement
            == "ALTER TABLE saved_connections ADD COLUMN path TEXT"));
    let fewer = migration_statements(&["path".to_string()]);
    assert_eq!(fewer.len(), statements.len() - 1);
}

#[test]
fn first_snapshot_shows_the_left_sidebar_only() {
    let snapshot = MobileWorkspaceSnapshotV1::new(Some("~/zed".into()), None);
    assert_eq!(snapshot.version, MobileWorkspaceSnapshotV1::VERSION);
    assert_eq!(snapshot.remote_path.as_deref(), Some("~/zed"));
    assert!(snapshot.left_sidebar_visible);
    assert!(!snapshot.terminal_visible && !snapshot.git_panel_visible && !snapshot.agent_visible);
}

#[test]
fn only_sound_tables_are_taken() {
    let mut db = ConnectionDb::open_memory();
    let first = db.upsert_connection_profile(&input("a", 22), 1).unwrap();
    let second = db.upsert_connection_profile(&input("b", 22), 2).unwrap();
    assert!(db.is_sound());
    let stored =
        ConnectionDb::from_stored(vec![first.clone(), second.clone()], 3, None).unwrap();
    assert!(stored.is_sound());
    assert_eq!(stored.connection_profile_by_id(second.id).unwrap().hostname, "b");
    assert!(ConnectionDb::from_stored(vec![], 1, None).is_some());
    assert!(ConnectionDb::from_stored(vec![], 0, None).is_none());
    assert!(ConnectionDb::from_stored(vec![first.clone(), first.clone()], 3, None).is_none());
    assert!(ConnectionDb::from_stored(vec![second, first], 2, None).is_none());
}
