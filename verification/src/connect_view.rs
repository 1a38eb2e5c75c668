//! The connection screen: its form, and how a connection attempt goes on.

use crate::connect_form;
use crate::host_key;
use crate::host_key::{ChallengeView, HostKeyChallenge, HostKeyDecision, HostKeyPrompt};
use crate::persistence;
use crate::persistence::{
    AuthMode, ConnectionDb, ConnectionProfile, ConnectionProfileInput, DbView, InputProfileView,
    ProfileView, RestoreView, SessionRestoreState,
};
use crate::ssh_options::{OptionsView, SshConnectionOptions};
use crate::ssh_port_forward;
use crate::text;
use crate::text_index;
use crate::text_input;
use crate::text_input::{InputView, TextInput};
use vstd::prelude::*;

verus! {

/// Sent when the setup tutorial is asked for.
#[derive(Clone, Copy, Debug, PartialEq, Eq, Structural)]
pub struct ShowTutorialRequested;

/// Sent when a connection was made.
#[derive(Clone, Debug, PartialEq, Eq)]
pub struct ConnectionSucceeded {
    pub remote_path: Option<String>,
    pub connection_profile_id: Option<i64>,
}

/// How far a connection attempt is.
#[derive(Clone, Debug, PartialEq)]
pub enum ConnectionState {
    /// Nothing was attempted yet.
    Idle,
    /// An attempt is being made.
    Connecting,
    /// The user is asked to trust an unknown host key.
    WaitingForHostKey(HostKeyChallenge),
    /// The user is asked for a password.
    WaitingForPassword(String),
    /// The attempt failed.
    Error(String),
    /// The attempt succeeded.
    Connected,
}

/// How far a connection attempt is.
pub enum StateView {
    Idle,
    Connecting,
    WaitingForHostKey(ChallengeView),
    WaitingForPassword(Seq<char>),
    Error(Seq<char>),
    Connected,
}

impl View for ConnectionState {
    type V = StateView;

    open spec fn view(&self) -> StateView {
        match self {
            ConnectionState::Idle => StateView::Idle,
            ConnectionState::Connecting => StateView::Connecting,
            ConnectionState::WaitingForHostKey(challenge) => StateView::WaitingForHostKey(
                challenge@,
            ),
            ConnectionState::WaitingForPassword(prompt) => StateView::WaitingForPassword(prompt@),
            ConnectionState::Error(message) => StateView::Error(message@),
            ConnectionState::Connected => StateView::Connected,
        }
    }
}

/// The connection screen.
pub struct ConnectView {
    pub hostname_input: TextInput,
    pub username_input: TextInput,
    pub port_input: TextInput,
    pub nickname_input: TextInput,
    pub ssh_args_input: TextInput,
    pub port_forwards_input: TextInput,
    pub password_input: TextInput,
    pub remote_path_input: TextInput,
    pub state: ConnectionState,
    pub status_message: Option<String>,
    pub recent_connections: Vec<ConnectionProfile>,
    pub last_session_profile: Option<ConnectionProfile>,
    pub last_session_restore_state: Option<SessionRestoreState>,
    pub db: Option<ConnectionDb>,
    /// Whether a decision on a host key is waited for.
    pub host_key_waiting: bool,
    /// Whether a password is waited for.
    pub password_waiting: bool,
    /// Whether an attempt is running.
    pub connecting: bool,
    pub show_advanced_options: bool,
    pub remember_secret: bool,
    pub upload_binary_over_ssh: bool,
    pub pending_secret_for_save: Option<String>,
    pub pending_host_key_fingerprint: Option<String>,
    pub auto_restore_attempted: bool,
}

/// The state of the connection screen.
pub struct ScreenView {
    pub hostname: InputView,
    pub username: InputView,
    pub port: InputView,
    pub nickname: InputView,
    pub ssh_args: InputView,
    pub port_forwards: InputView,
    pub password: InputView,
    pub remote_path: InputView,
    pub state: StateView,
    pub status: Option<Seq<char>>,
    pub recent: Seq<ProfileView>,
    pub last_profile: Option<ProfileView>,
    pub last_restore: Option<RestoreView>,
    pub db: Option<DbView>,
    pub host_key_waiting: bool,
    pub password_waiting: bool,
    pub connecting: bool,
    pub show_advanced: bool,
    pub remember_secret: bool,
    pub upload_binary: bool,
    pub pending_secret: Option<Seq<char>>,
    pub pending_fingerprint: Option<Seq<char>>,
    pub auto_restore_attempted: bool,
}

/// The contents of a session to restore, if there is one.
pub open spec fn restore_view(state: Option<SessionRestoreState>) -> Option<RestoreView> {
    match state {
        Some(state) => Some(state@),
        None => None,
    }
}

/// The contents of a database, if there is one.
pub open spec fn db_view(db: Option<ConnectionDb>) -> Option<DbView> {
    match db {
        Some(db) => Some(db@),
        None => None,
    }
}

impl View for ConnectView {
    type V = ScreenView;

    open spec fn view(&self) -> ScreenView {
        ScreenView {
            hostname: self.hostname_input@,
            username: self.username_input@,
            port: self.port_input@,
            nickname: self.nickname_input@,
            ssh_args: self.ssh_args_input@,
            port_forwards: self.port_forwards_input@,
            password: self.password_input@,
            remote_path: self.remote_path_input@,
            state: self.state@,
            status: text::optional(self.status_message),
            recent: persistence::profile_views(self.recent_connections@),
            last_profile: persistence::found(self.last_session_profile),
            last_restore: restore_view(self.last_session_restore_state),
            db: db_view(self.db),
            host_key_waiting: self.host_key_waiting,
            password_waiting: self.password_waiting,
            connecting: self.connecting,
            show_advanced: self.show_advanced_options,
            remember_secret: self.remember_secret,
            upload_binary: self.upload_binary_over_ssh,
            pending_secret: text::optional(self.pending_secret_for_save),
            pending_fingerprint: text::optional(self.pending_host_key_fingerprint),
            auto_restore_attempted: self.auto_restore_attempted,
        }
    }
}

/// Whether the fields and the database of the screen are sound.
pub open spec fn screen_wf(screen: ScreenView) -> bool {
    &&& text_input::input_wf(screen.hostname)
    &&& text_input::input_wf(screen.username)
    &&& text_input::input_wf(screen.port)
    &&& text_input::input_wf(screen.nickname)
    &&& text_input::input_wf(screen.ssh_args)
    &&& text_input::input_wf(screen.port_forwards)
    &&& text_input::input_wf(screen.password)
    &&& text_input::input_wf(screen.remote_path)
    &&& screen.db matches Some(db) ==> persistence::db_wf(db)
}

/// How many recent connections are shown.
pub const RECENT_CONNECTIONS: usize = 10;

/// The connections that are shown as recent.
pub open spec fn recent_of(db: DbView) -> Seq<ProfileView> {
    persistence::by_use(db.profiles).take(
        if 10 <= db.profiles.len() {
            10
        } else {
            db.profiles.len() as int
        },
    )
}

/// The connection of the session to restore.
pub open spec fn last_profile_of(db: DbView) -> Option<ProfileView> {
    match db.restore {
        Some(state) => persistence::profile_at(
            db.profiles,
            persistence::index_with_id(db.profiles, state.connection_profile_id),
        ),
        None => None,
    }
}

/// What the screen shows of the database: the recent connections, and the connection and
/// the state of the session to restore.
fn shown_of(db: &ConnectionDb) -> (shown: (
    Vec<ConnectionProfile>,
    Option<ConnectionProfile>,
    Option<SessionRestoreState>,
))
    requires
        db.wf(),
    ensures
        persistence::profile_views(shown.0@) == recent_of(db@),
        persistence::found(shown.1) == last_profile_of(db@),
        restore_view(shown.2) == db@.restore,
{
    (
        db.recent_connection_profiles(RECENT_CONNECTIONS),
        db.last_session_connection_profile(),
        db.load_session_restore_state(),
    )
}

/// A field with a label and contents, and the cursor behind them.
pub open spec fn labelled(
    placeholder: Seq<char>,
    label: Seq<char>,
    content: Seq<char>,
    masked: bool,
) -> InputView {
    InputView {
        content,
        placeholder,
        start: text_index::utf8_len(content) as int,
        end: text_index::utf8_len(content) as int,
        reversed: false,
        marked: None,
        has_layout: false,
        selecting: false,
        masked,
        label: Some(label),
    }
}

fn labelled_input(placeholder: &str, label: &str, content: String, masked: bool) -> (input: TextInput)
    ensures
        input.wf(),
        input@ == labelled(placeholder@, label@, content@, masked),
{
    let mut input = TextInput::new(placeholder).with_label(label).with_secure(masked);
    input.set_text(content);
    input
}

/// The text of a value that may be missing.
pub open spec fn text_or(value: Option<Seq<char>>, other: Seq<char>) -> Seq<char> {
    match value {
        Some(value) => value,
        None => other,
    }
}

fn copy_or(value: &Option<String>, other: &str) -> (result: String)
    ensures
        result@ == text_or(text::optional(*value), other@),
{
    match value {
        Some(value) => value.clone(),
        None => other.to_owned(),
    }
}

/// The path that is opened: the one of the session to restore, else the one of the
/// connection, else the home directory.
pub open spec fn initial_path(restore: Option<RestoreView>, profile: ProfileView) -> Seq<char> {
    match restore {
        Some(state) => text_or(state.remote_path, text_or(profile.default_path, "~"@)),
        None => text_or(profile.default_path, "~"@),
    }
}

/// The form filled in from a connection, with a path to open.
pub open spec fn filled(screen: ScreenView, profile: ProfileView, path: Seq<char>) -> ScreenView {
    ScreenView {
        hostname: text_input::with_text(screen.hostname, profile.hostname),
        username: text_input::with_text(screen.username, profile.username),
        port: text_input::with_text(screen.port, text::decimal(profile.port as nat)),
        nickname: text_input::with_text(screen.nickname, text_or(profile.nickname, Seq::empty())),
        remote_path: text_input::with_text(screen.remote_path, path),
        ssh_args: text_input::with_text(
            screen.ssh_args,
            text::joined(profile.ssh_args, " "@),
        ),
        port_forwards: text_input::with_text(
            screen.port_forwards,
            connect_form::forwards_text(profile.port_forwards),
        ),
        remember_secret: profile.auth_mode == AuthMode::KeychainSecret,
        upload_binary: profile.upload_binary_over_ssh,
        ..screen
    }
}

/// The screen as it is without a session to restore.
pub open spec fn empty_screen(db: Option<DbView>) -> ScreenView {
    ScreenView {
        hostname: labelled("hostname.example.com"@, "Host"@, Seq::empty(), false),
        username: labelled("username"@, "Username"@, Seq::empty(), false),
        port: labelled("22"@, "Port"@, "22"@, false),
        nickname: labelled("Work Mac"@, "Nickname"@, Seq::empty(), false),
        ssh_args: labelled("-i ~/.ssh/id_ed25519"@, "SSH Args"@, Seq::empty(), false),
        port_forwards: labelled("3000:3000, 5173:5173"@, "Port Forwards"@, Seq::empty(), false),
        password: labelled(""@, "Password"@, Seq::empty(), true),
        remote_path: labelled("~"@, "Remote Path"@, Seq::empty(), false),
        state: StateView::Idle,
        status: None,
        recent: match db {
            Some(db) => recent_of(db),
            None => Seq::empty(),
        },
        last_profile: match db {
            Some(db) => last_profile_of(db),
            None => None,
        },
        last_restore: match db {
            Some(db) => db.restore,
            None => None,
        },
        db,
        host_key_waiting: false,
        password_waiting: false,
        connecting: false,
        show_advanced: false,
        remember_secret: false,
        upload_binary: false,
        pending_secret: None,
        pending_fingerprint: None,
        auto_restore_attempted: false,
    }
}

/// The screen as it is when it is first shown: filled in from the last session, if there
/// is one to restore.
pub open spec fn initial_screen(db: Option<DbView>) -> ScreenView {
    let empty = empty_screen(db);
    match empty.last_profile {
        Some(profile) => filled(empty, profile, initial_path(empty.last_restore, profile)),
        None => empty,
    }
}

impl ConnectView {
    /// Whether the fields and the database of the screen are sound.
    pub open spec fn wf(self) -> bool {
        screen_wf(self@)
    }

    /// Fills the form in from a connection, with a path to open.
    fn fill_from(&mut self, profile: &ConnectionProfile, path: String)
        requires
            old(self).wf(),
        ensures
            final(self).wf(),
            final(self)@ == filled(old(self)@, profile@, path@),
    {
        self.hostname_input.set_text(profile.hostname.clone());
        self.username_input.set_text(profile.username.clone());
        self.port_input.set_text(text::format_decimal(profile.port as u64));
        let nothing = "";
        proof {
            reveal_strlit("");
            assert(nothing@ =~= Seq::<char>::empty());
        }
        self.nickname_input.set_text(copy_or(&profile.nickname, nothing));
        self.remote_path_input.set_text(path);
        self.ssh_args_input.set_text(text::join(profile.ssh_args.as_slice(), " "));
        self.port_forwards_input.set_text(
            connect_form::format_port_forwards(profile.port_forwards.as_slice()),
        );
        self.remember_secret = profile.auth_mode == AuthMode::KeychainSecret;
        self.upload_binary_over_ssh = profile.upload_binary_over_ssh;
    }

    /// The screen as it is when it is first shown, with the database if it could be
    /// opened.
    pub fn new(db: Option<ConnectionDb>) -> (view: Self)
        requires
            db matches Some(db) ==> db.wf(),
        ensures
            view.wf(),
            view@ == initial_screen(db_view(db)),
    {
        let ghost stored = db_view(db);
        let (recent_connections, last_session_profile, last_session_restore_state) = match &db {
            Some(db) => shown_of(db),
            None => {
                let none: Vec<ConnectionProfile> = Vec::new();
                assert(persistence::profile_views(none@) =~= Seq::empty());
                (none, None, None)
            },
        };
        let mut view = ConnectView {
            hostname_input: labelled_input("hostname.example.com", "Host", String::new(), false),
            username_input: labelled_input("username", "Username", String::new(), false),
            port_input: labelled_input("22", "Port", "22".to_owned(), false),
            nickname_input: labelled_input("Work Mac", "Nickname", String::new(), false),
            ssh_args_input: labelled_input(
                "-i ~/.ssh/id_ed25519",
                "SSH Args",
                String::new(),
                false,
            ),
            port_forwards_input: labelled_input(
                "3000:3000, 5173:5173",
                "Port Forwards",
                String::new(),
                false,
            ),
            password_input: labelled_input("", "Password", String::new(), true),
            remote_path_input: labelled_input("~", "Remote Path", String::new(), false),
            state: ConnectionState::Idle,
            status_message: None,
            recent_connections,
            last_session_profile,
            last_session_restore_state,
            db,
            host_key_waiting: false,
            password_waiting: false,
            connecting: false,
            show_advanced_options: false,
            remember_secret: false,
            upload_binary_over_ssh: false,
            pending_secret_for_save: None,
            pending_host_key_fingerprint: None,
            auto_restore_attempted: false,
        };
        assert(view@ == empty_screen(stored));
        match &view.last_session_profile {
            Some(profile) => {
                let profile = profile.duplicate();
                let restored = match &view.last_session_restore_state {
                    Some(state) => text::copy_optional(&state.remote_path),
                    None => None,
                };
                let path = match restored {
                    Some(path) => path,
                    None => copy_or(&profile.default_path, "~"),
                };
                view.fill_from(&profile, path);
            },
            None => {},
        }
        view
    }
}

/// What keeps the form from being used, if anything does.
pub open spec fn form_error(screen: ScreenView) -> Option<Seq<char>> {
    if text::is_blank(screen.hostname.content) {
        Some("Hostname is required"@)
    } else if text::is_blank(screen.username.content) {
        Some("Username is required"@)
    } else if text::parsed_number(screen.port.content, 0xffff) is None {
        Some("Invalid port number"@)
    } else {
        None
    }
}

/// The path that is opened: the home directory unless the form tells one.
pub open spec fn path_in_form(screen: ScreenView) -> Seq<char> {
    let path = text::trimmed(screen.remote_path.content);
    if path.len() == 0 {
        "~"@
    } else {
        path
    }
}

/// What the form tells of a connection, given the words that its SSH arguments were split
/// into and the version of the app.
pub open spec fn profile_in_form(
    screen: ScreenView,
    words: Option<Seq<Seq<char>>>,
    app_version: Seq<char>,
) -> Result<InputProfileView, Seq<char>> {
    match form_error(screen) {
        Some(message) => Err(message),
        None => match connect_form::ssh_args_in(screen.ssh_args.content, words) {
            Err(message) => Err(message),
            Ok(ssh_args) => match connect_form::parsed_forwards(screen.port_forwards.content) {
                Err(message) => Err(message),
                Ok(port_forwards) => {
                    let nickname = text::trimmed(screen.nickname.content);
                    Ok(
                        InputProfileView {
                            hostname: text::trimmed(screen.hostname.content),
                            username: text::trimmed(screen.username.content),
                            port: text::parsed_number(screen.port.content, 0xffff)->0 as u16,
                            nickname: if nickname.len() == 0 {
                                None
                            } else {
                                Some(nickname)
                            },
                            default_path: Some(path_in_form(screen)),
                            ssh_args,
                            port_forwards,
                            auth_mode: if screen.remember_secret {
                                AuthMode::KeychainSecret
                            } else {
                                AuthMode::Prompt
                            },
                            upload_binary_over_ssh: screen.upload_binary,
                            private_key_name: None,
                            private_key_fingerprint: None,
                            last_successful_server_version: Some(app_version),
                            last_opened_worktree: Some(path_in_form(screen)),
                        },
                    )
                },
            },
        },
    }
}

/// What a connection attempt needs.
#[derive(Clone, Debug, PartialEq, Eq)]
pub struct ConnectPlan {
    pub options: SshConnectionOptions,
    pub credential_store_url: String,
    /// Whether a saved password is looked for.
    pub read_keychain: bool,
    pub remote_path: String,
    pub profile_input: ConnectionProfileInput,
}

/// Whether a plan is the one for what the form told.
pub open spec fn is_plan_for(plan: ConnectPlan, input: InputProfileView) -> bool {
    &&& plan.profile_input@ == input
    &&& plan.options@ == (OptionsView {
        host: input.hostname,
        username: Some(input.username),
        port: Some(input.port),
        password: None,
        args: Some(input.ssh_args),
        port_forwards: if input.port_forwards.len() == 0 {
            None
        } else {
            Some(input.port_forwards)
        },
        connection_timeout: Some(30u16),
        nickname: input.nickname,
        upload_binary_over_ssh: input.upload_binary_over_ssh,
    })
    &&& plan.credential_store_url@ == "ssh://"@ + persistence::address(
        input.hostname,
        input.username,
        input.port,
    )
    &&& plan.read_keychain == (input.auth_mode == AuthMode::KeychainSecret)
    &&& plan.remote_path@ == text_or(input.default_path, "~"@)
}

/// The screen once an attempt is being made.
pub open spec fn attempt_started(screen: ScreenView) -> ScreenView {
    ScreenView {
        state: StateView::Connecting,
        status: Some("Initializing connection..."@),
        pending_fingerprint: None,
        connecting: true,
        ..screen
    }
}

/// What to do with the saved password of a connection.
#[derive(Clone, Debug, PartialEq, Eq)]
pub enum CredentialAction {
    Keep,
    /// Save this one.
    Write(String),
    Delete,
}

/// What is to be done with the saved password once a connection was made.
pub enum CredentialView {
    Write(Seq<char>),
    Keep,
    Delete,
}

impl View for CredentialAction {
    type V = CredentialView;

    open spec fn view(&self) -> CredentialView {
        match self {
            CredentialAction::Write(secret) => CredentialView::Write(secret@),
            CredentialAction::Keep => CredentialView::Keep,
            CredentialAction::Delete => CredentialView::Delete,
        }
    }
}

/// What is to be done with the saved password once a connection was made: one that was typed is
/// written if it is to be remembered, and none is kept if it is not.
pub open spec fn credentials_after(auth_mode: AuthMode, typed: Option<Seq<char>>) -> CredentialView {
    if auth_mode == AuthMode::KeychainSecret {
        match typed {
            Some(secret) => CredentialView::Write(secret),
            None => CredentialView::Keep,
        }
    } else {
        CredentialView::Delete
    }
}

/// What follows from a connection that was made.
#[derive(Clone, Debug, PartialEq, Eq)]
pub struct ConnectOutcome {
    pub credentials: CredentialAction,
    pub event: ConnectionSucceeded,
}

/// The database once a connection was made: it is saved, and a host key that was trusted
/// on the way is noted with it.
pub open spec fn db_after_connecting(
    db: DbView,
    input: InputProfileView,
    fingerprint: Option<Seq<char>>,
    now: i64,
) -> DbView {
    let saved = persistence::upserted(db, input, now);
    let id = saved_id(db, input);
    match fingerprint {
        Some(fingerprint) => persistence::with_profile(
            saved,
            id,
            ProfileView {
                host_key_fingerprint: Some(fingerprint),
                host_key_verified_at: Some(now),
                ..persistence::profile_with_id(saved, id)
            },
        ),
        None => saved,
    }
}

/// The number that a connection is saved under.
pub open spec fn saved_id(db: DbView, input: InputProfileView) -> i64 {
    match persistence::index_for(db.profiles, input.hostname, input.username, input.port) {
        Some(i) => db.profiles[i].id,
        None => db.next_id as i64,
    }
}

/// Whether a connection can be saved.
pub open spec fn can_save(db: DbView, input: InputProfileView) -> bool {
    persistence::index_for(db.profiles, input.hostname, input.username, input.port) is Some
        || db.next_id < i64::MAX
}

/// The screen with what it shows of the database brought up to date.
pub open spec fn reloaded(screen: ScreenView) -> ScreenView {
    match screen.db {
        Some(db) => ScreenView {
            recent: recent_of(db),
            last_profile: last_profile_of(db),
            last_restore: db.restore,
            ..screen
        },
        None => screen,
    }
}

/// The screen with the connection saved, if it can be.
pub open spec fn connection_saved(
    screen: ScreenView,
    input: InputProfileView,
    now: i64,
) -> ScreenView {
    match screen.db {
        Some(db) => if can_save(db, input) {
            ScreenView {
                db: Some(db_after_connecting(db, input, screen.pending_fingerprint, now)),
                pending_fingerprint: None,
                ..screen
            }
        } else {
            screen
        },
        None => screen,
    }
}

/// The screen once a connection was made.
pub open spec fn attempt_succeeded(
    screen: ScreenView,
    input: InputProfileView,
    now: i64,
) -> ScreenView {
    let saved = reloaded(connection_saved(screen, input, now));
    ScreenView {
        state: StateView::Connected,
        status: Some("Connected!"@),
        pending_secret: if input.auth_mode == AuthMode::KeychainSecret {
            None
        } else {
            screen.pending_secret
        },
        connecting: false,
        ..saved
    }
}

/// The screen once an attempt failed.
pub open spec fn attempt_failed(screen: ScreenView, message: Seq<char>) -> ScreenView {
    ScreenView {
        state: StateView::Error(message),
        status: None,
        pending_fingerprint: None,
        connecting: false,
        ..screen
    }
}

impl ConnectView {
    /// The path that is opened: the home directory unless the form tells one.
    pub fn connection_path(&self) -> (path: String)
        ensures
            path@ == path_in_form(self@),
    {
        let path = text::trim(self.remote_path_input.text());
        if path.as_str().is_empty() {
            "~".to_owned()
        } else {
            path
        }
    }

    /// Brings what is shown of the database up to date.
    pub fn reload_recent_connections(&mut self)
        requires
            old(self).wf(),
        ensures
            final(self).wf(),
            final(self)@ == reloaded(old(self)@),
    {
        let (recent, profile, restore) = match &self.db {
            Some(db) => shown_of(db),
            None => {
                return;
            },
        };
        self.recent_connections = recent;
        self.last_session_profile = profile;
        self.last_session_restore_state = restore;
    }

    /// Checks the form.
    pub fn validate_input(&self) -> (result: Result<(), String>)
        ensures
            match (result, form_error(self@)) {
                (Ok(()), None) => true,
                (Err(message), Some(expected)) => message@ == expected,
                _ => false,
            },
    {
        if text::trim(self.hostname_input.text()).as_str().is_empty() {
            return Err("Hostname is required".to_owned());
        }
        if text::trim(self.username_input.text()).as_str().is_empty() {
            return Err("Username is required".to_owned());
        }
        if text::parse_u16(self.port_input.text()).is_none() {
            return Err("Invalid port number".to_owned());
        }
        Ok(())
    }

    /// What the form tells of a connection.
    pub fn connection_profile_input(
        &self,
        words: Option<Vec<String>>,
        app_version: &str,
    ) -> (result: Result<ConnectionProfileInput, String>)
        ensures
            match (
                result,
                profile_in_form(self@, connect_form::words_of(words), app_version@),
            ) {
                (Ok(input), Ok(expected)) => input@ == expected,
                (Err(message), Err(expected)) => message@ == expected,
                _ => false,
            },
    {
        match self.validate_input() {
            Ok(()) => {},
            Err(message) => {
                return Err(message);
            },
        }
        let hostname = text::trim(self.hostname_input.text());
        let username = text::trim(self.username_input.text());
        let port: u16 = match text::parse_u16(self.port_input.text()) {
            Some(port) => port,
            None => 22,
        };
        let nickname = text::trim(self.nickname_input.text());
        let ssh_args = match connect_form::parse_ssh_args(self.ssh_args_input.text(), words) {
            Ok(ssh_args) => ssh_args,
            Err(message) => {
                return Err(message);
            },
        };
        let port_forwards = match connect_form::parse_port_forwards(
            self.port_forwards_input.text(),
        ) {
            Ok(port_forwards) => port_forwards,
            Err(message) => {
                return Err(message);
            },
        };
        let default_path = self.connection_path();
        Ok(
            ConnectionProfileInput {
                hostname,
                username,
                port,
                nickname: if nickname.as_str().is_empty() {
                    None
                } else {
                    Some(nickname)
                },
                default_path: Some(default_path.clone()),
                ssh_args,
                port_forwards,
                auth_mode: if self.remember_secret {
                    AuthMode::KeychainSecret
                } else {
                    AuthMode::Prompt
                },
                upload_binary_over_ssh: self.upload_binary_over_ssh,
                private_key_name: None,
                private_key_fingerprint: None,
                last_successful_server_version: Some(app_version.to_owned()),
                last_opened_worktree: Some(default_path),
            },
        )
    }

    /// Starts a connection attempt with what the form tells, or shows what is wrong with
    /// it.
    pub fn connect(&mut self, words: Option<Vec<String>>, app_version: &str) -> (plan: Option<
        ConnectPlan,
    >)
        requires
            old(self).wf(),
        ensures
            final(self).wf(),
            match profile_in_form(old(self)@, connect_form::words_of(words), app_version@) {
                Ok(input) => {
                    &&& plan is Some
                    &&& is_plan_for(plan->0, input)
                    &&& final(self)@ == attempt_started(old(self)@)
                },
                Err(message) => {
                    &&& plan is None
                    &&& final(self)@ == form_refused(old(self)@, message)
                },
            },
    {
        let profile_input = match self.connection_profile_input(words, app_version) {
            Ok(profile_input) => profile_input,
            Err(message) => {
                self.state = ConnectionState::Error(message);
                return None;
            },
        };
        let options = SshConnectionOptions {
            host: profile_input.hostname.clone(),
            username: Some(profile_input.username.clone()),
            port: Some(profile_input.port),
            password: None,
            args: Some(text::copy_texts(profile_input.ssh_args.as_slice())),
            port_forwards: if profile_input.port_forwards.len() == 0 {
                None
            } else {
                Some(ssh_port_forward::copy_forwards(profile_input.port_forwards.as_slice()))
            },
            connection_timeout: Some(30),
            nickname: text::copy_optional(&profile_input.nickname),
            upload_binary_over_ssh: profile_input.upload_binary_over_ssh,
        };
        let credential_store_url = persistence::credential_url(
            profile_input.hostname.as_str(),
            profile_input.username.as_str(),
            profile_input.port,
        );
        let remote_path = copy_or(&profile_input.default_path, "~");
        self.state = ConnectionState::Connecting;
        self.status_message = Some("Initializing connection...".to_owned());
        self.pending_host_key_fingerprint = None;
        self.connecting = true;
        Some(
            ConnectPlan {
                options,
                credential_store_url,
                read_keychain: profile_input.auth_mode == AuthMode::KeychainSecret,
                remote_path,
                profile_input,
            },
        )
    }

    /// Saves the connection that was made. The number that it is saved under, if it can
    /// be.
    fn save_connection(&mut self, input: &ConnectionProfileInput, now: i64) -> (id: Option<i64>)
        requires
            old(self).wf(),
        ensures
            final(self).wf(),
            final(self)@ == connection_saved(old(self)@, input@, now),
            id == match old(self)@.db {
                Some(db) => if can_save(db, input@) {
                    Some(saved_id(db, input@))
                } else {
                    None
                },
                None => None,
            },
    {
        let mut db = match self.db.take() {
            Some(db) => db,
            None => {
                return None;
            },
        };
        let id = match db.upsert_connection_profile(input, now) {
            Ok(profile) => {
                match self.pending_host_key_fingerprint.take() {
                    Some(fingerprint) => {
                        db.record_host_key_verification(profile.id, fingerprint.as_str(), now);
                    },
                    None => {},
                }
                Some(profile.id)
            },
            Err(_) => None,
        };
        self.db = Some(db);
        id
    }

    /// Notes that the attempt succeeded.
    pub fn connected(&mut self, plan: &ConnectPlan, now: i64) -> (outcome: ConnectOutcome)
        requires
            old(self).wf(),
        ensures
            final(self).wf(),
            final(self)@ == attempt_succeeded(old(self)@, plan.profile_input@, now),
            text::optional(outcome.event.remote_path) == Some(plan.remote_path@),
            outcome.event.connection_profile_id == saved_as(old(self)@.db, plan.profile_input@),
            outcome.credentials@ == credentials_after(
                plan.profile_input@.auth_mode,
                old(self)@.pending_secret,
            ),
    {
        let connection_profile_id = self.save_connection(&plan.profile_input, now);
        self.reload_recent_connections();
        let credentials = if plan.profile_input.auth_mode == AuthMode::KeychainSecret {
            match self.pending_secret_for_save.take() {
                Some(secret) => CredentialAction::Write(secret),
                None => CredentialAction::Keep,
            }
        } else {
            CredentialAction::Delete
        };
        self.state = ConnectionState::Connected;
        self.status_message = Some("Connected!".to_owned());
        self.connecting = false;
        ConnectOutcome {
            credentials,
            event: ConnectionSucceeded {
                remote_path: Some(plan.remote_path.clone()),
                connection_profile_id,
            },
        }
    }

    /// Notes that the attempt failed.
    pub fn connection_failed(&mut self, message: String)
        requires
            old(self).wf(),
        ensures
            final(self).wf(),
            final(self)@ == attempt_failed(old(self)@, message@),
    {
        self.state = ConnectionState::Error(message);
        self.status_message = None;
        self.pending_host_key_fingerprint = None;
        self.connecting = false;
    }
}

/// The screen once the trust in a host key is asked for.
pub open spec fn host_key_asked(screen: ScreenView, challenge: ChallengeView) -> ScreenView {
    ScreenView { state: StateView::WaitingForHostKey(challenge), host_key_waiting: true, ..screen }
}

/// The screen once a password is asked for.
pub open spec fn password_asked(screen: ScreenView, prompt: Seq<char>) -> ScreenView {
    ScreenView {
        state: StateView::WaitingForPassword(prompt),
        password_waiting: true,
        password: text_input::with_text(screen.password, Seq::empty()),
        ..screen
    }
}

/// The screen once the host key was trusted.
pub open spec fn host_key_trusted(screen: ScreenView) -> ScreenView {
    match screen.state {
        StateView::WaitingForHostKey(challenge) => if screen.host_key_waiting {
            ScreenView {
                state: StateView::Connecting,
                status: Some("Trusting host key..."@),
                pending_fingerprint: Some(challenge.fingerprint_sha256),
                host_key_waiting: false,
                ..screen
            }
        } else {
            screen
        },
        _ => ScreenView { host_key_waiting: false, ..screen },
    }
}

/// The decision that is handed on when the host key is trusted.
pub open spec fn trust_decision(screen: ScreenView) -> Option<HostKeyDecision> {
    if screen.host_key_waiting && screen.state is WaitingForHostKey {
        Some(HostKeyDecision::TrustAndSave)
    } else {
        None
    }
}

/// The decision that is handed on when the host key is rejected.
pub open spec fn reject_decision(screen: ScreenView) -> Option<HostKeyDecision> {
    if screen.host_key_waiting {
        Some(HostKeyDecision::Cancel)
    } else {
        None
    }
}

/// The password that is handed on when it is given.
pub open spec fn password_handed_on(screen: ScreenView, encrypts: bool) -> Option<Seq<char>> {
    if screen.password_waiting && encrypts {
        Some(screen.password.content)
    } else {
        None
    }
}

/// The screen once the host key was rejected.
pub open spec fn host_key_rejected(screen: ScreenView) -> ScreenView {
    if screen.host_key_waiting {
        ScreenView {
            state: StateView::Error("Host key verification was cancelled."@),
            status: None,
            pending_fingerprint: None,
            host_key_waiting: false,
            ..screen
        }
    } else {
        screen
    }
}

/// The screen once the password was given.
pub open spec fn password_submitted(screen: ScreenView, encrypts: bool) -> ScreenView {
    if !screen.password_waiting {
        screen
    } else if encrypts {
        ScreenView {
            state: StateView::Connecting,
            status: Some("Authenticating..."@),
            pending_secret: if screen.remember_secret {
                Some(screen.password.content)
            } else {
                screen.pending_secret
            },
            password_waiting: false,
            ..screen
        }
    } else {
        ScreenView {
            state: StateView::Error("Failed to process password"@),
            password_waiting: false,
            ..screen
        }
    }
}

/// The screen once the choice to remember the password was turned round.
pub open spec fn remember_toggled(screen: ScreenView) -> ScreenView {
    ScreenView {
        remember_secret: !screen.remember_secret,
        pending_secret: if screen.remember_secret {
            None
        } else {
            screen.pending_secret
        },
        ..screen
    }
}

/// The screen once a recent connection was chosen.
pub open spec fn recent_selected(screen: ScreenView, profile: ProfileView, now: i64) -> ScreenView {
    let shown = filled(screen, profile, text_or(profile.default_path, "~"@));
    match screen.db {
        Some(db) => ScreenView {
            db: Some(
                persistence::with_profile(
                    db,
                    profile.id,
                    ProfileView {
                        last_used_at: now,
                        ..persistence::profile_with_id(db, profile.id)
                    },
                ),
            ),
            ..shown
        },
        None => shown,
    }
}

/// The screen made ready for the last session.
pub open spec fn resume_prepared(screen: ScreenView, profile: ProfileView, now: i64) -> ScreenView {
    let selected = recent_selected(screen, profile, now);
    match screen.last_restore {
        Some(state) => if state.connection_profile_id == profile.id {
            ScreenView {
                remote_path: text_input::with_text(
                    selected.remote_path,
                    text_or(state.remote_path, "~"@),
                ),
                ..selected
            }
        } else {
            selected
        },
        None => selected,
    }
}

/// Whether the last session is resumed without being asked for.
pub open spec fn resumes_by_itself(screen: ScreenView, restore_last_session: bool) -> bool {
    !screen.auto_restore_attempted && restore_last_session && screen.last_profile is Some
}

/// The screen once it was seen whether the last session is resumed without being asked for.
pub open spec fn resumed_by_itself(
    screen: ScreenView,
    restore_last_session: bool,
    now: i64,
) -> ScreenView {
    let attempted = ScreenView { auto_restore_attempted: true, ..screen };
    if resumes_by_itself(screen, restore_last_session) {
        resume_prepared(
            ScreenView { status: Some("Restoring your last remote workspace..."@), ..attempted },
            screen.last_profile->0,
            now,
        )
    } else {
        attempted
    }
}

/// The screen with what is wrong with the form.
pub open spec fn form_refused(screen: ScreenView, message: Seq<char>) -> ScreenView {
    ScreenView { state: StateView::Error(message), ..screen }
}

/// The number under which a connection is saved, if it can be.
pub open spec fn saved_as(db: Option<DbView>, input: InputProfileView) -> Option<i64> {
    match db {
        Some(db) => if can_save(db, input) {
            Some(saved_id(db, input))
        } else {
            None
        },
        None => None,
    }
}

/// Whether there is a last session.
pub open spec fn has_last_session(screen: ScreenView) -> bool {
    screen.last_profile is Some
}

/// The screen made ready for the last session, if there is one.
pub open spec fn last_resumed(screen: ScreenView, now: i64) -> ScreenView {
    match screen.last_profile {
        Some(profile) => resume_prepared(screen, profile, now),
        None => screen,
    }
}

/// The screen after the button for the last session was pressed.
pub open spec fn resume_pressed(screen: ScreenView, now: i64) -> ScreenView {
    if busy(screen.state) {
        screen
    } else {
        last_resumed(screen, now)
    }
}

/// What stands on the button that connects.
pub open spec fn connect_label_of(state: StateView) -> Seq<char> {
    if busy(state) {
        "Connecting..."@
    } else {
        "Connect"@
    }
}

/// What stands on the button for the advanced options.
pub open spec fn advanced_label_of(shown: bool) -> Seq<char> {
    if shown {
        "Hide Advanced SSH Options"@
    } else {
        "Show Advanced SSH Options"@
    }
}

/// What stands on a switch.
pub open spec fn toggle_label_of(value: bool) -> Seq<char> {
    if value {
        "On"@
    } else {
        "Off"@
    }
}

/// The question for a password, while it is asked.
pub open spec fn question_in(state: StateView) -> Option<Seq<char>> {
    match state {
        StateView::WaitingForPassword(prompt) => Some(prompt),
        _ => None,
    }
}

/// Whether an attempt is on its way, so that no other one is started.
pub open spec fn busy(state: StateView) -> bool {
    state is Connecting || state is WaitingForHostKey || state is WaitingForPassword
}

impl ConnectView {
    /// Asks whether a host key is trusted.
    pub fn show_host_key_prompt(&mut self, challenge: HostKeyChallenge)
        requires
            old(self).wf(),
        ensures
            final(self).wf(),
            final(self)@ == host_key_asked(old(self)@, challenge@),
    {
        self.state = ConnectionState::WaitingForHostKey(challenge);
        self.host_key_waiting = true;
    }

    /// Trusts the host key that is asked about. The decision to hand on, if one is waited
    /// for.
    pub fn trust_host_key(&mut self) -> (decision: Option<HostKeyDecision>)
        requires
            old(self).wf(),
        ensures
            final(self).wf(),
            final(self)@ == host_key_trusted(old(self)@),
            decision == trust_decision(old(self)@),
    {
        let waiting = self.host_key_waiting;
        self.host_key_waiting = false;
        let fingerprint = match &self.state {
            ConnectionState::WaitingForHostKey(challenge) => if waiting {
                Some(challenge.fingerprint_sha256.clone())
            } else {
                None
            },
            _ => None,
        };
        if fingerprint.is_none() {
            return None;
        }
        self.pending_host_key_fingerprint = fingerprint;
        self.state = ConnectionState::Connecting;
        self.status_message = Some("Trusting host key...".to_owned());
        Some(HostKeyDecision::TrustAndSave)
    }

    /// Rejects the host key that is asked about. The decision to hand on, if one is waited
    /// for.
    pub fn reject_host_key(&mut self) -> (decision: Option<HostKeyDecision>)
        requires
            old(self).wf(),
        ensures
            final(self).wf(),
            final(self)@ == host_key_rejected(old(self)@),
            decision == reject_decision(old(self)@),
    {
        if !self.host_key_waiting {
            return None;
        }
        self.host_key_waiting = false;
        self.state = ConnectionState::Error("Host key verification was cancelled.".to_owned());
        self.status_message = None;
        self.pending_host_key_fingerprint = None;
        Some(HostKeyDecision::Cancel)
    }

    /// Asks for a password.
    pub fn show_password_prompt(&mut self, prompt: String)
        requires
            old(self).wf(),
        ensures
            final(self).wf(),
            final(self)@ == password_asked(old(self)@, prompt@),
    {
        self.state = ConnectionState::WaitingForPassword(prompt);
        self.password_waiting = true;
        self.password_input.set_text(String::new());
    }

    /// Gives the password that was typed; `encrypts` tells whether it could be encrypted.
    /// The password to hand on, if one is waited for.
    pub fn submit_password(&mut self, encrypts: bool) -> (password: Option<String>)
        requires
            old(self).wf(),
        ensures
            final(self).wf(),
            final(self)@ == password_submitted(old(self)@, encrypts),
            text::optional(password) == password_handed_on(old(self)@, encrypts),
    {
        if !self.password_waiting {
            return None;
        }
        self.password_waiting = false;
        if !encrypts {
            self.state = ConnectionState::Error("Failed to process password".to_owned());
            return None;
        }
        let password = self.password_input.text().to_owned();
        if self.remember_secret {
            self.pending_secret_for_save = Some(password.clone());
        }
        self.state = ConnectionState::Connecting;
        self.status_message = Some("Authenticating...".to_owned());
        Some(password)
    }

    /// Shows how the attempt goes on.
    pub fn set_connection_status(&mut self, status: Option<String>)
        requires
            old(self).wf(),
        ensures
            final(self).wf(),
            final(self)@ == (ScreenView { status: text::optional(status), ..old(self)@ }),
    {
        self.status_message = status;
    }

    /// Asks for the tutorial.
    pub fn show_tutorial(&self) -> (event: ShowTutorialRequested)
        ensures
            event == ShowTutorialRequested,
    {
        ShowTutorialRequested
    }

    /// Shows or hides the advanced options.
    pub fn toggle_advanced_options(&mut self)
        requires
            old(self).wf(),
        ensures
            final(self).wf(),
            final(self)@ == (ScreenView { show_advanced: !old(self)@.show_advanced, ..old(self)@ }),
    {
        self.show_advanced_options = !self.show_advanced_options;
    }

    /// Turns the choice to remember the password round.
    pub fn toggle_remember_secret(&mut self)
        requires
            old(self).wf(),
        ensures
            final(self).wf(),
            final(self)@ == remember_toggled(old(self)@),
    {
        self.remember_secret = !self.remember_secret;
        if !self.remember_secret {
            self.pending_secret_for_save = None;
        }
    }

    /// Turns the choice to upload the server round.
    pub fn toggle_upload_binary_over_ssh(&mut self)
        requires
            old(self).wf(),
        ensures
            final(self).wf(),
            final(self)@ == (ScreenView { upload_binary: !old(self)@.upload_binary, ..old(self)@ }),
    {
        self.upload_binary_over_ssh = !self.upload_binary_over_ssh;
    }

    /// Fills the form in from a recent connection, and notes that it was used.
    pub fn select_recent_connection(&mut self, connection: &ConnectionProfile, now: i64)
        requires
            old(self).wf(),
        ensures
            final(self).wf(),
            final(self)@ == recent_selected(old(self)@, connection@, now),
    {
        let path = copy_or(&connection.default_path, "~");
        self.fill_from(connection, path);
        match self.db.take() {
            Some(mut db) => {
                db.touch_connection_profile(connection.id, now);
                self.db = Some(db);
            },
            None => {},
        }
    }

    fn prepare_resume(&mut self, profile: &ConnectionProfile, now: i64)
        requires
            old(self).wf(),
        ensures
            final(self).wf(),
            final(self)@ == resume_prepared(old(self)@, profile@, now),
    {
        self.select_recent_connection(profile, now);
        let path = match &self.last_session_restore_state {
            Some(state) => if state.connection_profile_id == profile.id {
                Some(copy_or(&state.remote_path, "~"))
            } else {
                None
            },
            None => None,
        };
        match path {
            Some(path) => {
                self.remote_path_input.set_text(path);
            },
            None => {},
        }
    }

    /// Makes the screen ready for the last session; whether there is one to connect to.
    pub fn resume_last_session(&mut self, now: i64) -> (connects: bool)
        requires
            old(self).wf(),
        ensures
            final(self).wf(),
            connects == has_last_session(old(self)@),
            final(self)@ == last_resumed(old(self)@, now),
    {
        let profile = match &self.last_session_profile {
            Some(profile) => profile.duplicate(),
            None => {
                return false;
            },
        };
        self.prepare_resume(&profile, now);
        true
    }

    /// Makes the screen ready for the last session, the first time only and if the settings
    /// ask for it; whether there is one to connect to.
    pub fn maybe_resume_last_session_automatically(
        &mut self,
        restore_last_session: bool,
        now: i64,
    ) -> (connects: bool)
        requires
            old(self).wf(),
        ensures
            final(self).wf(),
            connects == resumes_by_itself(old(self)@, restore_last_session),
            final(self)@ == resumed_by_itself(old(self)@, restore_last_session, now),
    {
        if self.auto_restore_attempted {
            return false;
        }
        self.auto_restore_attempted = true;
        if !restore_last_session {
            return false;
        }
        let profile = match &self.last_session_profile {
            Some(profile) => profile.duplicate(),
            None => {
                return false;
            },
        };
        self.status_message = Some("Restoring your last remote workspace...".to_owned());
        self.prepare_resume(&profile, now);
        true
    }

    /// Lets the last session be resumed automatically once more.
    pub fn reset_auto_restore_attempt(&mut self)
        requires
            old(self).wf(),
        ensures
            final(self).wf(),
            final(self)@ == (ScreenView { auto_restore_attempted: false, ..old(self)@ }),
    {
        self.auto_restore_attempted = false;
    }

    /// Whether an attempt is on its way, so that no other one is started.
    pub fn is_busy(&self) -> (yes: bool)
        ensures
            yes == busy(self@.state),
    {
        match &self.state {
            ConnectionState::Connecting => true,
            ConnectionState::WaitingForHostKey(_) => true,
            ConnectionState::WaitingForPassword(_) => true,
            _ => false,
        }
    }
}

/// What is told of an error.
pub open spec fn friendly_error(message: Seq<char>) -> Seq<char> {
    let lower = text::ascii_lowered(message);
    if text::has_part(lower, "keychanged"@) || text::has_part(lower, "known_hosts"@) {
        "Host verification failed. Remove the outdated host key entry and reconnect."@
    } else if text::has_part(lower, "permission denied"@) || text::has_part(
        lower,
        "authentication failed"@,
    ) || text::has_part(lower, "password"@) {
        "Authentication failed. Check your username, password, or SSH key."@
    } else if text::has_part(lower, "failed to open project"@) || text::has_part(
        lower,
        "worktree"@,
    ) {
        "Connected to the server, but opening the remote workspace failed."@
    } else if text::has_part(lower, "timed out"@) || text::has_part(lower, "timeout"@) {
        "Connection timed out. Verify the host, network, and SSH port."@
    } else {
        message
    }
}

/// In what tone the status is shown.
#[derive(Clone, Copy, Debug, PartialEq, Eq, Structural)]
pub enum StatusTone {
    Error,
    Muted,
    Success,
}

/// The status line of the screen.
pub open spec fn status_line_of(screen: ScreenView) -> Option<(Seq<char>, StatusTone)> {
    match screen.state {
        StateView::Error(message) => Some((friendly_error(message), StatusTone::Error)),
        StateView::Connected => Some(("Connected!"@, StatusTone::Success)),
        _ => match screen.status {
            Some(status) => Some((status, StatusTone::Muted)),
            None => None,
        },
    }
}

/// Which parts of the screen are shown.
#[derive(Clone, Copy, Debug, PartialEq, Eq, Structural)]
pub struct ScreenParts {
    pub connection_form: bool,
    /// The fields of the form that only advanced options show.
    pub advanced_options: bool,
    pub host_key_prompt: bool,
    pub password_prompt: bool,
    pub buttons: bool,
    pub resume_button: bool,
    pub recent_connections: bool,
}

/// The parts of the screen that are shown.
pub open spec fn parts_of(screen: ScreenView) -> ScreenParts {
    let host_key = screen.state is WaitingForHostKey;
    let password = screen.state is WaitingForPassword;
    ScreenParts {
        connection_form: !host_key && !password,
        advanced_options: !host_key && !password && screen.show_advanced,
        host_key_prompt: host_key,
        password_prompt: password,
        buttons: !password,
        resume_button: !password && screen.last_profile is Some,
        recent_connections: !password && screen.recent.len() > 0,
    }
}

impl ConnectView {
    /// What is told of an error.
    pub fn friendly_error_message(message: &str) -> (result: String)
        ensures
            result@ == friendly_error(message@),
    {
        let lower = text::to_ascii_lower(message);
        let lower = lower.as_str();
        if text::contains(lower, "keychanged") || text::contains(lower, "known_hosts") {
            "Host verification failed. Remove the outdated host key entry and reconnect.".to_owned()
        } else if text::contains(lower, "permission denied") || text::contains(
            lower,
            "authentication failed",
        ) || text::contains(lower, "password") {
            "Authentication failed. Check your username, password, or SSH key.".to_owned()
        } else if text::contains(lower, "failed to open project") || text::contains(
            lower,
            "worktree",
        ) {
            "Connected to the server, but opening the remote workspace failed.".to_owned()
        } else if text::contains(lower, "timed out") || text::contains(lower, "timeout") {
            "Connection timed out. Verify the host, network, and SSH port.".to_owned()
        } else {
            message.to_owned()
        }
    }

    /// The status line, with its tone.
    pub fn status_line(&self) -> (line: Option<(String, StatusTone)>)
        ensures
            match (line, status_line_of(self@)) {
                (Some((shown, tone)), Some((expected, expected_tone))) => shown@ == expected
                    && tone == expected_tone,
                (None, None) => true,
                _ => false,
            },
    {
        match &self.state {
            ConnectionState::Error(message) => Some(
                (Self::friendly_error_message(message.as_str()), StatusTone::Error),
            ),
            ConnectionState::Connected => Some(("Connected!".to_owned(), StatusTone::Success)),
            _ => match &self.status_message {
                Some(status) => Some((status.clone(), StatusTone::Muted)),
                None => None,
            },
        }
    }

    /// Which parts of the screen are shown.
    pub fn visible_parts(&self) -> (parts: ScreenParts)
        ensures
            parts == parts_of(self@),
    {
        let host_key = match &self.state {
            ConnectionState::WaitingForHostKey(_) => true,
            _ => false,
        };
        let password = match &self.state {
            ConnectionState::WaitingForPassword(_) => true,
            _ => false,
        };
        ScreenParts {
            connection_form: !host_key && !password,
            advanced_options: !host_key && !password && self.show_advanced_options,
            host_key_prompt: host_key,
            password_prompt: password,
            buttons: !password,
            resume_button: !password && self.last_session_profile.is_some(),
            recent_connections: !password && self.recent_connections.len() > 0,
        }
    }

    /// What stands on the button that connects.
    pub fn connect_label(&self) -> (label: &'static str)
        ensures
            label@ == connect_label_of(self@.state),
    {
        if self.is_busy() {
            "Connecting..."
        } else {
            "Connect"
        }
    }

    /// What stands on the button for the advanced options.
    pub fn advanced_options_label(&self) -> (label: &'static str)
        ensures
            label@ == advanced_label_of(self@.show_advanced),
    {
        if self.show_advanced_options {
            "Hide Advanced SSH Options"
        } else {
            "Show Advanced SSH Options"
        }
    }
}

/// The line on a recent connection: its name, and the path that is opened.
pub open spec fn recent_line(profile: ProfileView) -> (Seq<char>, Seq<char>) {
    (
        persistence::display_name_of(
            profile.nickname,
            profile.username,
            profile.hostname,
            profile.port,
        ),
        text_or(profile.default_path, "~"@),
    )
}

impl ConnectView {
    /// Takes note that the button that connects was pressed: nothing happens while an attempt is
    /// on its way.
    pub fn press_connect(&mut self, words: Option<Vec<String>>, app_version: &str) -> (plan: Option<
        ConnectPlan,
    >)
        requires
            old(self).wf(),
        ensures
            final(self).wf(),
            if busy(old(self)@.state) {
                plan is None && final(self)@ == old(self)@
            } else {
                match profile_in_form(old(self)@, connect_form::words_of(words), app_version@) {
                    Ok(input) => {
                        &&& plan is Some
                        &&& is_plan_for(plan->0, input)
                        &&& final(self)@ == attempt_started(old(self)@)
                    },
                    Err(message) => {
                        &&& plan is None
                        &&& final(self)@ == form_refused(old(self)@, message)
                    },
                }
            },
    {
        if self.is_busy() {
            None
        } else {
            self.connect(words, app_version)
        }
    }

    /// Takes note that the button for the last session was pressed: nothing happens while an
    /// attempt is on its way. Whether there is a session to connect to.
    pub fn press_resume(&mut self, now: i64) -> (connects: bool)
        requires
            old(self).wf(),
        ensures
            final(self).wf(),
            connects == (!busy(old(self)@.state) && has_last_session(old(self)@)),
            final(self)@ == resume_pressed(old(self)@, now),
    {
        if self.is_busy() {
            false
        } else {
            self.resume_last_session(now)
        }
    }

    /// What is shown of the host key that has to be decided on, while it is.
    pub fn host_key_prompt(&self) -> (prompt: Option<HostKeyPrompt>)
        ensures
            match self@.state {
                StateView::WaitingForHostKey(challenge) => prompt is Some
                    && host_key::is_prompt_for(prompt->0, challenge),
                _ => prompt is None,
            },
    {
        match &self.state {
            ConnectionState::WaitingForHostKey(challenge) => Some(
                host_key::host_key_prompt(challenge),
            ),
            _ => None,
        }
    }

    /// The question for a password, while it is asked.
    pub fn password_prompt(&self) -> (prompt: Option<String>)
        ensures
            text::optional(prompt) == question_in(self@.state),
    {
        match &self.state {
            ConnectionState::WaitingForPassword(prompt) => Some(prompt.clone()),
            _ => None,
        }
    }

    /// The lines on the recent connections.
    pub fn recent_lines(&self) -> (lines: Vec<(String, String)>)
        ensures
            lines@.len() == self@.recent.len(),
            forall|i: int|
                0 <= i < lines@.len() ==> ((#[trigger] lines@[i]).0@, lines@[i].1@) == recent_line(
                    self@.recent[i],
                ),
    {
        let mut lines: Vec<(String, String)> = Vec::new();
        let mut i: usize = 0;
        while i < self.recent_connections.len()
            invariant
                i <= self.recent_connections@.len(),
                lines@.len() == i,
                forall|k: int|
                    0 <= k < i ==> ((#[trigger] lines@[k]).0@, lines@[k].1@) == recent_line(
                        self@.recent[k],
                    ),
            decreases self.recent_connections@.len() - i,
        {
            let profile = &self.recent_connections[i];
            let path = match &profile.default_path {
                Some(path) => path.clone(),
                None => "~".to_owned(),
            };
            lines.push((profile.display_name(), path));
            i = i + 1;
        }
        lines
    }
}

/// What stands on a switch.
pub fn toggle_label(value: bool) -> (label: &'static str)
    ensures
        label@ == toggle_label_of(value),
{
    if value {
        "On"
    } else {
        "Off"
    }
}

/// The password in the bytes that the key chain holds, if they are a text.
pub open spec fn password_in(secret: Option<Seq<u8>>, encrypts: bool) -> Option<Seq<char>> {
    match secret {
        Some(bytes) => if encrypts && vstd::utf8::valid_utf8(bytes) {
            Some(vstd::utf8::decode_utf8(bytes))
        } else {
            None
        },
        None => None,
    }
}

/// The password in the bytes that the key chain holds, if they are a text. `encrypts` tells
/// whether it could be encrypted for use.
pub fn saved_password(secret: Option<Vec<u8>>, encrypts: bool) -> (password: Option<String>)
    ensures
        text::optional(password) == password_in(
            match secret {
                Some(bytes) => Some(bytes@),
                None => None,
            },
            encrypts,
        ),
{
    match secret {
        Some(bytes) => match text::text_from_utf8(bytes) {
            Some(password) => if encrypts {
                Some(password)
            } else {
                None
            },
            None => None,
        },
        None => None,
    }
}

/// A password that is not to be remembered is not saved: once the choice is turned off, no
/// secret is left to be saved, and one that is typed afterwards is not kept either.
pub proof fn law_unwanted_secret_is_not_kept(screen: ScreenView, encrypts: bool)
    requires
        screen.remember_secret,
    ensures
        remember_toggled(screen).pending_secret is None,
        password_submitted(remember_toggled(screen), encrypts).pending_secret is None,
{
}

/// The host key that the user trusted is the one that is noted with the connection.
pub proof fn law_trusted_key_is_noted(
    screen: ScreenView,
    challenge: ChallengeView,
    input: InputProfileView,
    now: i64,
)
    requires
        screen_wf(screen),
        screen.db is Some,
        can_save(screen.db->0, input),
    ensures
        ({
            let trusted = host_key_trusted(host_key_asked(screen, challenge));
            let db = attempt_succeeded(trusted, input, now).db->0;
            let saved = persistence::profile_with_id(db, saved_id(screen.db->0, input));
            saved.host_key_fingerprint == Some(challenge.fingerprint_sha256)
                && saved.host_key_verified_at == Some(now)
        }),
{
    let db = screen.db->0;
    let id = saved_id(db, input);
    persistence::law_saved_connection_is_found(db, input, now);
    let saved = persistence::upserted(db, input, now);
    let changed = ProfileView {
        host_key_fingerprint: Some(challenge.fingerprint_sha256),
        host_key_verified_at: Some(now),
        ..persistence::profile_with_id(saved, id)
    };
    persistence::law_noted_change_is_read_back(saved, id, changed);
}

/// A failed attempt leaves nothing behind that a later one would save: no trusted host key,
/// and the connections as they were.
pub proof fn law_failure_saves_nothing(screen: ScreenView, message: Seq<char>)
    ensures
        attempt_failed(screen, message).pending_fingerprint is None,
        attempt_failed(screen, message).db == screen.db,
        !busy(attempt_failed(screen, message).state),
{
}

/// A session is resumed where it was: with the connection that it belongs to, and in the path that
/// was saved with it.
pub proof fn law_session_is_resumed_where_it_was(
    screen: ScreenView,
    profile: ProfileView,
    now: i64,
)
    requires
        screen.last_restore matches Some(state) && state.connection_profile_id == profile.id
            && state.remote_path is Some,
    ensures
        ({
            let path = screen.last_restore->0.remote_path->0;
            let resumed = resume_prepared(screen, profile, now);
            &&& resumed.remote_path.content == path
            &&& !text::is_blank(path) ==> path_in_form(resumed) == text::trimmed(path)
            &&& resumed.hostname.content == profile.hostname
            &&& resumed.username.content == profile.username
            &&& resumed.port.content == text::decimal(profile.port as nat)
            &&& resumed.remember_secret <==> profile.auth_mode == AuthMode::KeychainSecret
            &&& resumed.upload_binary == profile.upload_binary_over_ssh
        }),
{
}

/// Choosing a connection fills the form in with what is saved of it, and opens the path that it
/// has; a session of another connection has no say in it.
pub proof fn law_other_sessions_have_no_say(screen: ScreenView, profile: ProfileView, now: i64)
    requires
        screen.last_restore matches Some(state) ==> state.connection_profile_id != profile.id,
    ensures
        resume_prepared(screen, profile, now) == recent_selected(screen, profile, now),
        recent_selected(screen, profile, now).hostname.content == profile.hostname,
        recent_selected(screen, profile, now).username.content == profile.username,
        profile.default_path matches Some(path) ==> recent_selected(
            screen,
            profile,
            now,
        ).remote_path.content == path,
        profile.default_path is None ==> path_in_form(recent_selected(screen, profile, now)) == "~"@,
{
    reveal_strlit("~");
    assert("~"@ =~= seq!['~']);
    text::lemma_trimmed_with_space("~"@);
}

/// A form that was filled in from a saved connection tells that connection again: the same host,
/// user, port, name, arguments, forwarded ports and choices, and the path that is opened.
pub proof fn law_filled_form_tells_the_connection(
    screen: ScreenView,
    profile: ProfileView,
    path: Seq<char>,
    app_version: Seq<char>,
)
    requires
        !text::is_blank(profile.hostname),
        !text::is_blank(profile.username),
        forall|i: int|
            0 <= i < profile.port_forwards.len() ==> connect_form::is_writable(
                #[trigger] profile.port_forwards[i],
            ),
    ensures
        ({
            let told = profile_in_form(
                filled(screen, profile, path),
                Some(profile.ssh_args),
                app_version,
            );
            let input = told->Ok_0;
            &&& told is Ok
            &&& input.hostname == text::trimmed(profile.hostname)
            &&& input.username == text::trimmed(profile.username)
            &&& input.port == profile.port
            &&& profile.nickname is Some && !text::is_blank(profile.nickname->0) ==> input.nickname
                == Some(text::trimmed(profile.nickname->0))
            &&& profile.nickname is None ==> input.nickname is None
            &&& !text::is_blank(path) ==> input.default_path == Some(text::trimmed(path))
            &&& input.last_opened_worktree == input.default_path
            &&& !text::is_blank(text::joined(profile.ssh_args, " "@)) ==> input.ssh_args
                == profile.ssh_args
            &&& input.port_forwards == profile.port_forwards
            &&& input.upload_binary_over_ssh == profile.upload_binary_over_ssh
            &&& input.auth_mode == AuthMode::KeychainSecret <==> profile.auth_mode
                == AuthMode::KeychainSecret
            &&& input.last_successful_server_version == Some(app_version)
        }),
{
    text::lemma_decimal_parses_back(profile.port as nat);
    connect_form::law_forwards_read_back(profile.port_forwards);
    lemma_nothing_is_trimmed();
}

proof fn lemma_nothing_is_trimmed()
    ensures
        text::trimmed(Seq::<char>::empty()) == Seq::<char>::empty(),
{
}

/// The form is refused exactly if it tells no host, no user, or no port, in this order, and the
/// message says which.
pub proof fn law_form_needs_host_user_and_port(screen: ScreenView)
    ensures
        form_error(screen) is None <==> !text::is_blank(screen.hostname.content) && !text::is_blank(
            screen.username.content,
        ) && text::parsed_number(screen.port.content, 0xffff) is Some,
        form_error(screen) == Some("Hostname is required"@) <==> text::is_blank(
            screen.hostname.content,
        ),
        form_error(screen) == Some("Username is required"@) <==> !text::is_blank(
            screen.hostname.content,
        ) && text::is_blank(screen.username.content),
{
    reveal_strlit("Hostname is required");
    reveal_strlit("Username is required");
    reveal_strlit("Invalid port number");
    assert("Hostname is required"@[0] == 'H');
    assert("Username is required"@[0] == 'U');
    assert("Invalid port number"@[0] == 'I');
}

/// The plan for an attempt goes where the form goes, as whom it says and with what it asks for,
/// and looks for a saved password exactly if one is to be remembered.
pub proof fn law_plan_follows_the_form(plan: ConnectPlan, input: InputProfileView)
    requires
        is_plan_for(plan, input),
    ensures
        plan.options@.host == input.hostname,
        plan.options@.username == Some(input.username),
        plan.options@.port == Some(input.port),
        plan.options@.password is None,
        plan.options@.args == Some(input.ssh_args),
        plan.options@.nickname == input.nickname,
        plan.options@.upload_binary_over_ssh == input.upload_binary_over_ssh,
        plan.options@.port_forwards is Some <==> input.port_forwards.len() > 0,
        plan.options@.port_forwards matches Some(forwards) ==> forwards == input.port_forwards,
        plan.read_keychain <==> input.auth_mode == AuthMode::KeychainSecret,
        input.default_path matches Some(path) ==> plan.remote_path@ == path,
        plan.profile_input@ == input,
        input.hostname.len() > 0 ==> input.username.is_prefix_of(
            plan.credential_store_url@.skip(6),
        ),
{
    reveal_strlit("ssh://");
    reveal_strlit("@");
    let place = persistence::address(input.hostname, input.username, input.port);
    assert(plan.credential_store_url@.skip(6) =~= place);
    assert(place.subrange(0, input.username.len() as int) =~= input.username);
}

/// An attempt that starts leaves the form as it is and forgets a key that was trusted before; one
/// that succeeded leaves the screen connected, with the connections as they are saved now; none
/// goes on after it ended.
pub proof fn law_attempts_start_and_end(
    screen: ScreenView,
    input: InputProfileView,
    message: Seq<char>,
    now: i64,
)
    ensures
        busy(attempt_started(screen).state),
        attempt_started(screen).connecting,
        attempt_started(screen).pending_fingerprint is None,
        attempt_started(screen).hostname == screen.hostname,
        attempt_started(screen).db == screen.db,
        attempt_succeeded(screen, input, now).state is Connected,
        !attempt_succeeded(screen, input, now).connecting,
        attempt_succeeded(screen, input, now).db matches Some(db) ==> {
            &&& attempt_succeeded(screen, input, now).recent == recent_of(db)
            &&& attempt_succeeded(screen, input, now).last_restore == db.restore
        },
        input.auth_mode == AuthMode::KeychainSecret ==> attempt_succeeded(
            screen,
            input,
            now,
        ).pending_secret is None,
        attempt_failed(screen, message).state == StateView::Error(message),
        !attempt_failed(screen, message).connecting,
        attempt_failed(screen, message).hostname == screen.hostname,
{
}

/// A connection that was made can be found in the database from then on.
pub proof fn law_made_connection_is_saved(screen: ScreenView, input: InputProfileView, now: i64)
    requires
        screen_wf(screen),
        screen.db is Some,
        can_save(screen.db->0, input),
    ensures
        ({
            let db = attempt_succeeded(screen, input, now).db;
            let id = saved_id(screen.db->0, input);
            let saved = persistence::profile_with_id(db->0, id);
            &&& db is Some
            &&& persistence::index_with_id(db->0.profiles, id) is Some
            &&& saved.hostname == input.hostname
            &&& saved.username == input.username
            &&& saved.port == input.port
            &&& saved.default_path == input.default_path
            &&& saved.last_used_at == now
            &&& screen.pending_fingerprint is Some ==> saved.host_key_fingerprint
                == screen.pending_fingerprint && saved.host_key_verified_at == Some(now)
        }),
{
    let db = screen.db->0;
    let id = saved_id(db, input);
    persistence::law_saved_connection_is_found(db, input, now);
    let saved = persistence::upserted(db, input, now);
    match screen.pending_fingerprint {
        Some(fingerprint) => {
            let changed = ProfileView {
                host_key_fingerprint: Some(fingerprint),
                host_key_verified_at: Some(now),
                ..persistence::profile_with_id(saved, id)
            };
            persistence::law_noted_change_is_read_back(saved, id, changed);
        },
        None => {},
    }
}

/// A password is written to the key chain exactly if one was typed and is to be remembered, and it
/// is that one; whatever is saved is deleted exactly if it is not to be remembered.
pub proof fn law_secret_is_kept_only_if_wanted(
    screen: ScreenView,
    auth_mode: AuthMode,
    typed: Option<Seq<char>>,
)
    ensures
        credentials_after(auth_mode, typed) is Write <==> auth_mode == AuthMode::KeychainSecret
            && typed is Some,
        credentials_after(auth_mode, typed) matches CredentialView::Write(secret) ==> Some(secret)
            == typed,
        credentials_after(auth_mode, typed) is Delete <==> auth_mode != AuthMode::KeychainSecret,
        screen.remember_secret && screen.password_waiting ==> password_submitted(
            screen,
            true,
        ).pending_secret == Some(screen.password.content),
        remember_toggled(screen).remember_secret != screen.remember_secret,
        remember_toggled(remember_toggled(screen)).remember_secret == screen.remember_secret,
{
}

/// The key that is asked about is waited for; trusting it goes on with the attempt and notes that
/// key, rejecting it ends the attempt and notes none. Both are decided once.
pub proof fn law_host_key_is_decided_once(screen: ScreenView, challenge: ChallengeView)
    ensures
        ({
            let asked = host_key_asked(screen, challenge);
            let trusted = host_key_trusted(asked);
            let rejected = host_key_rejected(asked);
            &&& asked.state == StateView::WaitingForHostKey(challenge)
            &&& busy(asked.state)
            &&& trust_decision(asked) == Some(HostKeyDecision::TrustAndSave)
            &&& trusted.state is Connecting
            &&& trusted.pending_fingerprint == Some(challenge.fingerprint_sha256)
            &&& trust_decision(trusted) is None && reject_decision(trusted) is None
            &&& reject_decision(asked) == Some(HostKeyDecision::Cancel)
            &&& rejected.state is Error
            &&& rejected.pending_fingerprint is None
            &&& trust_decision(rejected) is None && reject_decision(rejected) is None
            &&& trusted.db == screen.db && rejected.db == screen.db
        }),
{
}

/// Nothing is decided on a key that nobody is asked about.
pub proof fn law_nothing_is_trusted_unasked(screen: ScreenView)
    requires
        !screen.host_key_waiting,
    ensures
        trust_decision(screen) is None,
        reject_decision(screen) is None,
        host_key_trusted(screen).pending_fingerprint == screen.pending_fingerprint,
        host_key_rejected(screen) == screen,
{
}

/// A password is asked for with an empty field; what is typed is handed on as it was typed, once,
/// and not if it could not be encrypted.
pub proof fn law_typed_password_is_handed_on(
    screen: ScreenView,
    prompt: Seq<char>,
    typed: Seq<char>,
    encrypts: bool,
)
    ensures
        ({
            let asked = password_asked(screen, prompt);
            let filled_in = ScreenView {
                password: text_input::with_text(asked.password, typed),
                ..asked
            };
            let submitted = password_submitted(filled_in, encrypts);
            &&& asked.state == StateView::WaitingForPassword(prompt)
            &&& asked.password.content.len() == 0
            &&& password_handed_on(filled_in, true) == Some(typed)
            &&& password_handed_on(filled_in, false) is None
            &&& password_handed_on(submitted, true) is None
            &&& submitted.state is Connecting <==> encrypts
            &&& submitted.state is Error <==> !encrypts
        }),
        !screen.password_waiting ==> password_handed_on(screen, encrypts) is None
            && password_submitted(screen, encrypts) == screen,
{
}

/// The last session is resumed by itself once at the most, and never if the settings do not ask
/// for it or there is none.
pub proof fn law_session_is_resumed_by_itself_once(
    screen: ScreenView,
    restore_last_session: bool,
    later: bool,
    now: i64,
)
    ensures
        ({
            let after = resumed_by_itself(screen, restore_last_session, now);
            &&& !resumes_by_itself(after, later)
            &&& resumes_by_itself(screen, restore_last_session) ==> restore_last_session
                && screen.last_profile is Some
            &&& !screen.auto_restore_attempted && screen.last_profile is Some ==> resumes_by_itself(
                screen,
                true,
            )
            &&& resumes_by_itself(screen, restore_last_session) ==> after.hostname.content
                == screen.last_profile->0.hostname
            &&& !resumes_by_itself(screen, restore_last_session) ==> after.hostname
                == screen.hostname && after.status == screen.status
        }),
{
}

/// The screen first shows the connection of the last session and the path it was in, if there is
/// one; else an empty form for the usual port.
pub proof fn law_last_session_is_shown_first(db: Option<DbView>)
    ensures
        ({
            let screen = initial_screen(db);
            &&& screen.state is Idle && !busy(screen.state)
            &&& screen.db == db
            &&& screen.last_profile matches Some(profile) ==> {
                &&& screen.hostname.content == profile.hostname
                &&& screen.username.content == profile.username
                &&& db->0.restore is Some && db->0.restore->0.remote_path is Some ==> screen.remote_path.content == db->0.restore->0.remote_path->0
            }
            &&& screen.last_profile is None ==> screen.hostname.content.len() == 0
                && text::parsed_number(screen.port.content, 0xffff) == Some(22nat)
            &&& screen.password.masked && !screen.hostname.masked
            &&& db matches Some(db) ==> screen.last_profile == last_profile_of(db)
        }),
{
    reveal_strlit("22");
    text::lemma_decimal_parses_back(22);
    reveal_with_fuel(text::digits_value, 4);
    assert(text::unsigned_digits("22"@) =~= "22"@);
}

/// The last session belongs to the connection that it was saved for.
pub proof fn law_last_session_has_its_connection(db: DbView)
    ensures
        last_profile_of(db) matches Some(profile) ==> db.restore is Some && profile.id
            == db.restore->0.connection_profile_id,
        db.restore is None ==> last_profile_of(db) is None,
        recent_of(db).len() <= RECENT_CONNECTIONS,
{
    persistence::law_recent_connections_are_sorted(db.profiles);
}

/// One part of the screen is shown at a time: the form, the question about a host key, or the
/// question for a password; while a password is asked for, no button is.
pub proof fn law_one_part_is_shown(screen: ScreenView)
    ensures
        ({
            let parts = parts_of(screen);
            &&& parts.host_key_prompt <==> screen.state is WaitingForHostKey
            &&& parts.password_prompt <==> screen.state is WaitingForPassword
            &&& parts.connection_form <==> !parts.host_key_prompt && !parts.password_prompt
            &&& parts.advanced_options <==> parts.connection_form && screen.show_advanced
            &&& parts.password_prompt ==> !parts.buttons && !parts.resume_button
                && !parts.recent_connections
            &&& parts.resume_button ==> screen.last_profile is Some
            &&& parts.recent_connections ==> screen.recent.len() > 0
            &&& !parts.password_prompt ==> parts.buttons
        }),
{
}

/// A failure is shown as one, a connection as one, and anything else as it is told; a failure of
/// no known sort is told as it is.
pub proof fn law_status_tells_what_happened(screen: ScreenView)
    ensures
        match status_line_of(screen) {
            Some((_, tone)) => {
                &&& tone is Error <==> screen.state is Error
                &&& tone is Success <==> screen.state is Connected
            },
            None => !(screen.state is Error) && !(screen.state is Connected) && screen.status
                is None,
        },
        !(screen.state is Error) && !(screen.state is Connected) && screen.status is Some
            ==> status_line_of(screen) == Some((screen.status->0, StatusTone::Muted)),
{
}

/// A failure is told by the first of the known sorts that it mentions, in any letters: a changed
/// host key before the credentials, these before the workspace, and this before the time.
pub proof fn law_failures_are_sorted(message: Seq<char>)
    ensures
        ({
            let lower = text::ascii_lowered(message);
            let key = text::has_part(lower, "keychanged"@) || text::has_part(lower, "known_hosts"@);
            let login = text::has_part(lower, "permission denied"@) || text::has_part(
                lower,
                "authentication failed"@,
            ) || text::has_part(lower, "password"@);
            let project = text::has_part(lower, "failed to open project"@) || text::has_part(
                lower,
                "worktree"@,
            );
            let time = text::has_part(lower, "timed out"@) || text::has_part(lower, "timeout"@);
            let told = friendly_error(message);
            &&& key ==> "Host verification"@.is_prefix_of(told)
            &&& !key && login ==> "Authentication failed"@.is_prefix_of(told)
            &&& !key && !login && project ==> "Connected to the server"@.is_prefix_of(told)
            &&& !key && !login && !project && time ==> "Connection timed out"@.is_prefix_of(told)
            &&& !key && !login && !project && !time ==> told == message
        }),
{
    reveal_strlit("Host verification");
    reveal_strlit("Authentication failed");
    reveal_strlit("Connected to the server");
    reveal_strlit("Connection timed out");
    reveal_strlit("Host verification failed. Remove the outdated host key entry and reconnect.");
    reveal_strlit("Authentication failed. Check your username, password, or SSH key.");
    reveal_strlit("Connected to the server, but opening the remote workspace failed.");
    reveal_strlit("Connection timed out. Verify the host, network, and SSH port.");
    assert("Host verification failed. Remove the outdated host key entry and reconnect."@.subrange(
        0,
        17,
    ) =~= "Host verification"@);
    assert("Authentication failed. Check your username, password, or SSH key."@.subrange(0, 21)
        =~= "Authentication failed"@);
    assert("Connected to the server, but opening the remote workspace failed."@.subrange(0, 23)
        =~= "Connected to the server"@);
    assert("Connection timed out. Verify the host, network, and SSH port."@.subrange(0, 20)
        =~= "Connection timed out"@);
}

/// A saved password is read back as it was written, if it can be used, and nothing else is.
pub proof fn law_saved_password_is_read_back(secret: Seq<char>, bytes: Seq<u8>, encrypts: bool)
    ensures
        password_in(Some(vstd::utf8::encode_utf8(secret)), true) == Some(secret),
        password_in(None, encrypts) is None,
        password_in(Some(bytes), false) is None,
        !vstd::utf8::valid_utf8(bytes) ==> password_in(Some(bytes), encrypts) is None,
{
    vstd::utf8::encode_utf8_valid_utf8(secret);
    vstd::utf8::encode_utf8_decode_utf8(secret);
}

/// What is wrong with the form is shown and changes nothing else of the screen.
pub proof fn law_refused_form_stays(screen: ScreenView, message: Seq<char>)
    ensures
        ({
            let after = form_refused(screen, message);
            &&& after.state == StateView::Error(message)
            &&& !busy(after.state)
            &&& ScreenView { state: screen.state, ..after } == screen
        }),
{
}

/// A connection that was made is saved under its old number if it was known, and otherwise under one
/// that no other connection has; it is found under that number.
pub proof fn law_made_connection_has_its_number(db: DbView, input: InputProfileView, i: int, now: i64)
    requires
        persistence::db_wf(db),
        0 <= i < db.profiles.len(),
        can_save(db, input),
    ensures
        saved_as(None, input) is None,
        saved_as(Some(db), input) is Some,
        persistence::is_for(db.profiles[i], input.hostname, input.username, input.port)
            <==> saved_as(Some(db), input) == Some(db.profiles[i].id),
        ({
            let after = persistence::upserted(db, input, now);
            let place = persistence::index_with_id(
                after.profiles,
                saved_as(Some(db), input)->0,
            );
            &&& place is Some
            &&& persistence::is_for(
                after.profiles[place->0],
                input.hostname,
                input.username,
                input.port,
            )
        }),
{
    persistence::law_saved_connection_is_found(db, input, now);
    let place = persistence::index_for(db.profiles, input.hostname, input.username, input.port);
    let profile = db.profiles[i];
    assert(1 <= profile.id < db.next_id);
    match place {
        Some(k) => {
            assert(persistence::is_for(
                db.profiles[k],
                input.hostname,
                input.username,
                input.port,
            ));
            if k < i {
                assert(!persistence::same_place(db.profiles[k], db.profiles[i]));
                assert(db.profiles[k].id < db.profiles[i].id);
            } else if i < k {
                assert(!persistence::same_place(db.profiles[i], db.profiles[k]));
                assert(db.profiles[i].id < db.profiles[k].id);
            }
        },
        None => {
            assert(!persistence::is_for(profile, input.hostname, input.username, input.port));
        },
    }
}

/// The button for the last session does nothing while an attempt is on its way or if there is no
/// such session, and otherwise makes the screen ready for it.
pub proof fn law_button_resumes_the_last_session(screen: ScreenView, now: i64)
    ensures
        busy(screen.state) || !has_last_session(screen) ==> resume_pressed(screen, now) == screen,
        !busy(screen.state) && has_last_session(screen) ==> {
            &&& resume_pressed(screen, now).hostname.content == screen.last_profile->0.hostname
            &&& resume_pressed(screen, now).username.content == screen.last_profile->0.username
        },
        has_last_session(screen) <==> screen.last_profile is Some,
        last_resumed(screen, now) == resume_pressed(screen, now) || busy(screen.state),
{
}

/// What stands on buttons and switches tells the two states that they have apart. The question for a
/// password is shown as it was asked, while it is.
pub proof fn law_labels_tell_the_state(state: StateView, other: StateView, prompt: Seq<char>)
    ensures
        connect_label_of(state) == connect_label_of(other) <==> (busy(state) <==> busy(other)),
        connect_label_of(StateView::Connecting) == "Connecting..."@,
        advanced_label_of(true) != advanced_label_of(false),
        advanced_label_of(true) == "Hide Advanced SSH Options"@,
        toggle_label_of(true) == "On"@,
        toggle_label_of(false) == "Off"@,
        question_in(state) is Some <==> state is WaitingForPassword,
        question_in(StateView::WaitingForPassword(prompt)) == Some(prompt),
        busy(state) <==> state is Connecting || state is WaitingForHostKey
            || state is WaitingForPassword,
{
    reveal_strlit("Connecting...");
    reveal_strlit("Connect");
    reveal_strlit("Hide Advanced SSH Options");
    reveal_strlit("Show Advanced SSH Options");
    assert("Connecting..."@.len() == 13 && "Connect"@.len() == 7);
    assert("Hide Advanced SSH Options"@[0] == 'H' && "Show Advanced SSH Options"@[0] == 'S');
}

/// A recent connection is shown under its name, with the path that it opens, or the home directory.
pub proof fn law_recent_connections_tell_their_path(profile: ProfileView)
    ensures
        profile.nickname is Some ==> recent_line(profile).0 == profile.nickname->0,
        profile.nickname is None ==> (profile.username + "@"@ + profile.hostname).is_prefix_of(
            recent_line(profile).0,
        ),
        profile.default_path is Some ==> recent_line(profile).1 == profile.default_path->0,
        profile.default_path is None ==> recent_line(profile).1 == "~"@,
{
    persistence::law_names_tell_ports_apart(
        Seq::empty(),
        profile.username,
        profile.hostname,
        profile.port,
        profile.port,
    );
}

/// The screen begins with nothing connected, asked or remembered, and with the usual port. The
/// password alone is hidden, and the form is empty unless there is a session to restore.
pub proof fn law_screen_begins_at_rest(db: Option<DbView>)
    ensures
        ({
            let screen = initial_screen(db);
            let empty = empty_screen(db);
            &&& screen.state == StateView::Idle
            &&& !busy(screen.state)
            &&& screen.status is None
            &&& screen.db == db
            &&& !screen.connecting && !screen.host_key_waiting && !screen.password_waiting
            &&& screen.pending_secret is None
            &&& screen.pending_fingerprint is None
            &&& !screen.auto_restore_attempted
            &&& screen.password.masked
            &&& !screen.hostname.masked && !screen.username.masked && !screen.port.masked
            &&& !screen.remote_path.masked
            &&& empty.port.content == "22"@
            &&& empty.hostname.content.len() == 0
            &&& empty.username.content.len() == 0
            &&& empty.password.content.len() == 0
            &&& !empty.remember_secret && !empty.upload_binary && !empty.show_advanced
            &&& screen.last_profile is None ==> screen == empty
            &&& screen.last_profile is Some ==> screen.hostname.content
                == screen.last_profile->0.hostname
            &&& db is Some ==> screen.last_restore == db->0.restore
            &&& db is None ==> screen.recent.len() == 0 && screen.last_profile is None
        }),
{
}

/// At most ten connections are shown as recent: those that were used last, the latest first, and no
/// other was used later than one of them.
pub proof fn law_recent_connections_were_used_last(db: DbView)
    ensures
        recent_of(db).len() == if db.profiles.len() < 10 {
            db.profiles.len() as int
        } else {
            10
        },
        forall|i: int, j: int|
            0 <= i < j < recent_of(db).len() ==> (#[trigger] recent_of(db)[i]).last_used_at >= (
            #[trigger] recent_of(db)[j]).last_used_at,
        forall|i: int, j: int|
            0 <= i < recent_of(db).len() <= j < persistence::by_use(db.profiles).len() ==> (
            #[trigger] recent_of(db)[i]).last_used_at >= (#[trigger] persistence::by_use(
                db.profiles,
            )[j]).last_used_at,
        recent_of(db).is_prefix_of(persistence::by_use(db.profiles)),
{
    persistence::law_recent_connections_are_sorted(db.profiles);
    let sorted = persistence::by_use(db.profiles);
    let recent = recent_of(db);
    assert(sorted.subrange(0, recent.len() as int) =~= recent);
    assert forall|i: int, j: int| 0 <= i < j < recent.len() implies (
    #[trigger] recent[i]).last_used_at >= (#[trigger] recent[j]).last_used_at by {
        assert(recent[i] == sorted[i] && recent[j] == sorted[j]);
    }
    assert forall|i: int, j: int| 0 <= i < recent.len() <= j < sorted.len() implies (
    #[trigger] recent[i]).last_used_at >= (#[trigger] sorted[j]).last_used_at by {
        assert(recent[i] == sorted[i]);
    }
}

} // verus!
