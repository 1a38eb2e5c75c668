//! Saved connections and the session to restore.
//!
//! `ConnectionDb` is the table of saved connections together with the one record that
//! tells which session to restore. A connection is known by its host, user and port;
//! its number never changes and is never given to another one.

use crate::ssh_port_forward;
use crate::ssh_port_forward::{ForwardView, SshPortForwardOption};
use crate::text;
use vstd::prelude::*;

verus! {

/// How a connection is authenticated.
#[derive(Clone, Copy, Debug, Default, PartialEq, Eq, Structural)]
pub enum AuthMode {
    #[default]
    Prompt,
    KeychainSecret,
    KeyBased,
}

/// How a way of authentication is stored.
pub open spec fn auth_mode_text(mode: AuthMode) -> Seq<char> {
    match mode {
        AuthMode::Prompt => "prompt"@,
        AuthMode::KeychainSecret => "keychain_secret"@,
        AuthMode::KeyBased => "key_based"@,
    }
}

/// What a stored way of authentication stands for: an unknown one asks for a password.
pub open spec fn auth_mode_of(value: Seq<char>) -> AuthMode {
    if value == "keychain_secret"@ {
        AuthMode::KeychainSecret
    } else if value == "key_based"@ {
        AuthMode::KeyBased
    } else {
        AuthMode::Prompt
    }
}

impl AuthMode {
    /// How the way of authentication is stored.
    pub fn as_db_value(&self) -> (value: &'static str)
        ensures
            value@ == auth_mode_text(*self),
    {
        match self {
            AuthMode::Prompt => "prompt",
            AuthMode::KeychainSecret => "keychain_secret",
            AuthMode::KeyBased => "key_based",
        }
    }

    /// What a stored way of authentication stands for.
    pub fn from_db_value(value: &str) -> (mode: Self)
        ensures
            mode == auth_mode_of(value@),
    {
        if text::same_text(value, "keychain_secret") {
            AuthMode::KeychainSecret
        } else if text::same_text(value, "key_based") {
            AuthMode::KeyBased
        } else {
            AuthMode::Prompt
        }
    }
}

/// A way of authentication that was stored is read back as it was.
pub proof fn law_auth_mode_reads_back(mode: AuthMode)
    ensures
        auth_mode_of(auth_mode_text(mode)) == mode,
{
    reveal_strlit("prompt");
    reveal_strlit("keychain_secret");
    reveal_strlit("key_based");
    assert("prompt"@.len() == 6 && "keychain_secret"@.len() == 15 && "key_based"@.len() == 9);
}

/// What the connection form tells of a connection.
#[derive(Clone, Debug, Default, PartialEq, Eq)]
pub struct ConnectionProfileInput {
    pub hostname: String,
    pub username: String,
    pub port: u16,
    pub nickname: Option<String>,
    pub default_path: Option<String>,
    pub ssh_args: Vec<String>,
    pub port_forwards: Vec<SshPortForwardOption>,
    pub auth_mode: AuthMode,
    pub upload_binary_over_ssh: bool,
    pub private_key_name: Option<String>,
    pub private_key_fingerprint: Option<String>,
    pub last_successful_server_version: Option<String>,
    pub last_opened_worktree: Option<String>,
}

/// A saved connection.
#[derive(Clone, Debug, PartialEq, Eq)]
pub struct ConnectionProfile {
    pub id: i64,
    pub hostname: String,
    pub username: String,
    pub port: u16,
    pub nickname: Option<String>,
    pub default_path: Option<String>,
    pub ssh_args: Vec<String>,
    pub port_forwards: Vec<SshPortForwardOption>,
    pub auth_mode: AuthMode,
    pub upload_binary_over_ssh: bool,
    pub private_key_name: Option<String>,
    pub private_key_fingerprint: Option<String>,
    pub last_successful_server_version: Option<String>,
    pub last_opened_worktree: Option<String>,
    pub last_session_timestamp: Option<i64>,
    pub host_key_fingerprint: Option<String>,
    pub host_key_verified_at: Option<i64>,
    pub created_at: i64,
    pub last_used_at: i64,
}

/// The session to restore.
#[derive(Clone, Debug, PartialEq, Eq)]
pub struct SessionRestoreState {
    pub connection_profile_id: i64,
    pub remote_path: Option<String>,
    pub last_opened_worktree: Option<String>,
    pub workspace_state_json: Option<String>,
    pub updated_at: i64,
}

/// What of a workspace is restored with its session.
#[derive(Clone, Debug, Default, PartialEq, Eq)]
pub struct MobileWorkspaceSnapshotV1 {
    pub version: u8,
    pub remote_path: Option<String>,
    pub last_opened_worktree: Option<String>,
    pub active_tool: Option<String>,
    pub left_sidebar_visible: bool,
    pub terminal_visible: bool,
    pub git_panel_visible: bool,
    pub agent_visible: bool,
}

/// The contents of what the connection form tells.
pub struct InputProfileView {
    pub hostname: Seq<char>,
    pub username: Seq<char>,
    pub port: u16,
    pub nickname: Option<Seq<char>>,
    pub default_path: Option<Seq<char>>,
    pub ssh_args: Seq<Seq<char>>,
    pub port_forwards: Seq<ForwardView>,
    pub auth_mode: AuthMode,
    pub upload_binary_over_ssh: bool,
    pub private_key_name: Option<Seq<char>>,
    pub private_key_fingerprint: Option<Seq<char>>,
    pub last_successful_server_version: Option<Seq<char>>,
    pub last_opened_worktree: Option<Seq<char>>,
}

/// The contents of a saved connection.
pub struct ProfileView {
    pub id: i64,
    pub hostname: Seq<char>,
    pub username: Seq<char>,
    pub port: u16,
    pub nickname: Option<Seq<char>>,
    pub default_path: Option<Seq<char>>,
    pub ssh_args: Seq<Seq<char>>,
    pub port_forwards: Seq<ForwardView>,
    pub auth_mode: AuthMode,
    pub upload_binary_over_ssh: bool,
    pub private_key_name: Option<Seq<char>>,
    pub private_key_fingerprint: Option<Seq<char>>,
    pub last_successful_server_version: Option<Seq<char>>,
    pub last_opened_worktree: Option<Seq<char>>,
    pub last_session_timestamp: Option<i64>,
    pub host_key_fingerprint: Option<Seq<char>>,
    pub host_key_verified_at: Option<i64>,
    pub created_at: i64,
    pub last_used_at: i64,
}

/// The contents of the session to restore.
pub struct RestoreView {
    pub connection_profile_id: i64,
    pub remote_path: Option<Seq<char>>,
    pub last_opened_worktree: Option<Seq<char>>,
    pub workspace_state_json: Option<Seq<char>>,
    pub updated_at: i64,
}

impl View for ConnectionProfileInput {
    type V = InputProfileView;

    open spec fn view(&self) -> InputProfileView {
        InputProfileView {
            hostname: self.hostname@,
            username: self.username@,
            port: self.port,
            nickname: text::optional(self.nickname),
            default_path: text::optional(self.default_path),
            ssh_args: text::texts(self.ssh_args@),
            port_forwards: ssh_port_forward::forwards(self.port_forwards@),
            auth_mode: self.auth_mode,
            upload_binary_over_ssh: self.upload_binary_over_ssh,
            private_key_name: text::optional(self.private_key_name),
            private_key_fingerprint: text::optional(self.private_key_fingerprint),
            last_successful_server_version: text::optional(self.last_successful_server_version),
            last_opened_worktree: text::optional(self.last_opened_worktree),
        }
    }
}

impl View for ConnectionProfile {
    type V = ProfileView;

    open spec fn view(&self) -> ProfileView {
        ProfileView {
            id: self.id,
            hostname: self.hostname@,
            username: self.username@,
            port: self.port,
            nickname: text::optional(self.nickname),
            default_path: text::optional(self.default_path),
            ssh_args: text::texts(self.ssh_args@),
            port_forwards: ssh_port_forward::forwards(self.port_forwards@),
            auth_mode: self.auth_mode,
            upload_binary_over_ssh: self.upload_binary_over_ssh,
            private_key_name: text::optional(self.private_key_name),
            private_key_fingerprint: text::optional(self.private_key_fingerprint),
            last_successful_server_version: text::optional(self.last_successful_server_version),
            last_opened_worktree: text::optional(self.last_opened_worktree),
            last_session_timestamp: self.last_session_timestamp,
            host_key_fingerprint: text::optional(self.host_key_fingerprint),
            host_key_verified_at: self.host_key_verified_at,
            created_at: self.created_at,
            last_used_at: self.last_used_at,
        }
    }
}

impl View for SessionRestoreState {
    type V = RestoreView;

    open spec fn view(&self) -> RestoreView {
        RestoreView {
            connection_profile_id: self.connection_profile_id,
            remote_path: text::optional(self.remote_path),
            last_opened_worktree: text::optional(self.last_opened_worktree),
            workspace_state_json: text::optional(self.workspace_state_json),
            updated_at: self.updated_at,
        }
    }
}

impl ConnectionProfile {
    /// A copy with the same contents.
    pub fn duplicate(&self) -> (copy: Self)
        ensures
            copy@ == self@,
    {
        ConnectionProfile {
            id: self.id,
            hostname: self.hostname.clone(),
            username: self.username.clone(),
            port: self.port,
            nickname: text::copy_optional(&self.nickname),
            default_path: text::copy_optional(&self.default_path),
            ssh_args: text::copy_texts(self.ssh_args.as_slice()),
            port_forwards: ssh_port_forward::copy_forwards(self.port_forwards.as_slice()),
            auth_mode: self.auth_mode,
            upload_binary_over_ssh: self.upload_binary_over_ssh,
            private_key_name: text::copy_optional(&self.private_key_name),
            private_key_fingerprint: text::copy_optional(&self.private_key_fingerprint),
            last_successful_server_version: text::copy_optional(&self.last_successful_server_version),
            last_opened_worktree: text::copy_optional(&self.last_opened_worktree),
            last_session_timestamp: self.last_session_timestamp,
            host_key_fingerprint: text::copy_optional(&self.host_key_fingerprint),
            host_key_verified_at: self.host_key_verified_at,
            created_at: self.created_at,
            last_used_at: self.last_used_at,
        }
    }
}

impl SessionRestoreState {
    /// A copy with the same contents.
    pub fn duplicate(&self) -> (copy: Self)
        ensures
            copy@ == self@,
    {
        SessionRestoreState {
            connection_profile_id: self.connection_profile_id,
            remote_path: text::copy_optional(&self.remote_path),
            last_opened_worktree: text::copy_optional(&self.last_opened_worktree),
            workspace_state_json: text::copy_optional(&self.workspace_state_json),
            updated_at: self.updated_at,
        }
    }
}

/// What a connection is called in lists: its nickname, or the user and the host, with
/// the port unless it is the usual one.
pub open spec fn display_name_of(
    nickname: Option<Seq<char>>,
    username: Seq<char>,
    hostname: Seq<char>,
    port: u16,
) -> Seq<char> {
    match nickname {
        Some(nickname) => nickname,
        None => if port == 22 {
            username + "@"@ + hostname
        } else {
            username + "@"@ + hostname + ":"@ + text::decimal(port as nat)
        },
    }
}

/// What a connection is called in lists.
pub fn connection_name(
    nickname: &Option<String>,
    username: &str,
    hostname: &str,
    port: u16,
) -> (name: String)
    ensures
        name@ == display_name_of(text::optional(*nickname), username@, hostname@, port),
{
    match nickname {
        Some(nickname) => nickname.clone(),
        None => {
            let mut name = username.to_owned();
            name.append("@");
            name.append(hostname);
            if port != 22 {
                name.append(":");
                name.append(text::format_decimal(port as u64).as_str());
            }
            name
        },
    }
}

impl ConnectionProfile {
    /// What the connection is called in lists.
    pub fn display_name(&self) -> (name: String)
        ensures
            name@ == display_name_of(self@.nickname, self@.username, self@.hostname, self@.port),
    {
        connection_name(&self.nickname, self.username.as_str(), self.hostname.as_str(), self.port)
    }
}

impl MobileWorkspaceSnapshotV1 {
    pub const VERSION: u8 = 1;

    /// The workspace as it looks when it is first opened: only the left sidebar shows.
    pub fn new(
        remote_path: Option<String>,
        last_opened_worktree: Option<String>,
    ) -> (snapshot: Self)
        ensures
            snapshot.version == 1,
            snapshot.remote_path == remote_path,
            snapshot.last_opened_worktree == last_opened_worktree,
            snapshot.active_tool is None,
            snapshot.left_sidebar_visible,
            !snapshot.terminal_visible,
            !snapshot.git_panel_visible,
            !snapshot.agent_visible,
    {
        MobileWorkspaceSnapshotV1 {
            version: 1,
            remote_path,
            last_opened_worktree,
            active_tool: None,
            left_sidebar_visible: true,
            terminal_visible: false,
            git_panel_visible: false,
            agent_visible: false,
        }
    }
}

/// The address of a connection, as `user@host:port`.
pub open spec fn address(hostname: Seq<char>, username: Seq<char>, port: u16) -> Seq<char> {
    username + "@"@ + hostname + ":"@ + text::decimal(port as nat)
}

fn address_text(hostname: &str, username: &str, port: u16) -> (result: String)
    ensures
        result@ == address(hostname@, username@, port),
{
    let mut result = username.to_owned();
    result.append("@");
    result.append(hostname);
    result.append(":");
    result.append(text::format_decimal(port as u64).as_str());
    result
}

/// Under what name the password of a connection is kept.
pub fn credential_url(hostname: &str, username: &str, port: u16) -> (url: String)
    ensures
        url@ == "ssh://"@ + address(hostname@, username@, port),
{
    text::concat("ssh://", address_text(hostname, username, port).as_str())
}

/// Under what name the private key of a connection is kept.
pub fn private_key_credential_url(hostname: &str, username: &str, port: u16) -> (url: String)
    ensures
        url@ == "ssh-key://"@ + address(hostname@, username@, port) + "/private-key"@,
{
    let mut url = text::concat("ssh-key://", address_text(hostname, username, port).as_str());
    url.append("/private-key");
    url
}

/// Under what name the passphrase of a connection's private key is kept.
pub fn private_key_passphrase_url(hostname: &str, username: &str, port: u16) -> (url: String)
    ensures
        url@ == "ssh-key://"@ + address(hostname@, username@, port) + "/passphrase"@,
{
    let mut url = text::concat("ssh-key://", address_text(hostname, username, port).as_str());
    url.append("/passphrase");
    url
}

/// Secrets of different sorts are never kept under the same name, of whichever connections they
/// are.
pub proof fn law_secrets_are_kept_apart(
    hostname: Seq<char>,
    username: Seq<char>,
    port: u16,
    other_hostname: Seq<char>,
    other_username: Seq<char>,
    other_port: u16,
)
    ensures
        ({
            let place = address(hostname, username, port);
            let other = address(other_hostname, other_username, other_port);
            &&& "ssh://"@ + place != "ssh-key://"@ + other + "/private-key"@
            &&& "ssh://"@ + place != "ssh-key://"@ + other + "/passphrase"@
            &&& "ssh-key://"@ + place + "/private-key"@ != "ssh-key://"@ + other + "/passphrase"@
        }),
{
    let place = address(hostname, username, port);
    let other = address(other_hostname, other_username, other_port);
    let password = "ssh://"@ + place;
    let key = "ssh-key://"@ + place + "/private-key"@;
    let other_key = "ssh-key://"@ + other + "/private-key"@;
    let other_passphrase = "ssh-key://"@ + other + "/passphrase"@;
    reveal_strlit("ssh://");
    reveal_strlit("ssh-key://");
    reveal_strlit("/private-key");
    reveal_strlit("/passphrase");
    assert(password[3] == ':');
    assert(other_key[3] == '-' && other_passphrase[3] == '-');
    assert(key.last() == 'y');
    assert(other_passphrase.last() == 'e');
}

/// `SystemTime::elapsed` tells how much time has passed since the start of the Unix epoch, here
/// in whole seconds; nothing if the clock stands before it. Nothing is said of how many.
#[verifier::external_body]
fn seconds_since_epoch() -> (elapsed: Option<u64>) {
    std::time::UNIX_EPOCH.elapsed().map(|elapsed| elapsed.as_secs()).ok()
}

/// A time in seconds, as it is stored; 0 for a time before the epoch.
pub open spec fn timestamp_value(elapsed: Option<u64>) -> int {
    match elapsed {
        Some(seconds) => if seconds <= i64::MAX {
            seconds as int
        } else {
            seconds - 0x1_0000_0000_0000_0000
        },
        None => 0,
    }
}

/// A time in seconds, as it is stored; 0 for a time before the epoch.
pub fn timestamp_of(elapsed: Option<u64>) -> (timestamp: i64)
    ensures
        timestamp == timestamp_value(elapsed),
{
    match elapsed {
        Some(seconds) => if seconds <= i64::MAX as u64 {
            seconds as i64
        } else {
            (seconds as i128 - 0x1_0000_0000_0000_0000) as i64
        },
        None => 0,
    }
}

/// The time now, as it is stored.
pub fn current_timestamp() -> (timestamp: i64)
    ensures
        exists|elapsed: Option<u64>| timestamp == timestamp_value(elapsed),
{
    let elapsed = seconds_since_epoch();
    timestamp_of(elapsed)
}

/// A list of texts in JSON.
pub uninterp spec fn json_of_texts(list: Seq<Seq<char>>) -> Seq<char>;

/// The list of texts that a JSON text holds, if it holds one.
pub uninterp spec fn texts_of_json(raw: Seq<char>) -> Option<Seq<Seq<char>>>;

/// `serde_json::to_string` on a list of strings. What it writes, `serde_json::from_str`
/// reads back as the same list.
#[verifier::external_body]
fn texts_to_json(list: &[String]) -> (result: Option<String>)
    ensures
        result is Some,
        result->0@ == json_of_texts(text::texts(list@)),
        texts_of_json(result->0@) == Some(text::texts(list@)),
{
    serde_json::to_string(list).ok()
}

/// `serde_json::from_str` into a list of strings; nothing if it fails.
#[verifier::external_body]
fn texts_from_json(raw: &str) -> (result: Option<Vec<String>>)
    ensures
        match result {
            Some(list) => texts_of_json(raw@) == Some(text::texts(list@)),
            None => texts_of_json(raw@) is None,
        },
{
    serde_json::from_str(raw).ok()
}

/// How a list of texts is stored: not at all if it is empty, else in JSON.
pub open spec fn stored_texts(list: Seq<Seq<char>>) -> Option<Seq<char>> {
    if list.len() == 0 {
        None
    } else {
        Some(json_of_texts(list))
    }
}

/// The list of texts that was stored; nothing if what was stored is not one.
pub open spec fn loaded_texts(raw: Option<Seq<char>>) -> Option<Seq<Seq<char>>> {
    match raw {
        Some(raw) => texts_of_json(raw),
        None => Some(Seq::empty()),
    }
}

/// How a list of texts is stored: not at all if it is empty, else in JSON. What is
/// stored is read back as the same list.
pub fn serialize_texts(list: &[String]) -> (raw: Option<String>)
    ensures
        text::optional(raw) == stored_texts(text::texts(list@)),
        loaded_texts(text::optional(raw)) == Some(text::texts(list@)),
{
    if list.len() == 0 {
        assert(text::texts(list@) =~= Seq::empty());
        None
    } else {
        texts_to_json(list)
    }
}

/// The list of texts that was stored.
pub fn deserialize_texts(raw: &Option<String>) -> (result: Result<Vec<String>, String>)
    ensures
        match result {
            Ok(list) => loaded_texts(text::optional(*raw)) == Some(text::texts(list@)),
            Err(message) => loaded_texts(text::optional(*raw)) is None && message@
                == "Failed to deserialize JSON column"@,
        },
{
    match raw {
        Some(raw) => match texts_from_json(raw.as_str()) {
            Some(list) => Ok(list),
            None => Err("Failed to deserialize JSON column".to_owned()),
        },
        None => {
            let list: Vec<String> = Vec::new();
            assert(text::texts(list@) =~= Seq::empty());
            Ok(list)
        },
    }
}

/// The port in a stored number: its lowest 16 bits.
pub open spec fn port_of_column(value: i64) -> int {
    value as int % 65536
}

/// The port in a stored number: its lowest 16 bits.
pub fn port_from_column(value: i64) -> (port: u16)
    ensures
        port == port_of_column(value),
{
    let wide: i128 = value as i128 + 0x1_0000_0000_0000_0000;
    (wide % 65536) as u16
}

/// The way of authentication in a column that may be empty.
pub fn auth_mode_from_column(value: &Option<String>) -> (mode: AuthMode)
    ensures
        mode == match text::optional(*value) {
            Some(value) => auth_mode_of(value),
            None => AuthMode::Prompt,
        },
{
    match value {
        Some(value) => AuthMode::from_db_value(value.as_str()),
        None => AuthMode::Prompt,
    }
}

/// The flag in a stored number.
pub fn flag_from_column(value: i64) -> (flag: bool)
    ensures
        flag == (value != 0),
{
    value != 0
}

/// The saved connections and the session to restore.
pub struct ConnectionDb {
    pub profiles: Vec<ConnectionProfile>,
    pub next_id: i64,
    pub restore: Option<SessionRestoreState>,
}

/// The contents of the database.
pub struct DbView {
    pub profiles: Seq<ProfileView>,
    pub next_id: int,
    pub restore: Option<RestoreView>,
}

/// The contents of a list of saved connections.
pub open spec fn profile_views(list: Seq<ConnectionProfile>) -> Seq<ProfileView> {
    list.map_values(|profile: ConnectionProfile| profile@)
}

impl View for ConnectionDb {
    type V = DbView;

    open spec fn view(&self) -> DbView {
        DbView {
            profiles: profile_views(self.profiles@),
            next_id: self.next_id as int,
            restore: match self.restore {
                Some(state) => Some(state@),
                None => None,
            },
        }
    }
}

/// Whether a saved connection is the one with a host, a user and a port.
pub open spec fn is_for(
    profile: ProfileView,
    hostname: Seq<char>,
    username: Seq<char>,
    port: u16,
) -> bool {
    profile.hostname == hostname && profile.username == username && profile.port == port
}

/// Whether two saved connections are for the same host, user and port.
pub open spec fn same_place(a: ProfileView, b: ProfileView) -> bool {
    is_for(a, b.hostname, b.username, b.port)
}

/// Where the connection for a host, a user and a port stands, if there is one.
pub open spec fn index_for(
    profiles: Seq<ProfileView>,
    hostname: Seq<char>,
    username: Seq<char>,
    port: u16,
) -> Option<int> {
    if exists|i: int|
        0 <= i < profiles.len() && is_for(#[trigger] profiles[i], hostname, username, port) {
        Some(
            choose|i: int|
                0 <= i < profiles.len() && is_for(
                    #[trigger] profiles[i],
                    hostname,
                    username,
                    port,
                ),
        )
    } else {
        None
    }
}

/// Where the connection with a number stands, if there is one.
pub open spec fn index_with_id(profiles: Seq<ProfileView>, id: i64) -> Option<int> {
    if exists|i: int| 0 <= i < profiles.len() && (#[trigger] profiles[i]).id == id {
        Some(choose|i: int| 0 <= i < profiles.len() && (#[trigger] profiles[i]).id == id)
    } else {
        None
    }
}

/// The saved connection at a place, if there is a place.
pub open spec fn profile_at(profiles: Seq<ProfileView>, index: Option<int>) -> Option<
    ProfileView,
> {
    match index {
        Some(i) => Some(profiles[i]),
        None => None,
    }
}

/// What holds of the database at all times: connections stand in the order of their
/// numbers, all of them given out already; no two are for the same host, user and port;
/// and the session to restore is one of a connection that is there.
pub open spec fn db_wf(db: DbView) -> bool {
    &&& 1 <= db.next_id <= i64::MAX
    &&& forall|i: int|
        0 <= i < db.profiles.len() ==> 1 <= (#[trigger] db.profiles[i]).id < db.next_id
    &&& forall|i: int, j: int|
        0 <= i < j < db.profiles.len() ==> (#[trigger] db.profiles[i]).id < (
        #[trigger] db.profiles[j]).id
    &&& forall|i: int, j: int|
        0 <= i < j < db.profiles.len() ==> !same_place(
            #[trigger] db.profiles[i],
            #[trigger] db.profiles[j],
        )
    &&& match db.restore {
        Some(state) => index_with_id(db.profiles, state.connection_profile_id) is Some,
        None => true,
    }
}

/// A connection that is saved for the first time.
pub open spec fn new_profile(id: int, input: InputProfileView, now: i64) -> ProfileView {
    ProfileView {
        id: id as i64,
        hostname: input.hostname,
        username: input.username,
        port: input.port,
        nickname: input.nickname,
        default_path: input.default_path,
        ssh_args: input.ssh_args,
        port_forwards: input.port_forwards,
        auth_mode: input.auth_mode,
        upload_binary_over_ssh: input.upload_binary_over_ssh,
        private_key_name: input.private_key_name,
        private_key_fingerprint: input.private_key_fingerprint,
        last_successful_server_version: input.last_successful_server_version,
        last_opened_worktree: input.last_opened_worktree,
        last_session_timestamp: None,
        host_key_fingerprint: None,
        host_key_verified_at: None,
        created_at: now,
        last_used_at: now,
    }
}

/// The newer of two values, if there is one; else the older.
pub open spec fn newer(new: Option<Seq<char>>, old: Option<Seq<char>>) -> Option<Seq<char>> {
    match new {
        Some(new) => Some(new),
        None => old,
    }
}

/// A connection that is saved again: what the form tells replaces what was there,
/// except that a server version and a worktree are kept if the form tells none.
pub open spec fn updated_profile(
    profile: ProfileView,
    input: InputProfileView,
    now: i64,
) -> ProfileView {
    ProfileView {
        nickname: input.nickname,
        default_path: input.default_path,
        ssh_args: input.ssh_args,
        port_forwards: input.port_forwards,
        auth_mode: input.auth_mode,
        upload_binary_over_ssh: input.upload_binary_over_ssh,
        private_key_name: input.private_key_name,
        private_key_fingerprint: input.private_key_fingerprint,
        last_successful_server_version: newer(
            input.last_successful_server_version,
            profile.last_successful_server_version,
        ),
        last_opened_worktree: newer(input.last_opened_worktree, profile.last_opened_worktree),
        last_used_at: now,
        ..profile
    }
}

/// The database after a connection was saved.
pub open spec fn upserted(db: DbView, input: InputProfileView, now: i64) -> DbView {
    match index_for(db.profiles, input.hostname, input.username, input.port) {
        Some(i) => DbView {
            profiles: db.profiles.update(i, updated_profile(db.profiles[i], input, now)),
            ..db
        },
        None => DbView {
            profiles: db.profiles.push(new_profile(db.next_id, input, now)),
            next_id: db.next_id + 1,
            ..db
        },
    }
}

/// The database with one connection replaced, if there is one with the number.
pub open spec fn with_profile(db: DbView, id: i64, profile: ProfileView) -> DbView {
    match index_with_id(db.profiles, id) {
        Some(i) => DbView { profiles: db.profiles.update(i, profile), ..db },
        None => db,
    }
}

/// The connection with a number; an arbitrary one if there is none.
pub open spec fn profile_with_id(db: DbView, id: i64) -> ProfileView {
    db.profiles[index_with_id(db.profiles, id)->0]
}

/// The database after the forwarded ports of a connection were replaced.
pub open spec fn ports_replaced(
    db: DbView,
    id: i64,
    port_forwards: Seq<ForwardView>,
    now: i64,
) -> DbView {
    with_profile(
        db,
        id,
        ProfileView { port_forwards, last_used_at: now, ..profile_with_id(db, id) },
    )
}

/// The database after a connection was used.
pub open spec fn touched(db: DbView, id: i64, now: i64) -> DbView {
    with_profile(db, id, ProfileView { last_used_at: now, ..profile_with_id(db, id) })
}

/// The database after the host key of a connection was verified.
pub open spec fn key_noted(db: DbView, id: i64, fingerprint: Seq<char>, now: i64) -> DbView {
    with_profile(
        db,
        id,
        ProfileView {
            host_key_fingerprint: Some(fingerprint),
            host_key_verified_at: Some(now),
            ..profile_with_id(db, id)
        },
    )
}

/// The database after a session to restore was saved.
pub open spec fn restore_saved(db: DbView, state: RestoreView) -> DbView {
    let profile = profile_with_id(db, state.connection_profile_id);
    DbView {
        restore: Some(state),
        ..with_profile(
            db,
            state.connection_profile_id,
            ProfileView {
                last_session_timestamp: Some(state.updated_at),
                last_opened_worktree: newer(
                    state.last_opened_worktree,
                    profile.last_opened_worktree,
                ),
                ..profile
            },
        )
    }
}

/// The database after a connection was deleted: the session to restore goes with it.
pub open spec fn deleted(db: DbView, id: i64) -> DbView {
    match index_with_id(db.profiles, id) {
        Some(i) => DbView {
            profiles: db.profiles.remove(i),
            restore: match db.restore {
                Some(state) => if state.connection_profile_id == id {
                    None
                } else {
                    Some(state)
                },
                None => None,
            },
            ..db
        },
        None => db,
    }
}

/// A list with one more connection in it, behind all that were used as late or later.
pub open spec fn placed_by_use(list: Seq<ProfileView>, profile: ProfileView) -> Seq<ProfileView>
    decreases list.len(),
{
    if list.len() == 0 || list.last().last_used_at >= profile.last_used_at {
        list.push(profile)
    } else {
        placed_by_use(list.drop_last(), profile).push(list.last())
    }
}

/// The connections, those used last first.
pub open spec fn by_use(profiles: Seq<ProfileView>) -> Seq<ProfileView>
    decreases profiles.len(),
{
    if profiles.len() == 0 {
        Seq::empty()
    } else {
        placed_by_use(by_use(profiles.drop_last()), profiles.last())
    }
}

proof fn lemma_index_with_id(profiles: Seq<ProfileView>, i: int)
    requires
        0 <= i < profiles.len(),
        forall|a: int, b: int|
            0 <= a < b < profiles.len() ==> (#[trigger] profiles[a]).id < (
            #[trigger] profiles[b]).id,
    ensures
        index_with_id(profiles, profiles[i].id) == Some(i),
{
    let j = index_with_id(profiles, profiles[i].id)->0;
    assert(profiles[j].id == profiles[i].id);
}

proof fn lemma_index_for(profiles: Seq<ProfileView>, i: int)
    requires
        0 <= i < profiles.len(),
        forall|a: int, b: int|
            0 <= a < b < profiles.len() ==> !same_place(
                #[trigger] profiles[a],
                #[trigger] profiles[b],
            ),
    ensures
        index_for(profiles, profiles[i].hostname, profiles[i].username, profiles[i].port) == Some(
            i,
        ),
{
    let found = index_for(profiles, profiles[i].hostname, profiles[i].username, profiles[i].port);
    assert(is_for(profiles[i], profiles[i].hostname, profiles[i].username, profiles[i].port));
    let j = found->0;
    if j < i {
        assert(!same_place(profiles[j], profiles[i]));
    } else if i < j {
        assert(!same_place(profiles[i], profiles[j]));
    }
}

/// Replacing a connection by one with the same number and place keeps the database
/// sound.
proof fn lemma_replaced_profile_wf(db: DbView, i: int, profile: ProfileView)
    requires
        db_wf(db),
        0 <= i < db.profiles.len(),
        profile.id == db.profiles[i].id,
        same_place(profile, db.profiles[i]),
    ensures
        db_wf(DbView { profiles: db.profiles.update(i, profile), ..db }),
{
    let after = db.profiles.update(i, profile);
    match db.restore {
        Some(state) => {
            let k = index_with_id(db.profiles, state.connection_profile_id)->0;
            assert(db.profiles[k].id == state.connection_profile_id);
            assert(after[k].id == state.connection_profile_id);
        },
        None => {},
    }
}

impl ConnectionDb {
    /// Whether the database is sound.
    pub open spec fn wf(self) -> bool {
        db_wf(self@)
    }

    /// An empty database.
    pub fn open_memory() -> (db: Self)
        ensures
            db.wf(),
            db@ == (DbView { profiles: Seq::empty(), next_id: 1, restore: None }),
    {
        let profiles: Vec<ConnectionProfile> = Vec::new();
        assert(profile_views(profiles@) =~= Seq::empty());
        ConnectionDb { profiles, next_id: 1, restore: None }
    }

    /// The database with what was stored of it, if that is sound.
    pub fn from_stored(
        profiles: Vec<ConnectionProfile>,
        next_id: i64,
        restore: Option<SessionRestoreState>,
    ) -> (result: Option<Self>)
        ensures
            ({
                let stored = DbView {
                    profiles: profile_views(profiles@),
                    next_id: next_id as int,
                    restore: match restore {
                        Some(state) => Some(state@),
                        None => None,
                    },
                };
                match result {
                    Some(db) => db@ == stored && db.wf(),
                    None => !db_wf(stored),
                }
            }),
    {
        let db = ConnectionDb { profiles, next_id, restore };
        if db.is_sound() {
            Some(db)
        } else {
            None
        }
    }

    /// Whether the database is sound.
    pub fn is_sound(&self) -> (yes: bool)
        ensures
            yes == self.wf(),
    {
        if self.next_id < 1 {
            return false;
        }
        let mut i: usize = 0;
        while i < self.profiles.len()
            invariant
                i <= self.profiles@.len(),
                forall|k: int|
                    0 <= k < i ==> 1 <= (#[trigger] self@.profiles[k]).id < self@.next_id,
                forall|k: int, l: int|
                    0 <= k < l < i ==> (#[trigger] self@.profiles[k]).id < (
                    #[trigger] self@.profiles[l]).id,
                forall|k: int, l: int|
                    0 <= k < l < i ==> !same_place(
                        #[trigger] self@.profiles[k],
                        #[trigger] self@.profiles[l],
                    ),
            decreases self.profiles@.len() - i,
        {
            assert(self@.profiles[i as int] == self.profiles@[i as int]@);
            let id = self.profiles[i].id;
            if id < 1 || id >= self.next_id {
                return false;
            }
            if i > 0 && self.profiles[i - 1].id >= id {
                assert(self@.profiles[i - 1] == self.profiles@[i - 1]@);
                return false;
            }
            if self.has_place_before(i) {
                return false;
            }
            assert(i > 0 ==> self@.profiles[i - 1] == self.profiles@[i - 1]@);
            i = i + 1;
        }
        match &self.restore {
            Some(state) => {
                let mut k: usize = 0;
                while k < self.profiles.len() && self.profiles[k].id != state.connection_profile_id
                    invariant
                        k <= self.profiles@.len(),
                        forall|l: int|
                            0 <= l < k ==> (#[trigger] self@.profiles[l]).id
                                != state.connection_profile_id,
                    decreases self.profiles@.len() - k,
                {
                    assert(self@.profiles[k as int] == self.profiles@[k as int]@);
                    k = k + 1;
                }
                if k == self.profiles.len() {
                    return false;
                }
                assert(self@.profiles[k as int] == self.profiles@[k as int]@);
            },
            None => {},
        }
        true
    }

    /// Whether a connection before a place is for the same host, user and port as the one there.
    fn has_place_before(&self, at: usize) -> (yes: bool)
        requires
            at < self.profiles@.len(),
        ensures
            yes == exists|k: int|
                0 <= k < at && same_place(#[trigger] self@.profiles[k], self@.profiles[at as int]),
    {
        let profile = &self.profiles[at];
        let mut k: usize = 0;
        while k < at
            invariant
                k <= at < self.profiles@.len(),
                *profile == self.profiles@[at as int],
                forall|l: int|
                    0 <= l < k ==> !same_place(
                        #[trigger] self@.profiles[l],
                        self@.profiles[at as int],
                    ),
            decreases at - k,
        {
            let other = &self.profiles[k];
            assert(self@.profiles[k as int] == other@);
            assert(self@.profiles[at as int] == profile@);
            if text::same_text(other.hostname.as_str(), profile.hostname.as_str())
                && text::same_text(other.username.as_str(), profile.username.as_str()) && other.port
                == profile.port {
                return true;
            }
            k = k + 1;
        }
        false
    }

    fn position_for(&self, hostname: &str, username: &str, port: u16) -> (position: Option<usize>)
        requires
            self.wf(),
        ensures
            match position {
                Some(i) => i < self.profiles@.len() && index_for(
                    self@.profiles,
                    hostname@,
                    username@,
                    port,
                ) == Some(i as int),
                None => index_for(self@.profiles, hostname@, username@, port) is None,
            },
    {
        let mut i: usize = 0;
        while i < self.profiles.len()
            invariant
                self.wf(),
                i <= self.profiles@.len(),
                forall|k: int|
                    0 <= k < i ==> !is_for(
                        #[trigger] self@.profiles[k],
                        hostname@,
                        username@,
                        port,
                    ),
            decreases self.profiles@.len() - i,
        {
            let profile = &self.profiles[i];
            assert(self@.profiles[i as int] == profile@);
            if text::same_text(profile.hostname.as_str(), hostname) && text::same_text(
                profile.username.as_str(),
                username,
            ) && profile.port == port {
                proof {
                    lemma_index_for(self@.profiles, i as int);
                }
                return Some(i);
            }
            i = i + 1;
        }
        None
    }

    fn position_with_id(&self, id: i64) -> (position: Option<usize>)
        requires
            self.wf(),
        ensures
            match position {
                Some(i) => i < self.profiles@.len() && index_with_id(self@.profiles, id) == Some(
                    i as int,
                ) && self.profiles@[i as int].id == id,
                None => index_with_id(self@.profiles, id) is None,
            },
    {
        let mut i: usize = 0;
        while i < self.profiles.len()
            invariant
                self.wf(),
                i <= self.profiles@.len(),
                forall|k: int| 0 <= k < i ==> (#[trigger] self@.profiles[k]).id != id,
            decreases self.profiles@.len() - i,
        {
            assert(self@.profiles[i as int] == self.profiles@[i as int]@);
            if self.profiles[i].id == id {
                proof {
                    lemma_index_with_id(self@.profiles, i as int);
                }
                return Some(i);
            }
            i = i + 1;
        }
        None
    }

    /// Replaces the connection at a place by one with the same number and place.
    fn store(&mut self, i: usize, profile: ConnectionProfile)
        requires
            old(self).wf(),
            i < old(self).profiles@.len(),
            profile@.id == old(self)@.profiles[i as int].id,
            same_place(profile@, old(self)@.profiles[i as int]),
        ensures
            final(self).wf(),
            final(self)@ == (DbView {
                profiles: old(self)@.profiles.update(i as int, profile@),
                ..old(self)@
            }),
    {
        let ghost before = self@;
        let ghost stored = profile@;
        self.profiles[i] = profile;
        proof {
            lemma_replaced_profile_wf(before, i as int, stored);
            assert(self@.profiles =~= before.profiles.update(i as int, stored));
        }
    }
}

/// What a saved connection is after it was found.
pub open spec fn found(result: Option<ConnectionProfile>) -> Option<ProfileView> {
    match result {
        Some(profile) => Some(profile@),
        None => None,
    }
}

impl ConnectionDb {
    /// Saves a connection: a new one if there is none for the host, the user and the
    /// port, else the one that is there. A new one fails only once every number has
    /// been given out.
    pub fn upsert_connection_profile(
        &mut self,
        input: &ConnectionProfileInput,
        now: i64,
    ) -> (result: Result<ConnectionProfile, String>)
        requires
            old(self).wf(),
        ensures
            final(self).wf(),
            ({
                let place = index_for(
                    old(self)@.profiles,
                    input@.hostname,
                    input@.username,
                    input@.port,
                );
                if place is None && old(self)@.next_id == i64::MAX {
                    &&& result is Err
                    &&& result->Err_0@ == "Failed to upsert connection profile"@
                    &&& final(self)@ == old(self)@
                } else {
                    &&& result is Ok
                    &&& final(self)@ == upserted(old(self)@, input@, now)
                    &&& result->Ok_0@ == match place {
                        Some(i) => updated_profile(old(self)@.profiles[i], input@, now),
                        None => new_profile(old(self)@.next_id, input@, now),
                    }
                }
            }),
    {
        match self.position_for(input.hostname.as_str(), input.username.as_str(), input.port) {
            Some(i) => {
                assert(self@.profiles[i as int] == self.profiles@[i as int]@);
                let mut profile = self.profiles[i].duplicate();
                profile.nickname = text::copy_optional(&input.nickname);
                profile.default_path = text::copy_optional(&input.default_path);
                profile.ssh_args = text::copy_texts(input.ssh_args.as_slice());
                profile.port_forwards = ssh_port_forward::copy_forwards(
                    input.port_forwards.as_slice(),
                );
                profile.auth_mode = input.auth_mode;
                profile.upload_binary_over_ssh = input.upload_binary_over_ssh;
                profile.private_key_name = text::copy_optional(&input.private_key_name);
                profile.private_key_fingerprint = text::copy_optional(
                    &input.private_key_fingerprint,
                );
                if input.last_successful_server_version.is_some() {
                    profile.last_successful_server_version = text::copy_optional(
                        &input.last_successful_server_version,
                    );
                }
                if input.last_opened_worktree.is_some() {
                    profile.last_opened_worktree = text::copy_optional(
                        &input.last_opened_worktree,
                    );
                }
                profile.last_used_at = now;
                assert(profile@ == updated_profile(self@.profiles[i as int], input@, now));
                let result = profile.duplicate();
                self.store(i, profile);
                Ok(result)
            },
            None => {
                if self.next_id == i64::MAX {
                    return Err("Failed to upsert connection profile".to_owned());
                }
                let profile = ConnectionProfile {
                    id: self.next_id,
                    hostname: input.hostname.clone(),
                    username: input.username.clone(),
                    port: input.port,
                    nickname: text::copy_optional(&input.nickname),
                    default_path: text::copy_optional(&input.default_path),
                    ssh_args: text::copy_texts(input.ssh_args.as_slice()),
                    port_forwards: ssh_port_forward::copy_forwards(
                        input.port_forwards.as_slice(),
                    ),
                    auth_mode: input.auth_mode,
                    upload_binary_over_ssh: input.upload_binary_over_ssh,
                    private_key_name: text::copy_optional(&input.private_key_name),
                    private_key_fingerprint: text::copy_optional(&input.private_key_fingerprint),
                    last_successful_server_version: text::copy_optional(
                        &input.last_successful_server_version,
                    ),
                    last_opened_worktree: text::copy_optional(&input.last_opened_worktree),
                    last_session_timestamp: None,
                    host_key_fingerprint: None,
                    host_key_verified_at: None,
                    created_at: now,
                    last_used_at: now,
                };
                let ghost before = self@;
                let ghost added = profile@;
                assert(added == new_profile(before.next_id, input@, now));
                let result = profile.duplicate();
                self.profiles.push(profile);
                self.next_id = self.next_id + 1;
                proof {
                    assert(self@.profiles =~= before.profiles.push(added));
                    lemma_pushed_profile_wf(before, added);
                }
                Ok(result)
            },
        }
    }

    /// The connections that were used last, the latest first, at most `limit` of them.
    /// Of those used at the same time, the one saved first comes first.
    pub fn recent_connection_profiles(&self, limit: usize) -> (result: Vec<ConnectionProfile>)
        ensures
            profile_views(result@) == by_use(self@.profiles).take(
                if limit <= self@.profiles.len() {
                    limit as int
                } else {
                    self@.profiles.len() as int
                },
            ),
    {
        let mut order: Vec<usize> = Vec::new();
        let mut i: usize = 0;
        let ghost all = self@.profiles;
        assert(all.take(0) =~= Seq::empty());
        assert(listed(all, order@) =~= by_use(all.take(0)));
        while i < self.profiles.len()
            invariant
                all == self@.profiles,
                i <= self.profiles@.len(),
                order@.len() == i,
                forall|k: int| 0 <= k < order@.len() ==> (#[trigger] order@[k]) < all.len(),
                listed(all, order@) == by_use(all.take(i as int)),
            decreases self.profiles@.len() - i,
        {
            let mut at: usize = order.len();
            let ghost list = listed(all, order@);
            let ghost profile = all[i as int];
            assert(list.take(at as int) =~= list);
            assert(list.skip(at as int) =~= Seq::empty());
            assert(placed_by_use(list, profile) =~= placed_by_use(list.take(at as int), profile)
                + list.skip(at as int));
            while at > 0 && self.profiles[order[at - 1]].last_used_at
                < self.profiles[i].last_used_at
                invariant
                    all == self@.profiles,
                    i < self.profiles@.len(),
                    at <= order@.len(),
                    list == listed(all, order@),
                    profile == all[i as int],
                    forall|k: int| 0 <= k < order@.len() ==> (#[trigger] order@[k]) < all.len(),
                    placed_by_use(list, profile) == placed_by_use(list.take(at as int), profile)
                        + list.skip(at as int),
                decreases at,
            {
                let ghost front = list.take(at as int);
                assert(front.last() == all[order@[at - 1] as int]);
                assert(front.drop_last() =~= list.take(at - 1));
                at = at - 1;
                assert(placed_by_use(list.take(at + 1), profile) + list.skip(at + 1)
                    =~= placed_by_use(list.take(at as int), profile) + list.skip(at as int));
            }
            proof {
                if at > 0 {
                    assert(list.take(at as int).last() == all[order@[at - 1] as int]);
                }
                assert(placed_by_use(list, profile) =~= list.take(at as int).push(profile)
                    + list.skip(at as int));
            }
            let ghost before = order@;
            order.insert(at, i);
            proof {
                assert(listed(all, order@) =~= list.take(at as int).push(profile) + list.skip(
                    at as int,
                ));
                assert(all.take(i + 1).drop_last() =~= all.take(i as int));
                assert(all.take(i + 1).last() == profile);
            }
            i = i + 1;
        }
        assert(all.take(all.len() as int) =~= all);
        let count: usize = if limit <= order.len() {
            limit
        } else {
            order.len()
        };
        let mut result: Vec<ConnectionProfile> = Vec::new();
        let mut k: usize = 0;
        while k < count
            invariant
                all == self@.profiles,
                k <= count <= order@.len(),
                forall|n: int| 0 <= n < order@.len() ==> (#[trigger] order@[n]) < all.len(),
                profile_views(result@) == listed(all, order@).take(k as int),
            decreases count - k,
        {
            let ghost before = result@;
            let copy = self.profiles[order[k]].duplicate();
            let ghost added = copy@;
            result.push(copy);
            k = k + 1;
            assert(profile_views(result@) =~= profile_views(before).push(added));
            assert(listed(all, order@).take(k as int) =~= listed(all, order@).take(k - 1).push(
                added,
            ));
        }
        result
    }

    /// The connection for a host, a user and a port.
    pub fn find_connection_profile(&self, hostname: &str, username: &str, port: u16) -> (result:
        Option<ConnectionProfile>)
        requires
            self.wf(),
        ensures
            found(result) == profile_at(
                self@.profiles,
                index_for(self@.profiles, hostname@, username@, port),
            ),
    {
        match self.position_for(hostname, username, port) {
            Some(i) => Some(self.profiles[i].duplicate()),
            None => None,
        }
    }

    /// The connection with a number.
    pub fn connection_profile_by_id(&self, id: i64) -> (result: Option<ConnectionProfile>)
        requires
            self.wf(),
        ensures
            found(result) == profile_at(self@.profiles, index_with_id(self@.profiles, id)),
    {
        match self.position_with_id(id) {
            Some(i) => Some(self.profiles[i].duplicate()),
            None => None,
        }
    }

    /// Replaces the forwarded ports of a connection.
    pub fn update_connection_profile_port_forwards(
        &mut self,
        id: i64,
        port_forwards: &[SshPortForwardOption],
        now: i64,
    ) -> (result: Option<ConnectionProfile>)
        requires
            old(self).wf(),
        ensures
            final(self).wf(),
            final(self)@ == ports_replaced(
                old(self)@,
                id,
                ssh_port_forward::forwards(port_forwards@),
                now,
            ),
            found(result) == profile_at(
                final(self)@.profiles,
                index_with_id(old(self)@.profiles, id),
            ),
    {
        match self.position_with_id(id) {
            Some(i) => {
                assert(self@.profiles[i as int] == self.profiles@[i as int]@);
                let mut profile = self.profiles[i].duplicate();
                profile.port_forwards = ssh_port_forward::copy_forwards(port_forwards);
                profile.last_used_at = now;
                let result = profile.duplicate();
                self.store(i, profile);
                Some(result)
            },
            None => None,
        }
    }

    /// Notes that a connection was used.
    pub fn touch_connection_profile(&mut self, id: i64, now: i64)
        requires
            old(self).wf(),
        ensures
            final(self).wf(),
            final(self)@ == touched(old(self)@, id, now),
    {
        match self.position_with_id(id) {
            Some(i) => {
                assert(self@.profiles[i as int] == self.profiles@[i as int]@);
                let mut profile = self.profiles[i].duplicate();
                profile.last_used_at = now;
                self.store(i, profile);
            },
            None => {},
        }
    }

    /// Notes that the host key of a connection was verified.
    pub fn record_host_key_verification(&mut self, id: i64, fingerprint: &str, now: i64)
        requires
            old(self).wf(),
        ensures
            final(self).wf(),
            final(self)@ == key_noted(old(self)@, id, fingerprint@, now),
    {
        match self.position_with_id(id) {
            Some(i) => {
                assert(self@.profiles[i as int] == self.profiles@[i as int]@);
                let mut profile = self.profiles[i].duplicate();
                profile.host_key_fingerprint = Some(fingerprint.to_owned());
                profile.host_key_verified_at = Some(now);
                self.store(i, profile);
            },
            None => {},
        }
    }

    /// The session to restore.
    pub fn load_session_restore_state(&self) -> (result: Option<SessionRestoreState>)
        ensures
            match result {
                Some(state) => self@.restore == Some(state@),
                None => self@.restore is None,
            },
    {
        match &self.restore {
            Some(state) => Some(state.duplicate()),
            None => None,
        }
    }

    /// Saves the session to restore, in place of the one before. It has to be one of a
    /// saved connection.
    pub fn save_session_restore_state(&mut self, state: &SessionRestoreState) -> (result: Result<
        (),
        String,
    >)
        requires
            old(self).wf(),
        ensures
            final(self).wf(),
            match index_with_id(old(self)@.profiles, state@.connection_profile_id) {
                Some(_) => result is Ok && final(self)@ == restore_saved(old(self)@, state@),
                None => result is Err && result->Err_0@ == "Failed to save session restore state"@
                    && final(self)@ == old(self)@,
            },
    {
        match self.position_with_id(state.connection_profile_id) {
            Some(i) => {
                assert(self@.profiles[i as int] == self.profiles@[i as int]@);
                let mut profile = self.profiles[i].duplicate();
                profile.last_session_timestamp = Some(state.updated_at);
                if state.last_opened_worktree.is_some() {
                    profile.last_opened_worktree = text::copy_optional(
                        &state.last_opened_worktree,
                    );
                }
                self.store(i, profile);
                self.restore = Some(state.duplicate());
                proof {
                    assert(self@.profiles[i as int].id == state@.connection_profile_id);
                    lemma_index_with_id(self@.profiles, i as int);
                }
                Ok(())
            },
            None => Err("Failed to save session restore state".to_owned()),
        }
    }

    /// Forgets the session to restore.
    pub fn clear_session_restore_state(&mut self)
        requires
            old(self).wf(),
        ensures
            final(self).wf(),
            final(self)@ == (DbView { restore: None, ..old(self)@ }),
    {
        self.restore = None;
    }

    /// The connection of the session to restore.
    pub fn last_session_connection_profile(&self) -> (result: Option<ConnectionProfile>)
        requires
            self.wf(),
        ensures
            found(result) == match self@.restore {
                Some(state) => profile_at(
                    self@.profiles,
                    index_with_id(self@.profiles, state.connection_profile_id),
                ),
                None => None,
            },
            result is Some <==> self@.restore is Some,
    {
        match &self.restore {
            Some(state) => self.connection_profile_by_id(state.connection_profile_id),
            None => None,
        }
    }

    /// Deletes a connection, and the session to restore if it is one of that connection.
    pub fn delete_connection_profile(&mut self, id: i64)
        requires
            old(self).wf(),
        ensures
            final(self).wf(),
            final(self)@ == deleted(old(self)@, id),
    {
        match self.position_with_id(id) {
            Some(i) => {
                let ghost before = self@;
                self.profiles.remove(i);
                let of_deleted = match &self.restore {
                    Some(state) => state.connection_profile_id == id,
                    None => false,
                };
                if of_deleted {
                    self.restore = None;
                }
                proof {
                    assert(self@.profiles =~= before.profiles.remove(i as int));
                    assert(before.profiles[i as int].id == id);
                    lemma_removed_profile_wf(before, i as int);
                }
            },
            None => {},
        }
    }
}

/// The connections at a list of places.
spec fn listed(profiles: Seq<ProfileView>, order: Seq<usize>) -> Seq<ProfileView> {
    order.map_values(|i: usize| profiles[i as int])
}

proof fn lemma_pushed_profile_wf(db: DbView, profile: ProfileView)
    requires
        db_wf(db),
        db.next_id < i64::MAX,
        profile.id == db.next_id,
        index_for(db.profiles, profile.hostname, profile.username, profile.port) is None,
    ensures
        db_wf(DbView { profiles: db.profiles.push(profile), next_id: db.next_id + 1, ..db }),
{
    let after = db.profiles.push(profile);
    assert forall|i: int, j: int| 0 <= i < j < after.len() implies !same_place(
        #[trigger] after[i],
        #[trigger] after[j],
    ) by {
        if j == db.profiles.len() {
            assert(!is_for(
                db.profiles[i],
                profile.hostname,
                profile.username,
                profile.port,
            ));
        } else {
            assert(!same_place(db.profiles[i], db.profiles[j]));
        }
    }
    match db.restore {
        Some(state) => {
            let k = index_with_id(db.profiles, state.connection_profile_id)->0;
            assert(after[k].id == state.connection_profile_id);
        },
        None => {},
    }
}

proof fn lemma_removed_profile_wf(db: DbView, i: int)
    requires
        db_wf(db),
        0 <= i < db.profiles.len(),
    ensures
        db_wf(deleted(db, db.profiles[i].id)),
        deleted(db, db.profiles[i].id).profiles == db.profiles.remove(i),
{
    lemma_index_with_id(db.profiles, i);
    let after = db.profiles.remove(i);
    assert forall|a: int, b: int| 0 <= a < b < after.len() implies !same_place(
        #[trigger] after[a],
        #[trigger] after[b],
    ) by {
        let x = if a < i {
            a
        } else {
            a + 1
        };
        let y = if b < i {
            b
        } else {
            b + 1
        };
        assert(!same_place(db.profiles[x], db.profiles[y]));
    }
    match db.restore {
        Some(state) => {
            let k = index_with_id(db.profiles, state.connection_profile_id)->0;
            assert(db.profiles[k].id == state.connection_profile_id);
            if k != i {
                let moved = if k < i {
                    k
                } else {
                    k - 1
                };
                assert(after[moved].id == state.connection_profile_id);
            }
        },
        None => {},
    }
}

/// A connection that was saved is found by its host, user and port, with what the form
/// told of it; its number and the time it was first saved never change, and the server version
/// and the worktree that were known stay if the form tells none.
pub proof fn law_saved_connection_is_found(db: DbView, input: InputProfileView, now: i64)
    requires
        db_wf(db),
        index_for(db.profiles, input.hostname, input.username, input.port) is None ==> db.next_id
            < i64::MAX,
    ensures
        db_wf(upserted(db, input, now)),
        ({
            let after = upserted(db, input, now);
            let place = index_for(
                after.profiles,
                input.hostname,
                input.username,
                input.port,
            );
            let saved = after.profiles[place->0];
            &&& place is Some
            &&& index_with_id(after.profiles, saved.id) == place
            &&& is_for(saved, input.hostname, input.username, input.port)
            &&& saved.nickname == input.nickname
            &&& saved.default_path == input.default_path
            &&& saved.ssh_args == input.ssh_args
            &&& saved.port_forwards == input.port_forwards
            &&& saved.auth_mode == input.auth_mode
            &&& saved.upload_binary_over_ssh == input.upload_binary_over_ssh
            &&& saved.private_key_name == input.private_key_name
            &&& saved.private_key_fingerprint == input.private_key_fingerprint
            &&& saved.last_used_at == now
            &&& match index_for(db.profiles, input.hostname, input.username, input.port) {
                Some(i) => {
                    let known = db.profiles[i];
                    &&& saved.id == known.id
                    &&& saved.created_at == known.created_at
                    &&& saved.last_successful_server_version == newer(
                        input.last_successful_server_version,
                        known.last_successful_server_version,
                    )
                    &&& saved.last_opened_worktree == newer(
                        input.last_opened_worktree,
                        known.last_opened_worktree,
                    )
                },
                None => {
                    &&& saved.id == db.next_id
                    &&& saved.created_at == now
                    &&& saved.last_successful_server_version == input.last_successful_server_version
                    &&& saved.last_opened_worktree == input.last_opened_worktree
                },
            }
        }),
{
    let after = upserted(db, input, now);
    match index_for(db.profiles, input.hostname, input.username, input.port) {
        Some(i) => {
            assert(is_for(db.profiles[i], input.hostname, input.username, input.port));
            let profile = updated_profile(db.profiles[i], input, now);
            lemma_replaced_profile_wf(db, i, profile);
            lemma_index_for(after.profiles, i);
            lemma_index_with_id(after.profiles, i);
        },
        None => {
            lemma_pushed_profile_wf(db, new_profile(db.next_id, input, now));
            lemma_index_for(after.profiles, db.profiles.len() as int);
            lemma_index_with_id(after.profiles, db.profiles.len() as int);
        },
    }
}

/// What is noted of a saved connection is read back under its number.
pub proof fn law_noted_change_is_read_back(db: DbView, id: i64, profile: ProfileView)
    requires
        db_wf(db),
        index_with_id(db.profiles, id) is Some,
        profile.id == id,
    ensures
        index_with_id(with_profile(db, id, profile).profiles, id) == index_with_id(
            db.profiles,
            id,
        ),
        profile_with_id(with_profile(db, id, profile), id) == profile,
{
    let i = index_with_id(db.profiles, id)->0;
    assert(db.profiles[i].id == id);
    let after = with_profile(db, id, profile);
    lemma_index_with_id(after.profiles, i);
}

/// Saving a connection changes no other one.
pub proof fn law_saving_changes_no_other(
    db: DbView,
    input: InputProfileView,
    now: i64,
    other: int,
)
    requires
        db_wf(db),
        0 <= other < db.profiles.len(),
        !is_for(db.profiles[other], input.hostname, input.username, input.port),
    ensures
        upserted(db, input, now).profiles[other] == db.profiles[other],
        upserted(db, input, now).restore == db.restore,
{
    match index_for(db.profiles, input.hostname, input.username, input.port) {
        Some(i) => {
            assert(is_for(db.profiles[i], input.hostname, input.username, input.port));
        },
        None => {},
    }
}

/// Saving the same connection again adds no second one.
pub proof fn law_saving_again_adds_nothing(
    db: DbView,
    input: InputProfileView,
    now: i64,
    later: i64,
)
    requires
        db_wf(db),
        db.next_id < i64::MAX,
    ensures
        ({
            let once = upserted(db, input, now);
            let twice = upserted(once, input, later);
            twice.profiles.len() == once.profiles.len() && twice.next_id == once.next_id
        }),
{
    law_saved_connection_is_found(db, input, now);
}

/// The session to restore that was saved last is the one that is loaded, and its
/// connection is the one of the last session.
pub proof fn law_session_is_restored(db: DbView, state: RestoreView)
    requires
        db_wf(db),
        index_with_id(db.profiles, state.connection_profile_id) is Some,
    ensures
        ({
            let after = restore_saved(db, state);
            let place = index_with_id(after.profiles, state.connection_profile_id);
            &&& after.restore == Some(state)
            &&& place is Some
            &&& after.profiles[place->0].id == state.connection_profile_id
            &&& after.profiles[place->0].hostname == profile_with_id(
                db,
                state.connection_profile_id,
            ).hostname
            &&& after.profiles[place->0].last_session_timestamp == Some(state.updated_at)
            &&& after.profiles[place->0].last_opened_worktree == newer(
                state.last_opened_worktree,
                profile_with_id(db, state.connection_profile_id).last_opened_worktree,
            )
        }),
{
    let i = index_with_id(db.profiles, state.connection_profile_id)->0;
    assert(db.profiles[i].id == state.connection_profile_id);
    let after = restore_saved(db, state);
    assert(after.profiles[i].id == state.connection_profile_id);
    lemma_index_with_id(after.profiles, i);
}

/// A deleted connection is gone, no other one is, and a session to restore is never left
/// behind without its connection.
pub proof fn law_deleting_removes_only_that_one(db: DbView, id: i64, other: i64)
    requires
        db_wf(db),
        other != id,
    ensures
        db_wf(deleted(db, id)),
        index_with_id(deleted(db, id).profiles, id) is None,
        index_with_id(deleted(db, id).profiles, other) is Some <==> index_with_id(
            db.profiles,
            other,
        ) is Some,
        deleted(db, id).restore matches Some(state) ==> state.connection_profile_id != id,
{
    let after = deleted(db, id);
    match index_with_id(db.profiles, id) {
        Some(i) => {
            assert(db.profiles[i].id == id);
            lemma_removed_profile_wf(db, i);
            if index_with_id(after.profiles, id) is Some {
                let k = index_with_id(after.profiles, id)->0;
                assert(after.profiles[k].id == id);
                let back = if k < i {
                    k
                } else {
                    k + 1
                };
                assert(db.profiles[back].id == id);
            }
            if index_with_id(db.profiles, other) is Some {
                let k = index_with_id(db.profiles, other)->0;
                assert(db.profiles[k].id == other);
                let moved = if k < i {
                    k
                } else {
                    k - 1
                };
                assert(after.profiles[moved].id == other);
            }
            if index_with_id(after.profiles, other) is Some {
                let k = index_with_id(after.profiles, other)->0;
                assert(after.profiles[k].id == other);
                let back = if k < i {
                    k
                } else {
                    k + 1
                };
                assert(db.profiles[back].id == other);
            }
        },
        None => {
            match db.restore {
                Some(state) => {
                    let k = index_with_id(db.profiles, state.connection_profile_id)->0;
                    assert(db.profiles[k].id == state.connection_profile_id);
                },
                None => {},
            }
        },
    }
}

proof fn lemma_placed_by_use(list: Seq<ProfileView>, profile: ProfileView)
    requires
        forall|i: int, j: int|
            0 <= i < j < list.len() ==> (#[trigger] list[i]).last_used_at >= (
            #[trigger] list[j]).last_used_at,
    ensures
        ({
            let placed = placed_by_use(list, profile);
            &&& placed.len() == list.len() + 1
            &&& placed.to_multiset() == list.to_multiset().insert(profile)
            &&& forall|i: int, j: int|
                0 <= i < j < placed.len() ==> (#[trigger] placed[i]).last_used_at >= (
                #[trigger] placed[j]).last_used_at
            &&& placed.last().last_used_at == if list.len() > 0 && list.last().last_used_at
                < profile.last_used_at {
                list.last().last_used_at
            } else {
                profile.last_used_at
            }
        }),
    decreases list.len(),
{
    broadcast use vstd::seq_lib::group_to_multiset_ensures;

    if list.len() == 0 || list.last().last_used_at >= profile.last_used_at {
    } else {
        let front = list.drop_last();
        lemma_placed_by_use(front, profile);
        let placed = placed_by_use(front, profile);
        assert(list =~= front.push(list.last()));
        assert(placed_by_use(list, profile).to_multiset() =~= list.to_multiset().insert(profile));
        assert forall|i: int| 0 <= i < placed.len() implies (#[trigger] placed[i]).last_used_at
            >= list.last().last_used_at by {
            assert(placed[placed.len() - 1] == placed.last());
            if front.len() > 0 {
                assert(list[front.len() - 1].last_used_at >= list[list.len() - 1].last_used_at);
            }
        }
    }
}

/// The list of recent connections has every connection exactly once, and none before
/// one that was used later.
pub proof fn law_recent_connections_are_sorted(profiles: Seq<ProfileView>)
    ensures
        by_use(profiles).len() == profiles.len(),
        by_use(profiles).to_multiset() == profiles.to_multiset(),
        forall|i: int, j: int|
            0 <= i < j < by_use(profiles).len() ==> (#[trigger] by_use(profiles)[i]).last_used_at
                >= (#[trigger] by_use(profiles)[j]).last_used_at,
    decreases profiles.len(),
{
    broadcast use vstd::seq_lib::group_to_multiset_ensures;

    if profiles.len() > 0 {
        let front = profiles.drop_last();
        law_recent_connections_are_sorted(front);
        lemma_placed_by_use(by_use(front), profiles.last());
        assert(profiles =~= front.push(profiles.last()));
    }
}

/// A row of the table of saved connections, with the forwarded ports already decoded.
#[derive(Clone, Debug, PartialEq, Eq)]
pub struct ConnectionRow {
    pub id: i64,
    pub hostname: String,
    pub username: String,
    pub port: i64,
    pub nickname: Option<String>,
    pub path: Option<String>,
    pub ssh_args_json: Option<String>,
    pub port_forwards: Vec<SshPortForwardOption>,
    pub upload_binary_over_ssh: i64,
    pub auth_mode: Option<String>,
    pub private_key_name: Option<String>,
    pub private_key_fingerprint: Option<String>,
    pub last_successful_server_version: Option<String>,
    pub last_opened_worktree: Option<String>,
    pub last_session_timestamp: Option<i64>,
    pub host_key_fingerprint: Option<String>,
    pub host_key_verified_at: Option<i64>,
    pub created_at: i64,
    pub last_used_at: i64,
}

/// What a row says of a connection, given the arguments that its column of arguments
/// holds.
pub open spec fn profile_of_row(row: ConnectionRow, ssh_args: Seq<Seq<char>>) -> ProfileView {
    ProfileView {
        id: row.id,
        hostname: row.hostname@,
        username: row.username@,
        port: port_of_column(row.port) as u16,
        nickname: text::optional(row.nickname),
        default_path: text::optional(row.path),
        ssh_args,
        port_forwards: ssh_port_forward::forwards(row.port_forwards@),
        auth_mode: match text::optional(row.auth_mode) {
            Some(value) => auth_mode_of(value),
            None => AuthMode::Prompt,
        },
        upload_binary_over_ssh: row.upload_binary_over_ssh != 0,
        private_key_name: text::optional(row.private_key_name),
        private_key_fingerprint: text::optional(row.private_key_fingerprint),
        last_successful_server_version: text::optional(row.last_successful_server_version),
        last_opened_worktree: text::optional(row.last_opened_worktree),
        last_session_timestamp: row.last_session_timestamp,
        host_key_fingerprint: text::optional(row.host_key_fingerprint),
        host_key_verified_at: row.host_key_verified_at,
        created_at: row.created_at,
        last_used_at: row.last_used_at,
    }
}

/// The connection in a row, with the arguments that were decoded from it.
pub fn assemble_profile(row: ConnectionRow, ssh_args: Vec<String>) -> (profile: ConnectionProfile)
    ensures
        profile@ == profile_of_row(row, text::texts(ssh_args@)),
{
    ConnectionProfile {
        id: row.id,
        hostname: row.hostname,
        username: row.username,
        port: port_from_column(row.port),
        nickname: row.nickname,
        default_path: row.path,
        ssh_args,
        port_forwards: row.port_forwards,
        auth_mode: auth_mode_from_column(&row.auth_mode),
        upload_binary_over_ssh: flag_from_column(row.upload_binary_over_ssh),
        private_key_name: row.private_key_name,
        private_key_fingerprint: row.private_key_fingerprint,
        last_successful_server_version: row.last_successful_server_version,
        last_opened_worktree: row.last_opened_worktree,
        last_session_timestamp: row.last_session_timestamp,
        host_key_fingerprint: row.host_key_fingerprint,
        host_key_verified_at: row.host_key_verified_at,
        created_at: row.created_at,
        last_used_at: row.last_used_at,
    }
}

/// The connection in a row. It fails if the column of arguments holds no list of texts.
pub fn profile_from_row(row: ConnectionRow) -> (result: Result<ConnectionProfile, String>)
    ensures
        match loaded_texts(text::optional(row.ssh_args_json)) {
            Some(ssh_args) => result is Ok && result->Ok_0@ == profile_of_row(row, ssh_args),
            None => result is Err && result->Err_0@ == "Failed to deserialize JSON column"@,
        },
{
    match deserialize_texts(&row.ssh_args_json) {
        Ok(ssh_args) => Ok(assemble_profile(row, ssh_args)),
        Err(message) => Err(message),
    }
}

/// The columns that were added to the table of saved connections over time, each with
/// its definition.
pub open spec fn added_columns() -> Seq<(Seq<char>, Seq<char>)> {
    seq![
        ("path"@, "TEXT"@),
        ("ssh_args_json"@, "TEXT"@),
        ("port_forwards_json"@, "TEXT"@),
        ("auth_mode"@, "TEXT NOT NULL DEFAULT 'prompt'"@),
        ("upload_binary_over_ssh"@, "INTEGER NOT NULL DEFAULT 0"@),
        ("private_key_name"@, "TEXT"@),
        ("private_key_fingerprint"@, "TEXT"@),
        ("last_successful_server_version"@, "TEXT"@),
        ("last_opened_worktree"@, "TEXT"@),
        ("last_session_timestamp"@, "INTEGER"@),
        ("host_key_fingerprint"@, "TEXT"@),
        ("host_key_verified_at"@, "INTEGER"@),
    ]
}

/// The statement that adds a column to the table of saved connections.
pub open spec fn add_column_text(column: Seq<char>, definition: Seq<char>) -> Seq<char> {
    "ALTER TABLE saved_connections ADD COLUMN "@ + column + " "@ + definition
}

/// The statements that add, out of the first `count` added columns, those that a table
/// does not have yet.
pub open spec fn migration(existing: Seq<Seq<char>>, count: int) -> Seq<Seq<char>>
    decreases count,
{
    if count <= 0 {
        Seq::empty()
    } else {
        let (column, definition) = added_columns()[count - 1];
        if existing.contains(column) {
            migration(existing, count - 1)
        } else {
            migration(existing, count - 1).push(add_column_text(column, definition))
        }
    }
}

fn has_text(list: &[String], value: &str) -> (yes: bool)
    ensures
        yes == text::texts(list@).contains(value@),
{
    let mut i: usize = 0;
    while i < list.len()
        invariant
            i <= list@.len(),
            forall|k: int| 0 <= k < i ==> (#[trigger] text::texts(list@)[k]) != value@,
        decreases list@.len() - i,
    {
        assert(text::texts(list@)[i as int] == list@[i as int]@);
        if text::same_text(list[i].as_str(), value) {
            return true;
        }
        i = i + 1;
    }
    false
}

/// The statements that bring an older table of saved connections up to date.
pub fn migration_statements(existing: &[String]) -> (statements: Vec<String>)
    ensures
        text::texts(statements@) == migration(
            text::texts(existing@),
            added_columns().len() as int,
        ),
{
    let mut statements: Vec<String> = Vec::new();
    let columns: [(&str, &str); 12] = [
        ("path", "TEXT"),
        ("ssh_args_json", "TEXT"),
        ("port_forwards_json", "TEXT"),
        ("auth_mode", "TEXT NOT NULL DEFAULT 'prompt'"),
        ("upload_binary_over_ssh", "INTEGER NOT NULL DEFAULT 0"),
        ("private_key_name", "TEXT"),
        ("private_key_fingerprint", "TEXT"),
        ("last_successful_server_version", "TEXT"),
        ("last_opened_worktree", "TEXT"),
        ("last_session_timestamp", "INTEGER"),
        ("host_key_fingerprint", "TEXT"),
        ("host_key_verified_at", "INTEGER"),
    ];
    let ghost all = text::texts(existing@);
    let mut i: usize = 0;
    assert(text::texts(statements@) =~= migration(all, 0));
    while i < columns.len()
        invariant
            i <= columns@.len(),
            columns@.len() == added_columns().len(),
            forall|k: int|
                0 <= k < columns@.len() ==> ((#[trigger] columns@[k]).0@, columns@[k].1@)
                    == added_columns()[k],
            all == text::texts(existing@),
            text::texts(statements@) == migration(all, i as int),
        decreases columns@.len() - i,
    {
        let (column, definition) = columns[i];
        assert((column@, definition@) == added_columns()[i as int]);
        if !has_text(existing, column) {
            let mut statement = text::concat("ALTER TABLE saved_connections ADD COLUMN ", column);
            statement.append(" ");
            statement.append(definition);
            let ghost before = statements@;
            let ghost added = statement@;
            statements.push(statement);
            assert(text::texts(statements@) =~= text::texts(before).push(added));
        }
        i = i + 1;
    }
    statements
}

/// A table that has all columns is left as it is.
pub proof fn law_current_table_is_left_alone(existing: Seq<Seq<char>>, count: int)
    requires
        0 <= count <= added_columns().len(),
        forall|i: int|
            0 <= i < added_columns().len() ==> existing.contains(#[trigger] added_columns()[i].0),
    ensures
        migration(existing, count) == Seq::<Seq<char>>::empty(),
    decreases count,
{
    if count > 0 {
        law_current_table_is_left_alone(existing, count - 1);
        assert(existing.contains(added_columns()[count - 1].0));
    }
}

/// The connection with a number is still there after a change, and no other connection changed.
pub open spec fn changes_one(before: DbView, after: DbView, id: i64) -> bool {
    &&& after.profiles.len() == before.profiles.len()
    &&& after.next_id == before.next_id
    &&& forall|i: int|
        0 <= i < before.profiles.len() ==> {
            &&& (#[trigger] after.profiles[i]).id == before.profiles[i].id
            &&& same_place(after.profiles[i], before.profiles[i])
            &&& before.profiles[i].id != id ==> after.profiles[i] == before.profiles[i]
        }
}

/// Noting a use, other ports or a verified host key changes that of the one connection it is
/// about, and nothing else: of an unknown connection nothing is noted.
pub proof fn law_only_what_is_noted_changes(
    db: DbView,
    id: i64,
    ports: Seq<ForwardView>,
    fingerprint: Seq<char>,
    now: i64,
)
    requires
        db_wf(db),
    ensures
        changes_one(db, touched(db, id, now), id),
        changes_one(db, ports_replaced(db, id, ports, now), id),
        changes_one(db, key_noted(db, id, fingerprint, now), id),
        touched(db, id, now).restore == db.restore,
        ports_replaced(db, id, ports, now).restore == db.restore,
        key_noted(db, id, fingerprint, now).restore == db.restore,
        forall|i: int|
            0 <= i < db.profiles.len() && (#[trigger] db.profiles[i]).id == id ==> {
                let before = db.profiles[i];
                let used = touched(db, id, now).profiles[i];
                let forwarding = ports_replaced(db, id, ports, now).profiles[i];
                let verified = key_noted(db, id, fingerprint, now).profiles[i];
                &&& used.last_used_at == now
                &&& used.port_forwards == before.port_forwards
                &&& used.host_key_fingerprint == before.host_key_fingerprint
                &&& used.host_key_verified_at == before.host_key_verified_at
                &&& keeps_the_rest(before, used)
                &&& forwarding.last_used_at == now
                &&& forwarding.port_forwards == ports
                &&& forwarding.host_key_fingerprint == before.host_key_fingerprint
                &&& forwarding.host_key_verified_at == before.host_key_verified_at
                &&& keeps_the_rest(before, forwarding)
                &&& verified.last_used_at == before.last_used_at
                &&& verified.port_forwards == before.port_forwards
                &&& verified.host_key_fingerprint == Some(fingerprint)
                &&& verified.host_key_verified_at == Some(now)
                &&& keeps_the_rest(before, verified)
            },
{
    assert forall|i: int| 0 <= i < db.profiles.len() && (#[trigger] db.profiles[i]).id
        == id implies index_with_id(db.profiles, id) == Some(i) by {
        lemma_index_with_id(db.profiles, i);
    }
    match index_with_id(db.profiles, id) {
        Some(k) => {
            assert(db.profiles[k].id == id);
        },
        None => {},
    }
}

/// Whether two states of a connection differ at most in its forwarded ports, its host key and
/// the time of its last use.
pub open spec fn keeps_the_rest(before: ProfileView, after: ProfileView) -> bool {
    &&& after.id == before.id
    &&& after.hostname == before.hostname
    &&& after.username == before.username
    &&& after.port == before.port
    &&& after.nickname == before.nickname
    &&& after.default_path == before.default_path
    &&& after.ssh_args == before.ssh_args
    &&& after.auth_mode == before.auth_mode
    &&& after.upload_binary_over_ssh == before.upload_binary_over_ssh
    &&& after.private_key_name == before.private_key_name
    &&& after.private_key_fingerprint == before.private_key_fingerprint
    &&& after.last_successful_server_version == before.last_successful_server_version
    &&& after.last_opened_worktree == before.last_opened_worktree
    &&& after.last_session_timestamp == before.last_session_timestamp
    &&& after.created_at == before.created_at
}

/// Saving a connection again keeps the host key that was verified and the time of its last
/// session. One that is saved for the first time has neither.
pub proof fn law_verified_key_outlives_saving(db: DbView, input: InputProfileView, now: i64)
    requires
        db_wf(db),
        index_for(db.profiles, input.hostname, input.username, input.port) is None ==> db.next_id
            < i64::MAX,
    ensures
        forall|i: int|
            0 <= i < db.profiles.len() ==> {
                let after = upserted(db, input, now).profiles[i];
                &&& after.host_key_fingerprint == (#[trigger] db.profiles[i]).host_key_fingerprint
                &&& after.host_key_verified_at == db.profiles[i].host_key_verified_at
                &&& after.last_session_timestamp == db.profiles[i].last_session_timestamp
            },
        forall|i: int|
            db.profiles.len() <= i < upserted(db, input, now).profiles.len() ==> {
                let after = #[trigger] upserted(db, input, now).profiles[i];
                &&& after.host_key_fingerprint is None
                &&& after.host_key_verified_at is None
                &&& after.last_session_timestamp is None
            },
{
}

/// A worktree that the session to restore tells is the one that its connection opens; one that
/// tells none leaves the worktree as it was. No other connection is changed.
pub proof fn law_restored_worktree_is_noted(db: DbView, state: RestoreView, i: int)
    requires
        db_wf(db),
        0 <= i < db.profiles.len(),
    ensures
        ({
            let before = db.profiles[i];
            let after = restore_saved(db, state).profiles[i];
            if before.id == state.connection_profile_id {
                &&& state.last_opened_worktree is Some ==> after.last_opened_worktree
                    == state.last_opened_worktree
                &&& state.last_opened_worktree is None ==> after.last_opened_worktree
                    == before.last_opened_worktree
                &&& after == (ProfileView {
                    last_session_timestamp: Some(state.updated_at),
                    last_opened_worktree: after.last_opened_worktree,
                    ..before
                })
            } else {
                after == before
            }
        }),
        restore_saved(db, state).profiles.len() == db.profiles.len(),
        restore_saved(db, state).next_id == db.next_id,
{
    if db.profiles[i].id == state.connection_profile_id {
        lemma_index_with_id(db.profiles, i);
    }
    match index_with_id(db.profiles, state.connection_profile_id) {
        Some(k) => {
            assert(db.profiles[k].id == state.connection_profile_id);
        },
        None => {},
    }
}

/// A session to restore stays if another connection is deleted, and the connections that stay
/// are as they were.
pub proof fn law_deleting_leaves_the_rest_as_it_was(db: DbView, id: i64)
    requires
        db_wf(db),
    ensures
        db.restore is Some && db.restore->0.connection_profile_id != id ==> deleted(db, id).restore
            == db.restore,
        deleted(db, id).next_id == db.next_id,
        forall|i: int|
            0 <= i < db.profiles.len() && (#[trigger] db.profiles[i]).id != id ==> deleted(
                db,
                id,
            ).profiles.contains(db.profiles[i]),
        index_with_id(db.profiles, id) is Some ==> deleted(db, id).profiles.len() + 1
            == db.profiles.len(),
{
    let after = deleted(db, id).profiles;
    assert forall|i: int| 0 <= i < db.profiles.len() && (#[trigger] db.profiles[i]).id
        != id implies after.contains(db.profiles[i]) by {
        match index_with_id(db.profiles, id) {
            Some(k) => {
                assert(db.profiles[k].id == id);
                if i < k {
                    assert(after[i] == db.profiles[i]);
                } else {
                    assert(after[i - 1] == db.profiles[i]);
                }
            },
            None => {
                assert(after[i] == db.profiles[i]);
            },
        }
    }
    match index_with_id(db.profiles, id) {
        Some(k) => {
            assert(db.profiles[k].id == id);
        },
        None => {},
    }
}

/// A connection with a nickname is called by it. Without one, its name tells the user, the host
/// and the port, the port being left out exactly if it is the usual one: connections to one host
/// have the same name only if they use the same port.
pub proof fn law_names_tell_ports_apart(
    nickname: Seq<char>,
    username: Seq<char>,
    hostname: Seq<char>,
    port: u16,
    other: u16,
)
    ensures
        display_name_of(Some(nickname), username, hostname, port) == nickname,
        (username + "@"@ + hostname).is_prefix_of(
            display_name_of(None, username, hostname, port),
        ),
        display_name_of(None, username, hostname, port) == username + "@"@ + hostname <==> port
            == 22,
        port != 22 ==> display_name_of(None, username, hostname, port) == address(
            hostname,
            username,
            port,
        ),
        display_name_of(None, username, hostname, port) == display_name_of(
            None,
            username,
            hostname,
            other,
        ) ==> port == other,
{
    reveal_strlit(":");
    let base = username + "@"@ + hostname;
    let name = display_name_of(None, username, hostname, port);
    let other_name = display_name_of(None, username, hostname, other);
    assert(name.subrange(0, base.len() as int) =~= base);
    if port != 22 {
        assert(name.len() >= base.len() + 1);
    }
    if other != 22 {
        assert(other_name.len() >= base.len() + 1);
    }
    if name == other_name && port != 22 && other != 22 {
        law_addresses_tell_connections_apart(hostname, username, port, hostname, username, other);
    }
}

/// Two connections have the same address only if they are for the same host, user and port,
/// unless a host holds a colon or a user an `@`.
pub proof fn law_addresses_tell_connections_apart(
    hostname: Seq<char>,
    username: Seq<char>,
    port: u16,
    other_hostname: Seq<char>,
    other_username: Seq<char>,
    other_port: u16,
)
    requires
        username == other_username && hostname == other_hostname || {
            &&& text::is_free_of(username, '@')
            &&& text::is_free_of(other_username, '@')
            &&& text::is_free_of(hostname, ':')
            &&& text::is_free_of(other_hostname, ':')
        },
        address(hostname, username, port) == address(other_hostname, other_username, other_port),
    ensures
        hostname == other_hostname,
        username == other_username,
        port == other_port,
{
    reveal_strlit("@");
    reveal_strlit(":");
    let digits = text::decimal(port as nat);
    let other_digits = text::decimal(other_port as nat);
    let rest = hostname + ":"@ + digits;
    let other_rest = other_hostname + ":"@ + other_digits;
    let all = address(hostname, username, port);
    assert(all =~= username + "@"@ + rest);
    assert(all =~= other_username + "@"@ + other_rest);
    text::lemma_decimal_parses_back(port as nat);
    text::lemma_decimal_parses_back(other_port as nat);
    if !(username == other_username && hostname == other_hostname) {
        if username.len() < other_username.len() {
            assert(all[username.len() as int] == '@');
            assert(other_username[username.len() as int] == '@');
        } else if other_username.len() < username.len() {
            assert(all[other_username.len() as int] == '@');
            assert(username[other_username.len() as int] == '@');
        }
        assert(username =~= all.subrange(0, username.len() as int));
        assert(other_username =~= all.subrange(0, username.len() as int));
        assert(rest =~= all.subrange(1int + username.len(), all.len() as int));
        assert(other_rest =~= all.subrange(1int + username.len(), all.len() as int));
        if hostname.len() < other_hostname.len() {
            assert(rest[hostname.len() as int] == ':');
            assert(other_hostname[hostname.len() as int] == ':');
        } else if other_hostname.len() < hostname.len() {
            assert(other_rest[other_hostname.len() as int] == ':');
            assert(hostname[other_hostname.len() as int] == ':');
        }
        assert(hostname =~= rest.subrange(0, hostname.len() as int));
        assert(other_hostname =~= rest.subrange(0, hostname.len() as int));
    }
    let start = username.len() + 1 + hostname.len() + 1;
    assert(digits =~= all.subrange(start as int, all.len() as int));
    assert(other_digits =~= all.subrange(start as int, all.len() as int));
}

/// Every port and every time of day that a clock gives is read back as it was stored.
pub proof fn law_numbers_read_back(port: u16, seconds: u64)
    ensures
        port_of_column(port as i64) == port,
        timestamp_value(None) == 0,
        seconds <= i64::MAX ==> timestamp_value(Some(seconds)) == seconds,
        (timestamp_value(Some(seconds)) - seconds) % 0x1_0000_0000_0000_0000 == 0,
        i64::MIN <= timestamp_value(Some(seconds)) <= i64::MAX,
{
}

/// A row with the columns of a connection is read as that connection.
pub proof fn law_rows_read_back(row: ConnectionRow, profile: ProfileView)
    requires
        row.id == profile.id,
        row.hostname@ == profile.hostname,
        row.username@ == profile.username,
        row.port == profile.port,
        text::optional(row.nickname) == profile.nickname,
        text::optional(row.path) == profile.default_path,
        ssh_port_forward::forwards(row.port_forwards@) == profile.port_forwards,
        text::optional(row.auth_mode) == Some(auth_mode_text(profile.auth_mode)),
        row.upload_binary_over_ssh == if profile.upload_binary_over_ssh {
            1int
        } else {
            0
        },
        text::optional(row.private_key_name) == profile.private_key_name,
        text::optional(row.private_key_fingerprint) == profile.private_key_fingerprint,
        text::optional(row.last_successful_server_version)
            == profile.last_successful_server_version,
        text::optional(row.last_opened_worktree) == profile.last_opened_worktree,
        row.last_session_timestamp == profile.last_session_timestamp,
        text::optional(row.host_key_fingerprint) == profile.host_key_fingerprint,
        row.host_key_verified_at == profile.host_key_verified_at,
        row.created_at == profile.created_at,
        row.last_used_at == profile.last_used_at,
    ensures
        profile_of_row(row, profile.ssh_args) == profile,
{
    law_auth_mode_reads_back(profile.auth_mode);
}

/// A row without a way of authentication, or with an unknown one, asks for a password.
pub proof fn law_unknown_ways_ask_for_a_password(row: ConnectionRow, ssh_args: Seq<Seq<char>>)
    requires
        text::optional(row.auth_mode) is Some ==> {
            &&& text::optional(row.auth_mode)->0 != auth_mode_text(AuthMode::KeychainSecret)
            &&& text::optional(row.auth_mode)->0 != auth_mode_text(AuthMode::KeyBased)
        },
    ensures
        profile_of_row(row, ssh_args).auth_mode == AuthMode::Prompt,
{
}

/// A column that a table lacks is added by a statement that names it with its definition, and a
/// column that is there is not added again: there are as many statements as columns that lack.
pub proof fn law_missing_columns_are_added(existing: Seq<Seq<char>>, count: int)
    requires
        0 <= count <= added_columns().len(),
    ensures
        forall|i: int|
            0 <= i < count && !existing.contains(#[trigger] added_columns()[i].0) ==> migration(
                existing,
                count,
            ).contains(add_column_text(added_columns()[i].0, added_columns()[i].1)),
        forall|k: int|
            0 <= k < migration(existing, count).len() ==> adds_missing(
                existing,
                count,
                #[trigger] migration(existing, count)[k],
            ),
        migration(existing, count).len() == missing(existing, count),
    decreases count,
{
    if count > 0 {
        law_missing_columns_are_added(existing, count - 1);
        let before = migration(existing, count - 1);
        let after = migration(existing, count);
        assert forall|i: int|
            0 <= i < count && !existing.contains(
                #[trigger] added_columns()[i].0,
            ) implies after.contains(
            add_column_text(added_columns()[i].0, added_columns()[i].1),
        ) by {
            let statement = add_column_text(added_columns()[i].0, added_columns()[i].1);
            if i < count - 1 {
                let k = before.index_of(statement);
                assert(before.contains(statement));
                assert(after[k] == statement);
            } else {
                assert(after[before.len() as int] == statement);
            }
        }
        assert forall|k: int| 0 <= k < after.len() implies adds_missing(
            existing,
            count,
            #[trigger] after[k],
        ) by {
            if k < before.len() {
                assert(after[k] == before[k]);
                assert(adds_missing(existing, count - 1, before[k]));
            } else {
                assert(!existing.contains(added_columns()[count - 1].0));
            }
        }
    }
}

/// Whether a statement adds one of the first added columns, one that a table lacks.
pub open spec fn adds_missing(
    existing: Seq<Seq<char>>,
    count: int,
    statement: Seq<char>,
) -> bool {
    exists|i: int|
        {
            &&& 0 <= i < count
            &&& !existing.contains(#[trigger] added_columns()[i].0)
            &&& statement == add_column_text(added_columns()[i].0, added_columns()[i].1)
        }
}

/// How many of the first added columns a table lacks.
pub open spec fn missing(existing: Seq<Seq<char>>, count: int) -> nat
    decreases count,
{
    if count <= 0 {
        0
    } else if existing.contains(added_columns()[count - 1].0) {
        missing(existing, count - 1)
    } else {
        missing(existing, count - 1) + 1
    }
}

/// Only an empty list is stored as nothing.
pub proof fn law_empty_lists_are_not_stored(list: Seq<Seq<char>>)
    ensures
        stored_texts(list) is None <==> list.len() == 0,
        loaded_texts(None) == Some(Seq::<Seq<char>>::empty()),
{
}

} // verus!
