//! The screen that is shown while a remote workspace is being opened.

use crate::persistence;
use crate::persistence::{RestoreView, SessionRestoreState};
use crate::ssh_options::{RemoteConnectionOptions, SshConnectionOptions};
use crate::text;
use vstd::prelude::*;

verus! {

/// Sent when the user wants to disconnect.
#[derive(Clone, Copy, Debug, PartialEq, Eq, Structural)]
pub struct DisconnectRequested;

/// Sent when the workspace is ready to be shown.
#[derive(Clone, Debug, PartialEq, Eq)]
pub struct WorkspaceReady {
    pub connection_profile_id: Option<i64>,
    pub remote_path: Option<String>,
}

/// How far the workspace is.
#[derive(Clone, Debug, PartialEq, Eq)]
pub enum WorkspaceLoadState {
    /// It is being opened, with what is shown meanwhile.
    Loading(String),
    /// It is open.
    Ready,
    /// It could not be opened, with the reason.
    Error(String),
    /// It is being opened anew, with what is shown meanwhile.
    Reconnecting(String),
}

/// How far the workspace is.
pub enum LoadView {
    Loading(Seq<char>),
    Ready,
    Error(Seq<char>),
    Reconnecting(Seq<char>),
}

impl View for WorkspaceLoadState {
    type V = LoadView;

    open spec fn view(&self) -> LoadView {
        match self {
            WorkspaceLoadState::Loading(message) => LoadView::Loading(message@),
            WorkspaceLoadState::Ready => LoadView::Ready,
            WorkspaceLoadState::Error(message) => LoadView::Error(message@),
            WorkspaceLoadState::Reconnecting(message) => LoadView::Reconnecting(message@),
        }
    }
}

/// What is shown of a connection.
#[derive(Clone, Debug, PartialEq, Eq)]
pub struct ConnectionDetails {
    pub host: String,
    pub username: String,
    pub port: u16,
    pub nickname: Option<String>,
}

/// What is shown of a connection.
pub struct DetailsView {
    pub host: Seq<char>,
    pub username: Seq<char>,
    pub port: u16,
    pub nickname: Option<Seq<char>>,
}

impl View for ConnectionDetails {
    type V = DetailsView;

    open spec fn view(&self) -> DetailsView {
        DetailsView {
            host: self.host@,
            username: self.username@,
            port: self.port,
            nickname: text::optional(self.nickname),
        }
    }
}

/// What is shown of a connection over SSH.
pub open spec fn details_of_ssh(options: SshConnectionOptions) -> DetailsView {
    DetailsView {
        host: options@.host,
        username: match options@.username {
            Some(username) => username,
            None => "unknown"@,
        },
        port: match options.port {
            Some(port) => port,
            None => 22,
        },
        nickname: options@.nickname,
    }
}

/// What is shown of a connection.
pub open spec fn details_of(options: RemoteConnectionOptions) -> DetailsView {
    match options {
        RemoteConnectionOptions::Ssh(options) => details_of_ssh(options),
        RemoteConnectionOptions::Other => DetailsView {
            host: "Remote"@,
            username: "unknown"@,
            port: 0,
            nickname: None,
        },
    }
}

/// The name of a connection: its nickname, or else the user, the host and the port unless it is
/// the usual one.
pub open spec fn display_name(details: DetailsView) -> Seq<char> {
    persistence::display_name_of(details.nickname, details.username, details.host, details.port)
}

impl ConnectionDetails {
    /// What is shown of a connection.
    pub fn from_options(options: &RemoteConnectionOptions) -> (details: Self)
        ensures
            details@ == details_of(*options),
    {
        match options {
            RemoteConnectionOptions::Ssh(options) => Self::from_ssh(options),
            RemoteConnectionOptions::Other => ConnectionDetails {
                host: "Remote".to_owned(),
                username: "unknown".to_owned(),
                port: 0,
                nickname: None,
            },
        }
    }

    /// What is shown of a connection over SSH.
    pub fn from_ssh(options: &SshConnectionOptions) -> (details: Self)
        ensures
            details@ == details_of_ssh(*options),
    {
        ConnectionDetails {
            host: options.host.clone(),
            username: match &options.username {
                Some(username) => username.clone(),
                None => "unknown".to_owned(),
            },
            port: match options.port {
                Some(port) => port,
                None => 22,
            },
            nickname: text::copy_optional(&options.nickname),
        }
    }

    /// The name of the connection.
    pub fn host_display(&self) -> (name: String)
        ensures
            name@ == display_name(self@),
    {
        persistence::connection_name(
            &self.nickname,
            self.username.as_str(),
            self.host.as_str(),
            self.port,
        )
    }
}

/// The screen that is shown while a remote workspace is being opened.
#[derive(Clone, Debug, PartialEq, Eq)]
pub struct WorkspaceView {
    pub connection_details: ConnectionDetails,
    pub load_state: WorkspaceLoadState,
    /// Whether there is a workspace, open or not.
    pub has_workspace: bool,
    pub initial_path: Option<String>,
    pub connection_profile_id: Option<i64>,
}

/// The state of the screen.
pub struct WorkspaceScreen {
    pub details: DetailsView,
    pub load_state: LoadView,
    pub has_workspace: bool,
    pub initial_path: Option<Seq<char>>,
    pub connection_profile_id: Option<i64>,
}

impl View for WorkspaceView {
    type V = WorkspaceScreen;

    open spec fn view(&self) -> WorkspaceScreen {
        WorkspaceScreen {
            details: self.connection_details@,
            load_state: self.load_state@,
            has_workspace: self.has_workspace,
            initial_path: text::optional(self.initial_path),
            connection_profile_id: self.connection_profile_id,
        }
    }
}

/// The path that was asked for, if it is not blank.
pub open spec fn asked_path(screen: WorkspaceScreen) -> Option<Seq<char>> {
    match screen.initial_path {
        Some(path) => if text::is_blank(path) {
            None
        } else {
            Some(path)
        },
        None => None,
    }
}

/// The path that is opened: the one that was asked for, or else the home directory.
pub open spec fn path_to_open(screen: WorkspaceScreen) -> Seq<char> {
    match asked_path(screen) {
        Some(path) => path,
        None => "~"@,
    }
}

/// The path that is opened, if anything can be.
pub open spec fn path_opened(screen: WorkspaceScreen, stack_ready: bool) -> Option<Seq<char>> {
    if stack_ready {
        Some(path_to_open(screen))
    } else {
        None
    }
}

/// The screen once opening has begun, or could not begin.
pub open spec fn load_started(screen: WorkspaceScreen, stack_ready: bool) -> WorkspaceScreen {
    if stack_ready {
        WorkspaceScreen {
            load_state: LoadView::Loading("Restoring remote workspace..."@),
            has_workspace: true,
            ..screen
        }
    } else {
        WorkspaceScreen {
            load_state: LoadView::Error("Workspace stack not initialized"@),
            ..screen
        }
    }
}

/// The screen before anything was opened.
pub open spec fn unopened(
    options: RemoteConnectionOptions,
    initial_path: Option<Seq<char>>,
    connection_profile_id: Option<i64>,
) -> WorkspaceScreen {
    WorkspaceScreen {
        details: details_of(options),
        load_state: LoadView::Loading("Initializing..."@),
        has_workspace: false,
        initial_path,
        connection_profile_id,
    }
}

/// The screen once opening failed.
pub open spec fn load_failed(screen: WorkspaceScreen, error: Seq<char>) -> WorkspaceScreen {
    WorkspaceScreen {
        load_state: LoadView::Error("Failed to open project: "@ + error),
        ..screen
    }
}

/// The screen once the workspace is open.
pub open spec fn load_finished(screen: WorkspaceScreen) -> WorkspaceScreen {
    WorkspaceScreen { load_state: LoadView::Ready, ..screen }
}

/// The screen once the workspace was let go.
pub open spec fn released(screen: WorkspaceScreen) -> WorkspaceScreen {
    WorkspaceScreen { has_workspace: false, ..screen }
}

/// The screen once the workspace was let go and is opened anew, or cannot be.
pub open spec fn retried(screen: WorkspaceScreen, stack_ready: bool) -> WorkspaceScreen {
    load_started(
        WorkspaceScreen {
            load_state: LoadView::Reconnecting("Reconnecting..."@),
            has_workspace: false,
            ..screen
        },
        stack_ready,
    )
}

/// Where the workspace is, once it is open: where it was found, or else the path that was
/// asked for.
pub open spec fn path_of_opened(
    screen: WorkspaceScreen,
    opened_path: Option<Seq<char>>,
) -> Option<Seq<char>> {
    match opened_path {
        Some(path) => Some(path),
        None => asked_path(screen),
    }
}

/// What is saved for the next start once a workspace is open.
pub open spec fn restore_after_opening(
    screen: WorkspaceScreen,
    opened_path: Option<Seq<char>>,
    now: i64,
) -> Option<RestoreView> {
    match (screen.connection_profile_id, path_of_opened(screen, opened_path)) {
        (Some(id), Some(path)) => Some(
            RestoreView {
                connection_profile_id: id,
                remote_path: Some(path),
                last_opened_worktree: Some(path),
                workspace_state_json: None,
                updated_at: now,
            },
        ),
        _ => None,
    }
}

/// What is told once a workspace is open: of which connection it is, and where.
pub open spec fn ready_after_opening(
    screen: WorkspaceScreen,
    opened_path: Option<Seq<char>>,
) -> Option<(Option<i64>, Option<Seq<char>>)> {
    if screen.has_workspace {
        Some((screen.connection_profile_id, path_of_opened(screen, opened_path)))
    } else {
        None
    }
}

/// What follows once a workspace is open.
pub struct OpenedWorkspace {
    /// What is to be saved for the next start.
    pub restore: Option<SessionRestoreState>,
    /// What is to be told.
    pub ready: Option<WorkspaceReady>,
}

/// Why something failed, if it did.
pub open spec fn failure_in(result: Result<(), String>) -> Option<Seq<char>> {
    match result {
        Ok(_) => None,
        Err(error) => Some(error@),
    }
}

/// Why the saved state of a workspace could not be had, if it could not, given why it could not
/// be asked for and why the answer was a failure.
pub open spec fn restore_failure(
    use_shared_remote_restore: bool,
    not_asked: Option<Seq<char>>,
    refused: Option<Seq<char>>,
) -> Option<Seq<char>> {
    match not_asked {
        Some(error) => Some(error),
        None => if use_shared_remote_restore {
            refused
        } else {
            None
        },
    }
}

/// What came of asking for the saved state of a workspace. Where its paths are merely opened,
/// only that they could not be asked for counts.
pub fn restore_result(
    use_shared_remote_restore: bool,
    asked: Result<Result<(), String>, String>,
) -> (result: Result<(), String>)
    ensures
        failure_in(result) == restore_failure(
            use_shared_remote_restore,
            match asked {
                Err(error) => Some(error@),
                Ok(_) => None,
            },
            match asked {
                Ok(Err(error)) => Some(error@),
                _ => None,
            },
        ),
{
    match asked {
        Err(error) => Err(error),
        Ok(Ok(())) => Ok(()),
        Ok(Err(error)) => if use_shared_remote_restore {
            Err(error)
        } else {
            Ok(())
        },
    }
}

/// The tone of the screen's status.
#[derive(Clone, Copy, Debug, PartialEq, Eq, Structural)]
pub enum LoadTone {
    Good,
    Warning,
    Bad,
}

/// The status that is shown of a workspace.
pub open spec fn status_of(state: LoadView) -> (Seq<char>, LoadTone) {
    match state {
        LoadView::Ready => ("Ready"@, LoadTone::Good),
        LoadView::Loading(_) => ("Loading..."@, LoadTone::Warning),
        LoadView::Reconnecting(_) => ("Reconnecting..."@, LoadTone::Warning),
        LoadView::Error(_) => ("Error"@, LoadTone::Bad),
    }
}

/// The message that is shown in place of a workspace.
pub open spec fn message_of(state: LoadView) -> Seq<char> {
    match state {
        LoadView::Ready => "Launching workspace..."@,
        LoadView::Loading(message) => message,
        LoadView::Reconnecting(message) => message,
        LoadView::Error(message) => message,
    }
}

/// The letter of the badge above the message.
pub open spec fn badge_of(state: LoadView) -> Seq<char> {
    if state is Error {
        "!"@
    } else {
        "Z"@
    }
}

impl WorkspaceView {
    /// The screen of a connection, which at once begins to open the workspace; with it the path
    /// that is to be opened.
    pub fn new(
        options: &RemoteConnectionOptions,
        initial_path: Option<String>,
        connection_profile_id: Option<i64>,
        stack_ready: bool,
    ) -> (result: (Self, Option<String>))
        ensures
            result.0@ == load_started(
                unopened(*options, text::optional(initial_path), connection_profile_id),
                stack_ready,
            ),
            text::optional(result.1) == path_opened(
                unopened(*options, text::optional(initial_path), connection_profile_id),
                stack_ready,
            ),
    {
        let mut view = WorkspaceView {
            connection_details: ConnectionDetails::from_options(options),
            load_state: WorkspaceLoadState::Loading("Initializing...".to_owned()),
            has_workspace: false,
            initial_path,
            connection_profile_id,
        };
        let path = view.start_workspace_load(stack_ready);
        (view, path)
    }

    fn path_asked_for(&self) -> (path: Option<String>)
        ensures
            text::optional(path) == asked_path(self@),
    {
        match &self.initial_path {
            Some(path) => if text::trim(path.as_str()).as_str().is_empty() {
                None
            } else {
                Some(path.clone())
            },
            None => None,
        }
    }

    /// Begins to open the workspace, and says which path is to be opened. Nothing can be opened
    /// before the app is set up.
    pub fn start_workspace_load(&mut self, stack_ready: bool) -> (path: Option<String>)
        ensures
            final(self)@ == load_started(old(self)@, stack_ready),
            text::optional(path) == path_opened(old(self)@, stack_ready),
    {
        if !stack_ready {
            self.load_state = WorkspaceLoadState::Error(
                "Workspace stack not initialized".to_owned(),
            );
            return None;
        }
        self.load_state = WorkspaceLoadState::Loading("Restoring remote workspace...".to_owned());
        self.has_workspace = true;
        match self.path_asked_for() {
            Some(path) => Some(path),
            None => Some("~".to_owned()),
        }
    }

    /// Takes note that the workspace could not be opened.
    pub fn project_failed(&mut self, error: &str)
        ensures
            final(self)@ == load_failed(old(self)@, error@),
    {
        let mut message = "Failed to open project: ".to_owned();
        message.append(error);
        self.load_state = WorkspaceLoadState::Error(message);
    }

    /// Takes note that the workspace is open, where it was found if that is known.
    pub fn project_opened(&mut self, opened_path: Option<String>, now: i64) -> (result:
        OpenedWorkspace)
        ensures
            final(self)@ == load_finished(old(self)@),
            match result.restore {
                Some(state) => Some(state@),
                None => None,
            } == restore_after_opening(old(self)@, text::optional(opened_path), now),
            match result.ready {
                Some(ready) => Some((ready.connection_profile_id, text::optional(ready.remote_path))),
                None => None,
            } == ready_after_opening(old(self)@, text::optional(opened_path)),
    {
        let remote_path = match opened_path {
            Some(path) => Some(path),
            None => self.path_asked_for(),
        };
        let restore = match (self.connection_profile_id, &remote_path) {
            (Some(connection_profile_id), Some(path)) => Some(
                SessionRestoreState {
                    connection_profile_id,
                    remote_path: Some(path.clone()),
                    last_opened_worktree: Some(path.clone()),
                    workspace_state_json: None,
                    updated_at: now,
                },
            ),
            _ => None,
        };
        self.load_state = WorkspaceLoadState::Ready;
        let ready = if self.has_workspace {
            Some(
                WorkspaceReady { connection_profile_id: self.connection_profile_id, remote_path },
            )
        } else {
            None
        };
        OpenedWorkspace { restore, ready }
    }

    /// Lets the workspace go, as the user wants to disconnect.
    pub fn disconnect(&mut self) -> (event: DisconnectRequested)
        ensures
            final(self)@ == released(old(self)@),
    {
        self.has_workspace = false;
        DisconnectRequested
    }

    /// Lets the workspace go and opens it anew.
    pub fn retry_connection(&mut self, stack_ready: bool) -> (path: Option<String>)
        ensures
            final(self)@ == retried(old(self)@, stack_ready),
            text::optional(path) == path_opened(old(self)@, stack_ready),
    {
        self.load_state = WorkspaceLoadState::Reconnecting("Reconnecting...".to_owned());
        self.has_workspace = false;
        self.start_workspace_load(stack_ready)
    }

    /// The status that is shown.
    pub fn status_text(&self) -> (status: (&'static str, LoadTone))
        ensures
            (status.0@, status.1) == status_of(self@.load_state),
    {
        match &self.load_state {
            WorkspaceLoadState::Ready => ("Ready", LoadTone::Good),
            WorkspaceLoadState::Loading(_) => ("Loading...", LoadTone::Warning),
            WorkspaceLoadState::Reconnecting(_) => ("Reconnecting...", LoadTone::Warning),
            WorkspaceLoadState::Error(_) => ("Error", LoadTone::Bad),
        }
    }

    /// Whether the user can try again: only once opening failed.
    pub fn shows_retry(&self) -> (yes: bool)
        ensures
            yes == (self@.load_state is Error),
    {
        match &self.load_state {
            WorkspaceLoadState::Error(_) => true,
            _ => false,
        }
    }

    /// The message that is shown, and whether it is one of a failure.
    pub fn message(&self) -> (message: (String, bool))
        ensures
            message.0@ == message_of(self@.load_state),
            message.1 == (self@.load_state is Error),
    {
        match &self.load_state {
            WorkspaceLoadState::Ready => ("Launching workspace...".to_owned(), false),
            WorkspaceLoadState::Loading(message) => (message.clone(), false),
            WorkspaceLoadState::Reconnecting(message) => (message.clone(), false),
            WorkspaceLoadState::Error(message) => (message.clone(), true),
        }
    }

    /// The letter of the badge above the message.
    pub fn badge(&self) -> (letter: &'static str)
        ensures
            letter@ == badge_of(self@.load_state),
    {
        if self.shows_retry() {
            "!"
        } else {
            "Z"
        }
    }
}

/// Trying again after a failure leads to what a first try leads to, whatever failed, and the
/// same path is opened.
pub proof fn law_retrying_starts_afresh(screen: WorkspaceScreen, error: Seq<char>)
    ensures
        ({
            let failed = load_failed(load_started(screen, true), error);
            let again = retried(failed, true);
            again == load_started(screen, true) && path_to_open(failed) == path_to_open(screen)
        }),
{
}

/// A path that was asked for is opened as it was written; without one, or with a blank one, the
/// home directory is. Something is opened exactly if the app is set up.
pub proof fn law_asked_path_is_opened(screen: WorkspaceScreen, stack_ready: bool)
    ensures
        path_opened(screen, stack_ready) is Some <==> stack_ready,
        stack_ready && screen.initial_path is Some && !text::all_white(screen.initial_path->0)
            ==> path_opened(screen, stack_ready) == screen.initial_path,
        stack_ready && (screen.initial_path is None || text::all_white(screen.initial_path->0))
            ==> path_opened(screen, stack_ready) == Some("~"@),
        load_started(screen, stack_ready).load_state is Loading <==> stack_ready,
        load_started(screen, stack_ready).load_state is Error <==> !stack_ready,
        load_started(screen, stack_ready).has_workspace == (stack_ready || screen.has_workspace),
{
    if screen.initial_path is Some {
        text::law_trimming_takes_white_space_alone(screen.initial_path->0);
    }
}

/// Whatever happens to a screen, it stays that of its connection and of the path asked for.
pub proof fn law_screen_stays_with_its_connection(
    screen: WorkspaceScreen,
    stack_ready: bool,
    error: Seq<char>,
)
    ensures
        same_connection(screen, load_started(screen, stack_ready)),
        same_connection(screen, load_failed(screen, error)),
        same_connection(screen, load_finished(screen)),
        same_connection(screen, released(screen)),
        same_connection(screen, retried(screen, stack_ready)),
        load_failed(screen, error).has_workspace == screen.has_workspace,
        load_finished(screen).has_workspace == screen.has_workspace,
        !released(screen).has_workspace,
        released(screen).load_state == screen.load_state,
        retried(screen, stack_ready).has_workspace == stack_ready,
{
}

/// Whether two screens are those of one connection, with the same path asked for.
pub open spec fn same_connection(a: WorkspaceScreen, b: WorkspaceScreen) -> bool {
    &&& a.details == b.details
    &&& a.initial_path == b.initial_path
    &&& a.connection_profile_id == b.connection_profile_id
}

/// A workspace is saved for the next start exactly if it is one of a saved connection and it is
/// known where it is: where it was found, or else what was asked for. What is saved and what is
/// told agree. Of a workspace that was let go nothing is told.
pub proof fn law_open_workspace_is_saved_where_it_is(
    screen: WorkspaceScreen,
    opened_path: Option<Seq<char>>,
    now: i64,
)
    ensures
        ({
            let saved = restore_after_opening(screen, opened_path, now);
            let told = ready_after_opening(screen, opened_path);
            let (told_id, told_path) = told->0;
            let asked = screen.initial_path is Some && !text::all_white(screen.initial_path->0);
            &&& saved is Some <==> screen.connection_profile_id is Some && (opened_path is Some
                || asked)
            &&& saved is Some ==> {
                &&& Some(saved->0.connection_profile_id) == screen.connection_profile_id
                &&& saved->0.remote_path == if opened_path is Some {
                    opened_path
                } else {
                    screen.initial_path
                }
                &&& saved->0.last_opened_worktree == saved->0.remote_path
                &&& saved->0.workspace_state_json is None
                &&& saved->0.updated_at == now
            }
            &&& told is Some <==> screen.has_workspace
            &&& told is Some && saved is Some ==> {
                &&& told_id == Some(saved->0.connection_profile_id)
                &&& told_path == saved->0.remote_path
            }
            &&& told is Some ==> told_id == screen.connection_profile_id
            &&& ready_after_opening(released(screen), opened_path) is None
            &&& opened_path is Some ==> path_of_opened(screen, opened_path) == opened_path
        }),
{
    if screen.initial_path is Some {
        text::law_trimming_takes_white_space_alone(screen.initial_path->0);
    }
}

/// The details of a connection are those of its options: what they leave out is shown as unknown,
/// or as the usual port.
pub proof fn law_details_tell_the_options(options: SshConnectionOptions)
    ensures
        ({
            let details = details_of(RemoteConnectionOptions::Ssh(options));
            &&& details.host == options@.host
            &&& options@.username is Some ==> details.username == options@.username->0
            &&& options@.username is None ==> details.username == "unknown"@
            &&& options@.port is Some ==> details.port == options@.port->0
            &&& options@.port is None ==> details.port == 22
            &&& details.nickname == options@.nickname
            &&& details.nickname is Some ==> display_name(details) == options@.nickname->0
            &&& details.nickname is None ==> (details.username + "@"@
                + details.host).is_prefix_of(display_name(details))
        }),
{
    let details = details_of(RemoteConnectionOptions::Ssh(options));
    persistence::law_names_tell_ports_apart(
        Seq::empty(),
        details.username,
        details.host,
        details.port,
        details.port,
    );
}

/// The reason of a failure is shown, as a failure; what is shown otherwise is what the screen was
/// told. The status tells the four states apart, and its tone is good exactly once the workspace
/// is open.
pub proof fn law_status_tells_the_state(
    screen: WorkspaceScreen,
    state: LoadView,
    other: LoadView,
    error: Seq<char>,
)
    ensures
        error.is_suffix_of(message_of(load_failed(screen, error).load_state)),
        load_failed(screen, error).load_state is Error,
        load_finished(screen).load_state is Ready,
        message_of(LoadView::Loading(error)) == error,
        message_of(LoadView::Reconnecting(error)) == error,
        message_of(LoadView::Error(error)) == error,
        status_of(state).1 is Good <==> state is Ready,
        status_of(state).1 is Bad <==> state is Error,
        status_of(state).0 == status_of(other).0 <==> {
            &&& state is Ready <==> other is Ready
            &&& state is Loading <==> other is Loading
            &&& state is Reconnecting <==> other is Reconnecting
            &&& state is Error <==> other is Error
        },
        badge_of(state) == badge_of(other) <==> (state is Error <==> other is Error),
{
    reveal_strlit("Ready");
    reveal_strlit("Error");
    reveal_strlit("Loading...");
    reveal_strlit("Reconnecting...");
    reveal_strlit("!");
    reveal_strlit("Z");
    assert("Ready"@[0] == 'R' && "Error"@[0] == 'E' && "!"@[0] == '!' && "Z"@[0] == 'Z');
    assert("Ready"@.len() == 5 && "Error"@.len() == 5 && "Loading..."@.len() == 10
        && "Reconnecting..."@.len() == 15);
    let message = message_of(load_failed(screen, error).load_state);
    assert(message.subrange(message.len() - error.len(), message.len() as int) =~= error);
}

/// The saved state of a workspace is missing whenever it could not be asked for; a refusal counts
/// only where the state is needed, and its reason is told as it was given.
pub proof fn law_refusals_count_where_the_state_is_needed(
    needed: bool,
    not_asked: Option<Seq<char>>,
    refused: Option<Seq<char>>,
)
    ensures
        restore_failure(needed, not_asked, refused) is None <==> not_asked is None && (!needed
            || refused is None),
        not_asked is Some ==> restore_failure(needed, not_asked, refused) == not_asked,
        restore_failure(needed, None, refused) is Some ==> restore_failure(needed, None, refused)
            == refused,
{
}

} // verus!
