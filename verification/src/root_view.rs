//! The root of the app: which of its screens is shown, and what leads from one to another.

use crate::connect_view;
use crate::connect_view::{ConnectView, ConnectionSucceeded, ScreenView};
use crate::persistence::ConnectionDb;
use crate::ssh_options::RemoteConnectionOptions;
use crate::text;
use crate::tutorial_view::TutorialView;
use crate::workspace_view;
use crate::workspace_view::{WorkspaceScreen, WorkspaceView};
use vstd::prelude::*;

verus! {

/// A screen of the app.
#[derive(Clone, Copy, Debug, PartialEq, Eq, Structural)]
pub enum Screen {
    Connect,
    Tutorial,
    Workspace,
}

/// The root of the app.
pub struct RootView {
    pub current_screen: Screen,
    pub connect_view: ConnectView,
    pub tutorial_view: Option<TutorialView>,
    pub workspace_view: Option<WorkspaceView>,
    /// Whether a remote host is connected.
    pub has_client: bool,
    /// Whether the last session is resumed once the app comes to the front.
    pub auto_restore_on_activation: bool,
}

/// The state of the root of the app.
pub struct RootState {
    pub current_screen: Screen,
    pub connect: ScreenView,
    pub tutorial: Option<TutorialView>,
    pub workspace: Option<WorkspaceScreen>,
    pub has_client: bool,
    pub auto_restore_on_activation: bool,
}

impl View for RootView {
    type V = RootState;

    open spec fn view(&self) -> RootState {
        RootState {
            current_screen: self.current_screen,
            connect: self.connect_view@,
            tutorial: self.tutorial_view,
            workspace: match self.workspace_view {
                Some(view) => Some(view@),
                None => None,
            },
            has_client: self.has_client,
            auto_restore_on_activation: self.auto_restore_on_activation,
        }
    }
}

/// The root of the app when it is first shown.
pub open spec fn first_shown(connect: ScreenView, auto_restore: bool) -> RootState {
    RootState {
        current_screen: Screen::Connect,
        connect,
        tutorial: None,
        workspace: None,
        has_client: false,
        auto_restore_on_activation: auto_restore,
    }
}

/// Whether the last session may be resumed when the app comes to the front: only from the
/// connection screen, and only where no host is connected.
pub open spec fn may_resume(root: RootState) -> bool {
    root.auto_restore_on_activation && root.current_screen == Screen::Connect && !root.has_client
}

/// The connection screen once the last session was looked for.
pub open spec fn resume_tried(
    connect: ScreenView,
    restore_last_session: bool,
    now: i64,
) -> ScreenView {
    let attempted = ScreenView { auto_restore_attempted: true, ..connect };
    if !connect.auto_restore_attempted && restore_last_session && connect.last_profile is Some {
        connect_view::resume_prepared(
            ScreenView {
                status: Some("Restoring your last remote workspace..."@),
                ..attempted
            },
            connect.last_profile->0,
            now,
        )
    } else {
        attempted
    }
}

/// The root of the app once it came to the front or went to the back.
pub open spec fn activation_changed(
    root: RootState,
    active: bool,
    restore_last_session: bool,
    now: i64,
) -> RootState {
    if !root.auto_restore_on_activation {
        root
    } else if !active {
        RootState {
            connect: ScreenView { auto_restore_attempted: false, ..root.connect },
            ..root
        }
    } else if may_resume(root) {
        RootState { connect: resume_tried(root.connect, restore_last_session, now), ..root }
    } else {
        root
    }
}

/// Whether the last session is connected to when the app comes to the front or goes to the back.
pub open spec fn resumes(root: RootState, active: bool, restore_last_session: bool) -> bool {
    active && may_resume(root) && !root.connect.auto_restore_attempted && restore_last_session
        && root.connect.last_profile is Some
}

/// The path that is to be opened once a host is connected, if there is a window to show it in.
pub open spec fn path_after_connecting(
    unopened: WorkspaceScreen,
    has_window: bool,
    stack_ready: bool,
) -> Option<Seq<char>> {
    if has_window && stack_ready {
        Some(workspace_view::path_to_open(unopened))
    } else {
        None
    }
}

/// The root of the app once a host is connected. Where there is no window to show the
/// workspace in, the screen stays.
pub open spec fn connection_made(
    root: RootState,
    workspace: WorkspaceScreen,
    has_window: bool,
) -> RootState {
    if has_window {
        RootState {
            current_screen: Screen::Workspace,
            workspace: Some(workspace),
            has_client: true,
            ..root
        }
    } else {
        RootState { has_client: true, ..root }
    }
}

/// The root of the app once the host was left.
pub open spec fn disconnected(root: RootState) -> RootState {
    RootState { current_screen: Screen::Connect, workspace: None, has_client: false, ..root }
}

/// The root of the app with the tutorial, at the step where it was left if it is open.
pub open spec fn tutorial_shown(root: RootState) -> RootState {
    RootState {
        current_screen: Screen::Tutorial,
        tutorial: match root.tutorial {
            Some(tutorial) => Some(tutorial),
            None => Some(TutorialView { current_step: 0 }),
        },
        ..root
    }
}

/// The root of the app without the tutorial.
pub open spec fn tutorial_hidden(root: RootState) -> RootState {
    RootState { current_screen: Screen::Connect, tutorial: None, ..root }
}

/// The screen that is shown: the connection screen wherever the current one is not there.
pub open spec fn screen_shown(root: RootState) -> Screen {
    match root.current_screen {
        Screen::Connect => Screen::Connect,
        Screen::Tutorial => if root.tutorial is Some {
            Screen::Tutorial
        } else {
            Screen::Connect
        },
        Screen::Workspace => if root.workspace is Some {
            Screen::Workspace
        } else {
            Screen::Connect
        },
    }
}

impl RootView {
    /// Whether the connection screen, and the tutorial if it is open, are as they should be.
    pub open spec fn wf(self) -> bool {
        self.connect_view.wf() && (self.tutorial_view matches Some(view) ==> view.wf())
    }

    /// The root of the app, with the database if it could be opened.
    pub fn new(db: Option<ConnectionDb>) -> (root: Self)
        requires
            db matches Some(db) ==> db.wf(),
        ensures
            root.wf(),
            root@ == first_shown(connect_view::initial_screen(connect_view::db_view(db)), true),
    {
        Self::new_with_auto_restore(db, true)
    }

    /// The root of the app, which does not resume the last session by itself.
    pub fn new_without_auto_restore(db: Option<ConnectionDb>) -> (root: Self)
        requires
            db matches Some(db) ==> db.wf(),
        ensures
            root.wf(),
            root@ == first_shown(connect_view::initial_screen(connect_view::db_view(db)), false),
    {
        Self::new_with_auto_restore(db, false)
    }

    fn new_with_auto_restore(db: Option<ConnectionDb>, auto_restore_on_activation: bool) -> (root:
        Self)
        requires
            db matches Some(db) ==> db.wf(),
        ensures
            root.wf(),
            root@ == first_shown(
                connect_view::initial_screen(connect_view::db_view(db)),
                auto_restore_on_activation,
            ),
    {
        RootView {
            current_screen: Screen::Connect,
            connect_view: ConnectView::new(db),
            tutorial_view: None,
            workspace_view: None,
            has_client: false,
            auto_restore_on_activation,
        }
    }

    /// Takes note that the app came to the front or went to the back; whether the connection
    /// screen is to connect to the last session now.
    pub fn on_window_activation_changed(
        &mut self,
        active: bool,
        restore_last_session: bool,
        now: i64,
    ) -> (connects: bool)
        requires
            old(self).wf(),
        ensures
            final(self).wf(),
            final(self)@ == activation_changed(old(self)@, active, restore_last_session, now),
            connects == resumes(old(self)@, active, restore_last_session),
    {
        if !self.auto_restore_on_activation {
            return false;
        }
        if !active {
            self.connect_view.reset_auto_restore_attempt();
            return false;
        }
        if self.current_screen != Screen::Connect || self.has_client {
            return false;
        }
        self.connect_view.maybe_resume_last_session_automatically(restore_last_session, now)
    }

    /// Takes note that a host is connected, and shows its workspace where there is a window for
    /// it; with the path that is to be opened.
    pub fn on_connection_succeeded(
        &mut self,
        event: ConnectionSucceeded,
        options: &RemoteConnectionOptions,
        has_window: bool,
        stack_ready: bool,
    ) -> (path: Option<String>)
        requires
            old(self).wf(),
        ensures
            final(self).wf(),
            ({
                let unopened = workspace_view::unopened(
                    *options,
                    text::optional(event.remote_path),
                    event.connection_profile_id,
                );
                &&& final(self)@ == connection_made(
                    old(self)@,
                    workspace_view::load_started(unopened, stack_ready),
                    has_window,
                )
                &&& text::optional(path) == path_after_connecting(unopened, has_window, stack_ready)
            }),
    {
        self.has_client = true;
        if !has_window {
            return None;
        }
        let (view, path) = WorkspaceView::new(
            options,
            event.remote_path,
            event.connection_profile_id,
            stack_ready,
        );
        self.workspace_view = Some(view);
        self.current_screen = Screen::Workspace;
        path
    }

    /// Takes note that the host was left.
    pub fn on_disconnect_requested(&mut self)
        requires
            old(self).wf(),
        ensures
            final(self).wf(),
            final(self)@ == disconnected(old(self)@),
    {
        self.workspace_view = None;
        self.has_client = false;
        self.current_screen = Screen::Connect;
    }

    /// Shows the tutorial.
    pub fn show_tutorial(&mut self)
        requires
            old(self).wf(),
        ensures
            final(self).wf(),
            final(self)@ == tutorial_shown(old(self)@),
    {
        if self.tutorial_view.is_none() {
            self.tutorial_view = Some(TutorialView::new());
        }
        self.current_screen = Screen::Tutorial;
    }

    /// Closes the tutorial.
    pub fn hide_tutorial(&mut self)
        requires
            old(self).wf(),
        ensures
            final(self).wf(),
            final(self)@ == tutorial_hidden(old(self)@),
    {
        self.current_screen = Screen::Connect;
        self.tutorial_view = None;
    }

    /// The screen that is shown.
    pub fn shown_screen(&self) -> (screen: Screen)
        ensures
            screen == screen_shown(self@),
    {
        match self.current_screen {
            Screen::Connect => Screen::Connect,
            Screen::Tutorial => if self.tutorial_view.is_some() {
                Screen::Tutorial
            } else {
                Screen::Connect
            },
            Screen::Workspace => if self.workspace_view.is_some() {
                Screen::Workspace
            } else {
                Screen::Connect
            },
        }
    }
}

/// Leaving a host leads back to the connection screen, and the next time the app comes to the
/// front the last session can be resumed again, if that is done at all.
pub proof fn law_leaving_a_host_leads_back(root: RootState)
    ensures
        screen_shown(disconnected(root)) == Screen::Connect,
        may_resume(disconnected(root)) == root.auto_restore_on_activation,
        disconnected(root).connect == root.connect,
{
}

/// While a host is connected, or any other screen is shown, the app's coming to the front
/// changes nothing.
pub proof fn law_no_session_is_resumed_over_another(
    root: RootState,
    restore_last_session: bool,
    now: i64,
)
    requires
        root.has_client || root.current_screen != Screen::Connect,
    ensures
        activation_changed(root, true, restore_last_session, now) == root,
{
}

/// The tutorial is shown once it is asked for, and the connection screen once it is closed.
pub proof fn law_tutorial_opens_and_closes(root: RootState)
    ensures
        screen_shown(tutorial_shown(root)) == Screen::Tutorial,
        screen_shown(tutorial_hidden(tutorial_shown(root))) == Screen::Connect,
        tutorial_shown(tutorial_shown(root)) == tutorial_shown(root),
{
}

/// Once a host is connected it counts as connected, and its workspace is shown exactly if there
/// is a window. The path that was saved with the connection is the one that is opened.
pub proof fn law_connected_host_is_shown(
    root: RootState,
    workspace: WorkspaceScreen,
    has_window: bool,
    stack_ready: bool,
)
    requires
        root.current_screen != Screen::Workspace,
    ensures
        ({
            let after = connection_made(root, workspace, has_window);
            &&& after.has_client
            &&& screen_shown(after) == Screen::Workspace <==> has_window
            &&& has_window ==> after.workspace == Some(workspace)
            &&& !has_window ==> after.workspace == root.workspace && screen_shown(after)
                == screen_shown(root)
            &&& after.connect == root.connect
            &&& after.tutorial == root.tutorial
            &&& after.auto_restore_on_activation == root.auto_restore_on_activation
            &&& !may_resume(after)
        }),
        path_after_connecting(workspace, has_window, stack_ready) is Some <==> has_window
            && stack_ready,
        path_after_connecting(workspace, has_window, stack_ready) is Some
            && workspace.initial_path is Some && !text::all_white(workspace.initial_path->0)
            ==> path_after_connecting(workspace, has_window, stack_ready)
            == workspace.initial_path,
{
    workspace_view::law_asked_path_is_opened(workspace, stack_ready);
}

/// Leaving a host undoes connecting to it.
pub proof fn law_leaving_undoes_connecting(
    root: RootState,
    workspace: WorkspaceScreen,
    has_window: bool,
)
    requires
        root.current_screen == Screen::Connect,
        root.workspace is None,
        !root.has_client,
    ensures
        disconnected(connection_made(root, workspace, has_window)) == root,
{
}

/// The last session is connected to only once each time that the app comes to the front, only if
/// that is wanted and there is one, and never from another screen or over a connected host.
pub proof fn law_session_is_resumed_once(root: RootState, restore_last_session: bool, now: i64)
    ensures
        ({
            let after = activation_changed(root, true, restore_last_session, now);
            let away = activation_changed(root, false, restore_last_session, now);
            &&& !resumes(after, true, restore_last_session)
            &&& !resumes(root, false, restore_last_session)
            &&& away.current_screen == root.current_screen
            &&& away.has_client == root.has_client
            &&& resumes(away, true, restore_last_session) <==> {
                &&& root.auto_restore_on_activation
                &&& root.current_screen == Screen::Connect
                &&& !root.has_client
                &&& restore_last_session
                &&& root.connect.last_profile is Some
            }
            &&& after.current_screen == root.current_screen
            &&& after.has_client == root.has_client
            &&& after.workspace == root.workspace
        }),
{
}

/// What the connection screen does by itself when the app comes to the front is to resume the
/// last session, with the form filled in from its connection.
pub proof fn law_resumed_session_fills_the_form(root: RootState, now: i64)
    requires
        resumes(root, true, true),
    ensures
        ({
            let after = activation_changed(root, true, true, now);
            let last = root.connect.last_profile->0;
            &&& after.connect.hostname.content == last.hostname
            &&& after.connect.username.content == last.username
            &&& after.connect.auto_restore_attempted
        }),
{
}

/// The app begins with the connection screen, with nothing connected; whether the last session is
/// resumed is as it was asked for. A screen that is not there is never shown.
pub proof fn law_app_begins_unconnected(connect: ScreenView, auto_restore: bool, root: RootState)
    ensures
        screen_shown(first_shown(connect, auto_restore)) == Screen::Connect,
        !first_shown(connect, auto_restore).has_client,
        may_resume(first_shown(connect, auto_restore)) == auto_restore,
        first_shown(connect, auto_restore).connect == connect,
        screen_shown(root) == Screen::Tutorial <==> root.current_screen == Screen::Tutorial
            && root.tutorial is Some,
        screen_shown(root) == Screen::Workspace <==> root.current_screen == Screen::Workspace
            && root.workspace is Some,
{
}

/// The tutorial begins at its first step, is found again where it was left, and changes nothing
/// of a connected host.
pub proof fn law_tutorial_is_found_where_it_was_left(root: RootState)
    ensures
        root.tutorial is None ==> tutorial_shown(root).tutorial == Some(
            TutorialView { current_step: 0 },
        ),
        root.tutorial is Some ==> tutorial_shown(root).tutorial == root.tutorial,
        tutorial_hidden(root).tutorial is None,
        tutorial_shown(root).workspace == root.workspace,
        tutorial_hidden(root).workspace == root.workspace,
        tutorial_shown(root).has_client == root.has_client,
        tutorial_hidden(root).has_client == root.has_client,
        tutorial_shown(root).connect == root.connect,
        tutorial_hidden(root).connect == root.connect,
{
}

} // verus!
