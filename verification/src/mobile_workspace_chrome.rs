//! What stands around a remote workspace on a mobile device: the header, the state of the
//! forwarded ports and the tools.

use crate::connect_view;
use crate::ios_app;
use crate::mobile_settings::MobileFeaturePolicy;
use crate::persistence;
use crate::persistence::{
    ConnectionDb, ConnectionProfile, DbView, MobileWorkspaceSnapshotV1, ProfileView, RestoreView,
    SessionRestoreState,
};
use crate::port_forward_manager;
use crate::port_forward_manager::{
    ForwardAction, ManagerView, PortForwardManager, PortForwardState, PortForwardStatus, StatusView,
};
use crate::root_view;
use crate::root_view::{RootState, RootView, Screen};
use crate::session_recovery;
use crate::session_recovery::{
    CoordinatorView, RecoveryState, SessionLifecyclePhase, SessionRecoveryCoordinator,
    SessionRecoveryState,
};
use crate::ssh_port_forward;
use crate::ssh_port_forward::{ForwardView, SshPortForwardOption};
use crate::text;
use vstd::prelude::*;

verus! {

/// What stands around a remote workspace.
pub struct MobileWorkspaceChrome {
    pub connection_profile_id: Option<i64>,
    pub remote_path: Option<String>,
    pub port_forward_manager: PortForwardManager,
    pub active_connection_profile: Option<ConnectionProfile>,
    pub feature_policy: MobileFeaturePolicy,
    pub selected_tool: Option<String>,
}

/// What stands around a remote workspace.
pub struct ChromeView {
    pub connection_profile_id: Option<i64>,
    pub remote_path: Option<Seq<char>>,
    pub ports: ManagerView,
    pub profile: Option<ProfileView>,
    pub policy: MobileFeaturePolicy,
    pub selected_tool: Option<Seq<char>>,
}

impl View for MobileWorkspaceChrome {
    type V = ChromeView;

    open spec fn view(&self) -> ChromeView {
        ChromeView {
            connection_profile_id: self.connection_profile_id,
            remote_path: text::optional(self.remote_path),
            ports: self.port_forward_manager@,
            profile: persistence::found(self.active_connection_profile),
            policy: self.feature_policy,
            selected_tool: text::optional(self.selected_tool),
        }
    }
}

// The forwarded ports.

/// Whether ports are forwarded in a phase of the app and a state of the session: only while
/// the app is in front and the session is healthy.
pub open spec fn suspends_forwards(
    phase: SessionLifecyclePhase,
    state: SessionRecoveryState,
) -> bool {
    phase != SessionLifecyclePhase::Active || state != SessionRecoveryState::Healthy
}

/// Whether none of some ports has started or failed yet.
pub open spec fn all_pending(statuses: Seq<StatusView>) -> bool {
    forall|i: int|
        0 <= i < statuses.len() ==> (#[trigger] statuses[i]).state == PortForwardState::Pending
}

/// Whether the ports are started anew although nothing changed: if none of them has started or
/// failed yet.
pub open spec fn starts_again(ports: ManagerView, suspend: bool) -> bool {
    ports.suspended == suspend && !suspend && ports.desired.len() != 0 && all_pending(
        ports.statuses,
    )
}

/// The ports once it is known whether they are to be suspended.
pub open spec fn ports_synced(ports: ManagerView, suspend: bool) -> ManagerView {
    if ports.suspended != suspend {
        port_forward_manager::suspension_set(ports, suspend)
    } else if starts_again(ports, suspend) {
        port_forward_manager::applied(ports, ports.desired)
    } else {
        ports
    }
}

/// What has to be done outside once it is known whether the ports are to be suspended.
pub open spec fn sync_action(ports: ManagerView, suspend: bool) -> ForwardAction {
    if ports.suspended != suspend && suspend {
        ForwardAction::Stop
    } else if ports.suspended != suspend || starts_again(ports, suspend) {
        port_forward_manager::apply_action(false, ports.desired)
    } else {
        ForwardAction::Nothing
    }
}

fn none_started(statuses: &[PortForwardStatus]) -> (yes: bool)
    ensures
        yes == all_pending(port_forward_manager::status_views(statuses@)),
{
    let ghost views = port_forward_manager::status_views(statuses@);
    let mut i: usize = 0;
    while i < statuses.len()
        invariant
            i <= statuses@.len(),
            views == port_forward_manager::status_views(statuses@),
            forall|k: int|
                0 <= k < i ==> (#[trigger] views[k]).state == PortForwardState::Pending,
        decreases statuses@.len() - i,
    {
        assert(views[i as int] == statuses@[i as int]@);
        if statuses[i].state != PortForwardState::Pending {
            return false;
        }
        i = i + 1;
    }
    true
}

/// The ports that a saved connection wants.
pub open spec fn wanted_by(profile: Option<ProfileView>) -> Seq<ForwardView> {
    match profile {
        Some(profile) => profile.port_forwards,
        None => Seq::empty(),
    }
}

/// The saved connection with a number, if the database could be opened and has it.
pub open spec fn active_profile(db: Option<DbView>, id: Option<i64>) -> Option<ProfileView> {
    match (db, id) {
        (Some(db), Some(id)) => persistence::profile_at(
            db.profiles,
            persistence::index_with_id(db.profiles, id),
        ),
        _ => None,
    }
}

/// The ports of a session before any of them has started.
pub open spec fn unstarted_ports(id: Option<i64>, desired: Seq<ForwardView>) -> ManagerView {
    ManagerView {
        connection_profile_id: id,
        desired,
        statuses: port_forward_manager::all_in(desired, PortForwardState::Pending, None),
        suspended: false,
        last_error: None,
    }
}

/// What stands around a workspace that is opened, before any port has started.
pub open spec fn begun(
    id: Option<i64>,
    remote_path: Option<Seq<char>>,
    profile: Option<ProfileView>,
    policy: MobileFeaturePolicy,
) -> ChromeView {
    ChromeView {
        connection_profile_id: id,
        remote_path,
        ports: unstarted_ports(id, wanted_by(profile)),
        profile,
        policy,
        selected_tool: kept_name(Tool::Files),
    }
}

/// What stands around a workspace once it is known whether its ports are to be suspended.
pub open spec fn synced_with(chrome: ChromeView, suspend: bool) -> ChromeView {
    ChromeView { ports: ports_synced(chrome.ports, suspend), ..chrome }
}

/// What stands around a workspace once its ports are started again.
pub open spec fn ports_retried(chrome: ChromeView) -> ChromeView {
    ChromeView {
        ports: port_forward_manager::applied(chrome.ports, chrome.ports.desired),
        ..chrome
    }
}

/// The session once it was begun.
pub open spec fn session_begun(
    session: CoordinatorView,
    remote_client: u64,
    connection_profile_id: Option<i64>,
    remote_path: Option<Seq<char>>,
    told: Option<RecoveryState>,
) -> CoordinatorView {
    session_recovery::synced(
        CoordinatorView {
            client: Some(remote_client),
            profile_id: connection_profile_id,
            path: remote_path,
            ..session
        },
        told,
    )
}

impl MobileWorkspaceChrome {
    /// Whether the ports that stand in the list are those that are wanted.
    pub open spec fn wf(self) -> bool {
        self.port_forward_manager.wf()
    }

    /// Begins a session, and starts its ports if the app is in front and the session is
    /// healthy; with what has to be done outside, and the event to record.
    pub fn new(
        db: Option<&ConnectionDb>,
        feature_policy: MobileFeaturePolicy,
        coordinator: &mut Option<SessionRecoveryCoordinator>,
        remote_client: u64,
        connection_profile_id: Option<i64>,
        remote_path: Option<String>,
        told: Option<RecoveryState>,
    ) -> (result: (Self, ForwardAction, Option<&'static str>))
        requires
            db matches Some(db) ==> db.wf(),
            *old(coordinator) is Some,
        ensures
            result.0.wf(),
            ({
                let profile = active_profile(
                    match db {
                        Some(db) => Some(db@),
                        None => None,
                    },
                    connection_profile_id,
                );
                let before = (*old(coordinator))->0@;
                let session = session_begun(
                    before,
                    remote_client,
                    connection_profile_id,
                    text::optional(remote_path),
                    told,
                );
                let ports = unstarted_ports(connection_profile_id, wanted_by(profile));
                let suspend = suspends_forwards(session.phase, session.recovery);
                &&& session_recovery::coordinator_view(*final(coordinator)) == Some(session)
                &&& result.0@ == synced_with(
                    begun(
                        connection_profile_id,
                        text::optional(remote_path),
                        profile,
                        feature_policy,
                    ),
                    suspend,
                )
                &&& result.1 == sync_action(ports, suspend)
                &&& session_recovery::event_text(result.2) == session_recovery::event_of_change(
                    before.recovery,
                    session.recovery,
                )
            }),
    {
        let active_connection_profile = match (db, connection_profile_id) {
            (Some(db), Some(id)) => db.connection_profile_by_id(id),
            _ => None,
        };
        let desired_forwards: Vec<SshPortForwardOption> = match &active_connection_profile {
            Some(profile) => ssh_port_forward::copy_forwards(profile.port_forwards.as_slice()),
            None => Vec::new(),
        };
        assert(ssh_port_forward::forwards(desired_forwards@) =~= wanted_by(
            persistence::found(active_connection_profile),
        ));
        let recorded = SessionRecoveryCoordinator::install_session(
            coordinator,
            remote_client,
            connection_profile_id,
            text::copy_optional(&remote_path),
            told,
        );
        let mut chrome = MobileWorkspaceChrome {
            connection_profile_id,
            remote_path,
            port_forward_manager: PortForwardManager::new(connection_profile_id, desired_forwards),
            active_connection_profile,
            feature_policy,
            selected_tool: Some("files".to_owned()),
        };
        let action = match coordinator {
            Some(session) => chrome.sync_runtime_state(session.lifecycle_phase(), session.state()),
            None => ForwardAction::Nothing,
        };
        (chrome, action, recorded)
    }

    /// Suspends the ports or takes them up again, as the app and the session stand; what has to
    /// be done outside.
    pub fn sync_runtime_state(
        &mut self,
        lifecycle_phase: SessionLifecyclePhase,
        recovery_state: SessionRecoveryState,
    ) -> (action: ForwardAction)
        requires
            old(self).wf(),
        ensures
            final(self).wf(),
            ({
                let suspend = suspends_forwards(lifecycle_phase, recovery_state);
                &&& final(self)@ == synced_with(old(self)@, suspend)
                &&& action == sync_action(old(self)@.ports, suspend)
            }),
    {
        let suspend = lifecycle_phase != SessionLifecyclePhase::Active || recovery_state
            != SessionRecoveryState::Healthy;
        if self.port_forward_manager.is_suspended() != suspend {
            return self.port_forward_manager.set_suspended(suspend);
        }
        if !suspend && self.port_forward_manager.has_forwards() && none_started(
            self.port_forward_manager.statuses(),
        ) {
            return self.port_forward_manager.restart();
        }
        ForwardAction::Nothing
    }

    /// Starts the ports again; what has to be done outside.
    pub fn retry_port_forwards(&mut self) -> (action: ForwardAction)
        requires
            old(self).wf(),
        ensures
            final(self).wf(),
            final(self)@ == ports_retried(old(self)@),
            action == port_forward_manager::apply_action(
                old(self)@.ports.suspended,
                old(self)@.ports.desired,
            ),
    {
        self.port_forward_manager.restart()
    }
}

/// The ports are forwarded just while the app is in front and the session is healthy; asking
/// the ports to follow loses none of them, and once they were suspended as they should be,
/// asking again does nothing.
pub proof fn law_ports_follow_the_session(ports: ManagerView, suspend: bool)
    requires
        port_forward_manager::manager_wf(ports),
    ensures
        ports_synced(ports, suspend).suspended == suspend,
        ports_synced(ports, suspend).desired == ports.desired,
        port_forward_manager::manager_wf(ports_synced(ports, suspend)),
        suspend ==> ports_synced(ports_synced(ports, suspend), suspend) == ports_synced(
            ports,
            suspend,
        ),
        suspend ==> sync_action(ports_synced(ports, suspend), suspend) == ForwardAction::Nothing,
        suspend ==> sync_action(ports, suspend) != ForwardAction::Start,
{
}

// What is told of the session.

/// The name of a session.
pub open spec fn session_name(profile: Option<ProfileView>) -> Seq<char> {
    match profile {
        Some(profile) => match profile.nickname {
            Some(nickname) => nickname,
            None => profile.hostname,
        },
        None => "Remote session"@,
    }
}

/// The word for the state of a session.
pub open spec fn recovery_label(state: SessionRecoveryState) -> Seq<char> {
    match state {
        SessionRecoveryState::Healthy => "Connected"@,
        SessionRecoveryState::Reconnecting => "Reconnecting"@,
        SessionRecoveryState::ReconnectFailedRetryable => "Reconnect failed"@,
        SessionRecoveryState::ReconnectExhausted => "Disconnected"@,
    }
}

/// How many of some ports are in a state.
pub open spec fn count_in(statuses: Seq<StatusView>, state: PortForwardState) -> nat
    decreases statuses.len(),
{
    if statuses.len() == 0 {
        0
    } else if statuses.last().state == state {
        count_in(statuses.drop_last(), state) + 1
    } else {
        count_in(statuses.drop_last(), state)
    }
}

fn how_many(statuses: &[PortForwardStatus], state: PortForwardState) -> (count: usize)
    ensures
        count == count_in(port_forward_manager::status_views(statuses@), state),
{
    let ghost views = port_forward_manager::status_views(statuses@);
    let mut count: usize = 0;
    let mut i: usize = 0;
    while i < statuses.len()
        invariant
            i <= statuses@.len(),
            views == port_forward_manager::status_views(statuses@),
            count == count_in(views.take(i as int), state),
            count <= i,
        decreases statuses@.len() - i,
    {
        proof {
            assert(views.take(i + 1).drop_last() =~= views.take(i as int));
            assert(views.take(i + 1).last() == statuses@[i as int]@);
        }
        if statuses[i].state == state {
            count = count + 1;
        }
        i = i + 1;
    }
    assert(views.take(i as int) =~= views);
    count
}

/// A forwarded port, as where it listens and where it leads.
pub open spec fn forward_text(forward: ForwardView) -> Seq<char> {
    port_forward_manager::local_host_of(forward) + ":"@ + text::decimal(forward.local_port as nat)
        + " -> "@ + port_forward_manager::remote_host_of(forward) + ":"@ + text::decimal(
        forward.remote_port as nat,
    )
}

/// The first ports of a list, two at most.
pub open spec fn sample_of(statuses: Seq<StatusView>) -> Seq<Seq<char>> {
    Seq::new(
        if statuses.len() < 2 {
            statuses.len()
        } else {
            2
        },
        |i: int| forward_text(statuses[i].spec),
    )
}

/// The line on ports in a state.
pub open spec fn ports_line(
    state: Seq<char>,
    count: nat,
    sample_specs: Seq<Seq<char>>,
) -> Seq<char> {
    let line = "Ports: "@ + text::decimal(count) + " "@ + state;
    if sample_specs.len() == 0 {
        line
    } else {
        line + " ("@ + text::joined(sample_specs, ", "@) + ")"@
    }
}

/// The line on the ports of a session: on those that failed, else on those that are not
/// started, else on all the others.
pub open spec fn ports_status(statuses: Seq<StatusView>) -> Seq<char> {
    let failed = count_in(statuses, PortForwardState::Failed);
    let pending = count_in(statuses, PortForwardState::Pending);
    if failed > 0 {
        ports_line("failed"@, failed, sample_of(statuses))
    } else if pending > 0 {
        ports_line("pending"@, pending, sample_of(statuses))
    } else {
        ports_line("active"@, count_in(statuses, PortForwardState::Active), sample_of(statuses))
    }
}

fn forward_line(forward: &SshPortForwardOption) -> (line: String)
    ensures
        line@ == forward_text(forward@),
{
    let target = port_forward_manager::forward_target(forward);
    let mut line = target.local_host;
    line.append(":");
    line.append(text::format_decimal(target.local_port as u64).as_str());
    line.append(" -> ");
    line.append(target.remote_host.as_str());
    line.append(":");
    line.append(text::format_decimal(target.remote_port as u64).as_str());
    line
}

fn sample_lines(statuses: &[PortForwardStatus]) -> (lines: Vec<String>)
    ensures
        text::texts(lines@) == sample_of(port_forward_manager::status_views(statuses@)),
{
    let ghost sample = sample_of(port_forward_manager::status_views(statuses@));
    let mut lines: Vec<String> = Vec::new();
    let mut i: usize = 0;
    while i < statuses.len() && i < 2
        invariant
            i <= statuses@.len(),
            i <= 2,
            lines@.len() == i,
            sample == sample_of(port_forward_manager::status_views(statuses@)),
            forall|k: int| 0 <= k < i ==> (#[trigger] lines@[k])@ == sample[k],
        decreases statuses@.len() - i,
    {
        let line = forward_line(&statuses[i].spec);
        lines.push(line);
        i = i + 1;
    }
    assert(text::texts(lines@) =~= sample);
    lines
}

/// Whether anything is shown of the ports.
pub open spec fn shows_ports(ports: ManagerView) -> bool {
    ports.desired.len() != 0
}

/// Whether the user can start the ports again.
pub open spec fn offers_retry(ports: ManagerView) -> bool {
    count_in(ports.statuses, PortForwardState::Failed) > 0
}

/// What is shown of the ports.
#[derive(Clone, Debug, PartialEq, Eq)]
pub struct PortForwardLine {
    pub label: String,
    pub error: Option<String>,
    /// Whether the user can start the ports again: only if one of them failed.
    pub shows_retry: bool,
}

impl MobileWorkspaceChrome {
    /// The name of the session.
    pub fn session_label(&self) -> (name: String)
        ensures
            name@ == session_name(self@.profile),
    {
        match &self.active_connection_profile {
            Some(profile) => match &profile.nickname {
                Some(nickname) => nickname.clone(),
                None => profile.hostname.clone(),
            },
            None => "Remote session".to_owned(),
        }
    }

    /// The word for the state of a session.
    pub fn recovery_status_label(state: SessionRecoveryState) -> (label: &'static str)
        ensures
            label@ == recovery_label(state),
    {
        match state {
            SessionRecoveryState::Healthy => "Connected",
            SessionRecoveryState::Reconnecting => "Reconnecting",
            SessionRecoveryState::ReconnectFailedRetryable => "Reconnect failed",
            SessionRecoveryState::ReconnectExhausted => "Disconnected",
        }
    }

    /// The line on ports in a state.
    pub fn format_port_forward_status(state: &str, count: usize, sample_specs: &[String]) -> (line:
        String)
        ensures
            line@ == ports_line(state@, count as nat, text::texts(sample_specs@)),
    {
        let mut line = "Ports: ".to_owned();
        line.append(text::format_decimal(count as u64).as_str());
        line.append(" ");
        line.append(state);
        if sample_specs.len() != 0 {
            line.append(" (");
            line.append(text::join(sample_specs, ", ").as_str());
            line.append(")");
        }
        line
    }

    /// What is shown of the ports, if the session wants any.
    pub fn port_forward_status(&self) -> (line: Option<PortForwardLine>)
        ensures
            line is Some <==> shows_ports(self@.ports),
            line matches Some(line) ==> line.label@ == ports_status(self@.ports.statuses)
                && text::optional(line.error) == self@.ports.last_error && line.shows_retry
                == offers_retry(self@.ports),
    {
        if !self.port_forward_manager.has_forwards() {
            return None;
        }
        let statuses = self.port_forward_manager.statuses();
        let active = how_many(statuses, PortForwardState::Active);
        let pending = how_many(statuses, PortForwardState::Pending);
        let failed = how_many(statuses, PortForwardState::Failed);
        let sample = sample_lines(statuses);
        let label = if failed > 0 {
            Self::format_port_forward_status("failed", failed, sample.as_slice())
        } else if pending > 0 {
            Self::format_port_forward_status("pending", pending, sample.as_slice())
        } else {
            Self::format_port_forward_status("active", active, sample.as_slice())
        };
        let error = match self.port_forward_manager.last_error() {
            Some(error) => Some(error.to_owned()),
            None => None,
        };
        Some(PortForwardLine { label, error, shows_retry: failed > 0 })
    }
}

// The end of the session.

/// The database once nothing is to be restored.
pub open spec fn nothing_to_restore(db: Option<DbView>) -> Option<DbView> {
    match db {
        Some(db) => Some(DbView { restore: None, ..db }),
        None => None,
    }
}

/// The root of the app that is shown once a session was ended.
pub open spec fn shown_after_leaving(db: Option<DbView>) -> RootState {
    root_view::first_shown(connect_view::initial_screen(nothing_to_restore(db)), false)
}

impl MobileWorkspaceChrome {
    /// Ends the session and forgets what was to be restored of it; with the root of the app
    /// that is shown from now on, and the event to record.
    pub fn disconnect(
        self,
        db: Option<ConnectionDb>,
        coordinator: &mut Option<SessionRecoveryCoordinator>,
    ) -> (result: (RootView, Option<&'static str>))
        requires
            db matches Some(db) ==> db.wf(),
        ensures
            result.0.wf(),
            result.0@ == shown_after_leaving(connect_view::db_view(db)),
            match session_recovery::coordinator_view(*old(coordinator)) {
                Some(session) => {
                    &&& session_recovery::coordinator_view(*final(coordinator)) == Some(
                        session_recovery::cleared(session),
                    )
                    &&& session_recovery::event_text(result.1) == session_recovery::event_of_change(
                        session.recovery,
                        SessionRecoveryState::Healthy,
                    )
                },
                None => *final(coordinator) == *old(coordinator) && result.1 is None,
            },
    {
        let db = match db {
            Some(mut db) => {
                db.clear_session_restore_state();
                Some(db)
            },
            None => None,
        };
        let recorded = SessionRecoveryCoordinator::clear_session(coordinator);
        (RootView::new_without_auto_restore(db), recorded)
    }
}

/// A session that the user ended is not resumed: no session is left to go back to on the
/// screen that follows, and that screen resumes none by itself.
pub proof fn law_ended_session_is_not_resumed(db: Option<DbView>)
    ensures
        ({
            let root = shown_after_leaving(db);
            &&& !root_view::may_resume(root)
            &&& root.connect.last_profile is None
            &&& root.connect.last_restore is None
        }),
{
}

// What is kept of the workspace for the next time.

/// A panel in a dock of the workspace.
#[derive(Clone, Copy, Debug, PartialEq, Eq, Structural)]
pub enum DockPanel {
    Terminal,
    Git,
    Agent,
    /// A panel that nothing is kept of.
    Other,
}

/// How the docks of the workspace stand.
#[derive(Clone, Copy, Debug, PartialEq, Eq, Structural)]
pub struct DockStates {
    pub left_open: bool,
    pub right_open: bool,
    pub right_panel: Option<DockPanel>,
    pub bottom_open: bool,
    pub bottom_panel: Option<DockPanel>,
}

/// Where the workspace is: the path of the session, or else that of the saved connection.
pub open spec fn workspace_path(chrome: ChromeView) -> Option<Seq<char>> {
    match chrome.remote_path {
        Some(path) => Some(path),
        None => match chrome.profile {
            Some(profile) => profile.default_path,
            None => None,
        },
    }
}

/// Whether a snapshot is that of the workspace.
pub open spec fn is_snapshot_of(
    snapshot: MobileWorkspaceSnapshotV1,
    chrome: ChromeView,
    docks: DockStates,
) -> bool {
    &&& snapshot.version == 1
    &&& text::optional(snapshot.remote_path) == workspace_path(chrome)
    &&& text::optional(snapshot.last_opened_worktree) == workspace_path(chrome)
    &&& text::optional(snapshot.active_tool) == chrome.selected_tool
    &&& snapshot.left_sidebar_visible == docks.left_open
    &&& snapshot.terminal_visible == (docks.bottom_open && docks.bottom_panel == Some(
        DockPanel::Terminal,
    ))
    &&& snapshot.git_panel_visible == (docks.right_open && docks.right_panel == Some(
        DockPanel::Git,
    ))
    &&& snapshot.agent_visible == (docks.right_open && docks.right_panel == Some(
        DockPanel::Agent,
    ))
}

/// What is kept of the session, with the snapshot as text.
pub open spec fn restore_of(chrome: ChromeView, snapshot_json: Seq<char>, now: i64) -> Option<
    RestoreView,
> {
    match chrome.connection_profile_id {
        Some(id) => Some(
            RestoreView {
                connection_profile_id: id,
                remote_path: workspace_path(chrome),
                last_opened_worktree: workspace_path(chrome),
                workspace_state_json: Some(snapshot_json),
                updated_at: now,
            },
        ),
        None => None,
    }
}

/// Whether a dock shows a panel.
fn shows(open: bool, shown: Option<DockPanel>, panel: DockPanel) -> (yes: bool)
    ensures
        yes == (open && shown == Some(panel)),
{
    match shown {
        Some(shown) => open && shown == panel,
        None => false,
    }
}

impl MobileWorkspaceChrome {
    fn path(&self) -> (path: Option<String>)
        ensures
            text::optional(path) == workspace_path(self@),
    {
        match &self.remote_path {
            Some(path) => Some(path.clone()),
            None => match &self.active_connection_profile {
                Some(profile) => text::copy_optional(&profile.default_path),
                None => None,
            },
        }
    }

    /// The snapshot of the workspace, if the session is one of a saved connection.
    pub fn workspace_snapshot(&self, docks: DockStates) -> (snapshot: Option<
        MobileWorkspaceSnapshotV1,
    >)
        ensures
            snapshot is Some <==> self@.connection_profile_id is Some,
            snapshot matches Some(snapshot) ==> is_snapshot_of(snapshot, self@, docks),
    {
        if self.connection_profile_id.is_none() {
            return None;
        }
        let mut snapshot = MobileWorkspaceSnapshotV1::new(self.path(), self.path());
        snapshot.active_tool = text::copy_optional(&self.selected_tool);
        snapshot.left_sidebar_visible = docks.left_open;
        snapshot.terminal_visible = shows(
            docks.bottom_open,
            docks.bottom_panel,
            DockPanel::Terminal,
        );
        snapshot.git_panel_visible = shows(docks.right_open, docks.right_panel, DockPanel::Git);
        snapshot.agent_visible = shows(docks.right_open, docks.right_panel, DockPanel::Agent);
        Some(snapshot)
    }

    /// Keeps the session for the next time, with the snapshot of the workspace as text. Nothing
    /// is kept unless the session is one of a connection that is still saved.
    pub fn persist_workspace_snapshot(
        &self,
        db: &mut ConnectionDb,
        snapshot_json: String,
        now: i64,
    ) -> (result: Result<(), String>)
        requires
            old(db).wf(),
        ensures
            final(db).wf(),
            match restore_of(self@, snapshot_json@, now) {
                Some(state) => match persistence::index_with_id(
                    old(db)@.profiles,
                    state.connection_profile_id,
                ) {
                    Some(_) => result is Ok && final(db)@ == persistence::restore_saved(
                        old(db)@,
                        state,
                    ),
                    None => result is Err && result->Err_0@
                        == "Failed to save session restore state"@ && final(db)@ == old(db)@,
                },
                None => result is Ok && final(db)@ == old(db)@,
            },
    {
        match self.connection_profile_id {
            Some(connection_profile_id) => {
                let state = SessionRestoreState {
                    connection_profile_id,
                    remote_path: self.path(),
                    last_opened_worktree: self.path(),
                    workspace_state_json: Some(snapshot_json),
                    updated_at: now,
                };
                db.save_session_restore_state(&state)
            },
            None => Ok(()),
        }
    }
}

// The tools.

/// A tool that the user can choose.
#[derive(Clone, Copy, Debug, PartialEq, Eq, Structural)]
pub enum Tool {
    RestrictedMode,
    Files,
    Outline,
    Git,
    Terminal,
    Search,
    Tasks,
    Problems,
    FileFinder,
    Commands,
    Agent,
}

/// The tools that can always be chosen.
pub open spec fn usual_tools() -> Seq<Tool> {
    seq![
        Tool::Files,
        Tool::Outline,
        Tool::Git,
        Tool::Terminal,
        Tool::Search,
        Tool::Tasks,
        Tool::Problems,
        Tool::FileFinder,
        Tool::Commands,
    ]
}

/// The tools that can be chosen, in order.
pub open spec fn tools_shown(policy: MobileFeaturePolicy, restricted: bool) -> Seq<Tool> {
    let before: Seq<Tool> = if restricted {
        seq![Tool::RestrictedMode]
    } else {
        seq![]
    };
    let behind: Seq<Tool> = if policy.show_ai {
        seq![Tool::Agent]
    } else {
        seq![]
    };
    before + usual_tools() + behind
}

/// The label of a tool.
pub open spec fn tool_label_of(policy: MobileFeaturePolicy, tool: Tool) -> Seq<char> {
    match tool {
        Tool::RestrictedMode => "Restricted Mode"@,
        Tool::Files => "Files"@,
        Tool::Outline => "Outline"@,
        Tool::Git => "Git"@,
        Tool::Terminal => "Terminal"@,
        Tool::Search => "Search"@,
        Tool::Tasks => "Tasks"@,
        Tool::Problems => "Problems"@,
        Tool::FileFinder => "Files..."@,
        Tool::Commands => "Commands"@,
        Tool::Agent => if policy.mobile_agent_review {
            "Review"@
        } else {
            "Agent"@
        },
    }
}

/// The name under which it is kept that a tool was chosen, if it is.
pub open spec fn kept_name(tool: Tool) -> Option<Seq<char>> {
    match tool {
        Tool::Files => Some("files"@),
        Tool::Outline => Some("outline"@),
        Tool::Git => Some("git"@),
        Tool::Terminal => Some("terminal"@),
        Tool::Agent => Some("agent"@),
        _ => None,
    }
}

/// What stands around a workspace once a tool was chosen in it.
pub open spec fn chosen(chrome: ChromeView, tool: Tool) -> ChromeView {
    match kept_name(tool) {
        Some(name) => ChromeView { selected_tool: Some(name), ..chrome },
        None => chrome,
    }
}

impl MobileWorkspaceChrome {
    /// The tools that can be chosen, in order; the first one leads to the files that are not
    /// trusted, if there are any.
    pub fn tools(&self, has_restricted_worktrees: bool) -> (tools: Vec<Tool>)
        ensures
            tools@ == tools_shown(self@.policy, has_restricted_worktrees),
    {
        let mut tools: Vec<Tool> = Vec::new();
        if has_restricted_worktrees {
            tools.push(Tool::RestrictedMode);
        }
        tools.push(Tool::Files);
        tools.push(Tool::Outline);
        tools.push(Tool::Git);
        tools.push(Tool::Terminal);
        tools.push(Tool::Search);
        tools.push(Tool::Tasks);
        tools.push(Tool::Problems);
        tools.push(Tool::FileFinder);
        tools.push(Tool::Commands);
        if self.feature_policy.show_ai {
            tools.push(Tool::Agent);
        }
        assert(tools@ =~= tools_shown(self@.policy, has_restricted_worktrees));
        tools
    }

    /// The label of a tool.
    pub fn tool_label(&self, tool: Tool) -> (label: &'static str)
        ensures
            label@ == tool_label_of(self@.policy, tool),
    {
        match tool {
            Tool::RestrictedMode => "Restricted Mode",
            Tool::Files => "Files",
            Tool::Outline => "Outline",
            Tool::Git => "Git",
            Tool::Terminal => "Terminal",
            Tool::Search => "Search",
            Tool::Tasks => "Tasks",
            Tool::Problems => "Problems",
            Tool::FileFinder => "Files...",
            Tool::Commands => "Commands",
            Tool::Agent => if self.feature_policy.mobile_agent_review {
                "Review"
            } else {
                "Agent"
            },
        }
    }

    /// Takes note that the files were chosen.
    pub fn toggle_project_panel(&mut self)
        ensures
            final(self)@ == chosen(old(self)@, Tool::Files),
            final(self).wf() == old(self).wf(),
    {
        self.selected_tool = Some("files".to_owned());
    }

    /// Takes note that the outline was chosen.
    pub fn toggle_outline_panel(&mut self)
        ensures
            final(self)@ == chosen(old(self)@, Tool::Outline),
            final(self).wf() == old(self).wf(),
    {
        self.selected_tool = Some("outline".to_owned());
    }

    /// Takes note that Git was chosen.
    pub fn toggle_git_panel(&mut self)
        ensures
            final(self)@ == chosen(old(self)@, Tool::Git),
            final(self).wf() == old(self).wf(),
    {
        self.selected_tool = Some("git".to_owned());
    }

    /// Takes note that the terminal was chosen.
    pub fn toggle_terminal_panel(&mut self)
        ensures
            final(self)@ == chosen(old(self)@, Tool::Terminal),
            final(self).wf() == old(self).wf(),
    {
        self.selected_tool = Some("terminal".to_owned());
    }

    /// Takes note that the agent was chosen.
    pub fn toggle_agent_panel(&mut self)
        ensures
            final(self)@ == chosen(old(self)@, Tool::Agent),
            final(self).wf() == old(self).wf(),
    {
        self.selected_tool = Some("agent".to_owned());
    }
}

/// The tool that was chosen last is shown when the workspace is opened from its snapshot again,
/// and so is the left dock if it was open.
pub proof fn law_chosen_tool_is_shown_again(
    snapshot: MobileWorkspaceSnapshotV1,
    chrome: ChromeView,
    docks: DockStates,
)
    requires
        is_snapshot_of(snapshot, chrome, docks),
    ensures
        ios_app::layout_of(Some(snapshot)).left_dock_open == docks.left_open,
        chrome.selected_tool == Some("git"@) ==> ios_app::layout_of(
            Some(snapshot),
        ).active_right_panel == Some(ios_app::MobileRightPanel::GitPanel),
        chrome.selected_tool == Some("agent"@) ==> ios_app::layout_of(
            Some(snapshot),
        ).active_right_panel == Some(ios_app::MobileRightPanel::AgentPanel),
        chrome.selected_tool == Some("terminal"@) ==> ios_app::layout_of(
            Some(snapshot),
        ).show_terminal_panel,
        chrome.selected_tool == Some("outline"@) && docks.left_open ==> ios_app::layout_of(
            Some(snapshot),
        ).active_left_panel == Some(ios_app::MobileLeftPanel::OutlinePanel),
{
    reveal_strlit("git");
    reveal_strlit("agent");
    assert("git"@.len() != "agent"@.len());
}

/// How many ports are in a state is how many places of the list hold one: none exactly if no port
/// is in that state, and the three states share out all ports.
pub proof fn law_ports_are_counted(statuses: Seq<StatusView>, state: PortForwardState)
    ensures
        count_in(statuses, PortForwardState::Active) + count_in(
            statuses,
            PortForwardState::Pending,
        ) + count_in(statuses, PortForwardState::Failed) == statuses.len(),
        count_in(statuses, state) == 0 <==> forall|i: int|
            0 <= i < statuses.len() ==> (#[trigger] statuses[i]).state != state,
        count_in(statuses, state) == statuses.len() <==> forall|i: int|
            0 <= i < statuses.len() ==> (#[trigger] statuses[i]).state == state,
    decreases statuses.len(),
{
    if statuses.len() > 0 {
        let front = statuses.drop_last();
        law_ports_are_counted(front, state);
        assert(statuses.last() == statuses[statuses.len() - 1]);
        assert forall|i: int| 0 <= i < front.len() implies (#[trigger] front[i]) == statuses[i] by {
        }
        if forall|i: int| 0 <= i < statuses.len() ==> (#[trigger] statuses[i]).state != state {
            assert forall|i: int| 0 <= i < front.len() implies (#[trigger] front[i]).state
                != state by {
                assert(statuses[i].state != state);
            }
        }
        if forall|i: int| 0 <= i < statuses.len() ==> (#[trigger] statuses[i]).state == state {
            assert forall|i: int| 0 <= i < front.len() implies (#[trigger] front[i]).state
                == state by {
                assert(statuses[i].state == state);
            }
        }
        if count_in(statuses, state) == 0 {
            assert forall|i: int| 0 <= i < statuses.len() implies (#[trigger] statuses[i]).state
                != state by {
                if i < front.len() {
                    assert(front[i].state != state);
                }
            }
        }
        if count_in(statuses, state) == statuses.len() {
            assert(count_in(front, state) <= front.len()) by {
                lemma_count_is_bounded(front, state);
            }
            assert forall|i: int| 0 <= i < statuses.len() implies (#[trigger] statuses[i]).state
                == state by {
                if i < front.len() {
                    assert(front[i].state == state);
                }
            }
        }
    }
}

proof fn lemma_count_is_bounded(statuses: Seq<StatusView>, state: PortForwardState)
    ensures
        count_in(statuses, state) <= statuses.len(),
    decreases statuses.len(),
{
    if statuses.len() > 0 {
        lemma_count_is_bounded(statuses.drop_last(), state);
    }
}

/// Starting the ports again is offered exactly if one of them failed: after a failure it is, if any
/// is wanted, and once they were started it is not. Nothing is shown exactly if none is wanted.
pub proof fn law_failed_ports_can_be_retried(ports: ManagerView, failure: Option<Seq<char>>)
    ensures
        offers_retry(ports) <==> exists|i: int|
            0 <= i < ports.statuses.len() && (#[trigger] ports.statuses[i]).state
                == PortForwardState::Failed,
        ({
            let after = port_forward_manager::settled(ports, failure);
            &&& offers_retry(after) <==> failure is Some && shows_ports(ports)
            &&& shows_ports(after) == shows_ports(ports)
            &&& shows_ports(ports) <==> ports.desired != Seq::<ForwardView>::empty()
        }),
        !offers_retry(port_forward_manager::applied(ports, ports.desired)),
{
    law_ports_are_counted(ports.statuses, PortForwardState::Failed);
    let after = port_forward_manager::settled(ports, failure);
    law_ports_are_counted(after.statuses, PortForwardState::Failed);
    law_ports_are_counted(
        port_forward_manager::applied(ports, ports.desired).statuses,
        PortForwardState::Failed,
    );
    if ports.desired.len() == 0 {
        assert(ports.desired =~= Seq::empty());
    }
    if failure is Some && ports.desired.len() > 0 {
        assert(after.statuses[0].state == PortForwardState::Failed);
    }
}

/// The line on the ports tells how many of them are in a state: failed ones go before those that
/// wait, and only if neither is there are the ports said to be active. It then counts them all.
pub proof fn law_line_tells_the_worst_state(statuses: Seq<StatusView>)
    ensures
        ({
            let failed = count_in(statuses, PortForwardState::Failed);
            let pending = count_in(statuses, PortForwardState::Pending);
            let line = ports_status(statuses);
            &&& (forall|i: int|
                0 <= i < statuses.len() ==> (#[trigger] statuses[i]).state
                    == PortForwardState::Active) ==> ("Ports: "@ + text::decimal(statuses.len())
                + " active"@).is_prefix_of(line)
            &&& failed > 0 ==> ("Ports: "@ + text::decimal(failed) + " failed"@).is_prefix_of(line)
            &&& failed == 0 && pending > 0 ==> ("Ports: "@ + text::decimal(pending)
                + " pending"@).is_prefix_of(line)
        }),
{
    let failed = count_in(statuses, PortForwardState::Failed);
    let pending = count_in(statuses, PortForwardState::Pending);
    let active = count_in(statuses, PortForwardState::Active);
    let line = ports_status(statuses);
    reveal_strlit(" ");
    reveal_strlit("failed");
    reveal_strlit(" failed");
    reveal_strlit("pending");
    reveal_strlit(" pending");
    reveal_strlit("active");
    reveal_strlit(" active");
    assert(" failed"@ =~= " "@ + "failed"@);
    assert(" pending"@ =~= " "@ + "pending"@);
    assert(" active"@ =~= " "@ + "active"@);
    lemma_line_begins("failed"@, failed, sample_of(statuses));
    lemma_line_begins("pending"@, pending, sample_of(statuses));
    lemma_line_begins("active"@, active, sample_of(statuses));
    law_ports_are_counted(statuses, PortForwardState::Active);
}

proof fn lemma_line_begins(state: Seq<char>, count: nat, sample_specs: Seq<Seq<char>>)
    ensures
        ("Ports: "@ + text::decimal(count) + (" "@ + state)).is_prefix_of(
            ports_line(state, count, sample_specs),
        ),
{
    let start = "Ports: "@ + text::decimal(count) + (" "@ + state);
    let line = ports_line(state, count, sample_specs);
    assert(line.subrange(0, start.len() as int) =~= start);
}

/// Ports of which a line is shown are told by where they listen and where they lead, the first two
/// of them at most and in their order.
pub proof fn law_sample_tells_the_first_ports(statuses: Seq<StatusView>, i: int)
    requires
        0 <= i < statuses.len(),
    ensures
        sample_of(statuses).len() <= 2,
        sample_of(statuses).len() <= statuses.len(),
        i < 2 ==> i < sample_of(statuses).len() && sample_of(statuses)[i] == forward_text(
            statuses[i].spec,
        ),
        ({
            let spec = statuses[i].spec;
            let line = forward_text(spec);
            &&& spec.local_host is Some ==> spec.local_host->0.is_prefix_of(line)
            &&& spec.local_host is None ==> "127.0.0.1"@.is_prefix_of(line)
            &&& text::decimal(spec.remote_port as nat).is_suffix_of(line)
            &&& text::has_part(line, ":"@ + text::decimal(spec.local_port as nat) + " -> "@)
            &&& spec.remote_host is Some ==> text::has_part(line, " -> "@ + spec.remote_host->0)
            &&& spec.remote_host is None ==> text::has_part(line, " -> "@ + "localhost"@)
        }),
{
    let spec = statuses[i].spec;
    let line = forward_text(spec);
    let host = port_forward_manager::local_host_of(spec);
    let other = port_forward_manager::remote_host_of(spec);
    let port = text::decimal(spec.local_port as nat);
    let other_port = text::decimal(spec.remote_port as nat);
    assert(line.subrange(0, host.len() as int) =~= host);
    assert(line.subrange(line.len() - other_port.len(), line.len() as int) =~= other_port);
    let middle = ":"@ + port + " -> "@;
    assert(line.subrange(host.len() as int, 0int + host.len() + middle.len()) =~= middle);
    assert(text::stands_at(line, middle, host.len() as int));
    let target = " -> "@ + other;
    let at = 0int + host.len() + ":"@.len() + port.len();
    assert(line.subrange(at, at + target.len()) =~= target);
    assert(text::stands_at(line, target, at));
}

/// A session is called by the nickname of its connection, or else by its host. The words for the
/// states of a session differ.
pub proof fn law_states_have_their_own_words(
    profile: ProfileView,
    state: SessionRecoveryState,
    other: SessionRecoveryState,
)
    ensures
        profile.nickname is Some ==> session_name(Some(profile)) == profile.nickname->0,
        profile.nickname is None ==> session_name(Some(profile)) == profile.hostname,
        recovery_label(state) == recovery_label(other) ==> state == other,
        recovery_label(SessionRecoveryState::Healthy) == "Connected"@,
{
    reveal_strlit("Connected");
    reveal_strlit("Reconnecting");
    reveal_strlit("Reconnect failed");
    reveal_strlit("Disconnected");
    assert("Connected"@.len() == 9 && "Reconnect failed"@.len() == 16);
    assert("Reconnecting"@[0] == 'R' && "Disconnected"@[0] == 'D');
}

/// Ports are forwarded exactly while the app is in front and the session is healthy. A session that
/// is begun wants the ports of its connection, and starts them at once exactly if it may.
pub proof fn law_begun_session_wants_its_ports(
    id: Option<i64>,
    remote_path: Option<Seq<char>>,
    profile: Option<ProfileView>,
    policy: MobileFeaturePolicy,
    phase: SessionLifecyclePhase,
    state: SessionRecoveryState,
)
    ensures
        ({
            let first = begun(id, remote_path, profile, policy);
            let suspend = suspends_forwards(phase, state);
            let chrome = synced_with(first, suspend);
            &&& !suspend <==> phase == SessionLifecyclePhase::Active && state
                == SessionRecoveryState::Healthy
            &&& chrome.ports.suspended == suspend
            &&& profile is Some ==> chrome.ports.desired == profile->0.port_forwards
            &&& profile is None ==> chrome.ports.desired.len() == 0
            &&& sync_action(first.ports, suspend) == ForwardAction::Start <==> !suspend
                && profile is Some && profile->0.port_forwards.len() > 0
            &&& suspend ==> sync_action(first.ports, suspend) == ForwardAction::Stop
            &&& chrome.connection_profile_id == id
            &&& chrome.ports.connection_profile_id == id
            &&& chrome.remote_path == remote_path
            &&& chrome.profile == profile
            &&& chrome.policy == policy
        }),
{
    let first = begun(id, remote_path, profile, policy);
    assert(all_pending(first.ports.statuses));
}

/// Starting the ports again or letting them follow the session changes nothing else.
pub proof fn law_ports_change_alone(chrome: ChromeView, suspend: bool)
    ensures
        same_but_ports(chrome, synced_with(chrome, suspend)),
        same_but_ports(chrome, ports_retried(chrome)),
        ports_retried(chrome).ports.desired == chrome.ports.desired,
        ports_retried(chrome).ports.suspended == chrome.ports.suspended,
        all_pending(ports_retried(chrome).ports.statuses),
        chrome.ports.suspended && !suspend && chrome.ports.desired.len() > 0 ==> sync_action(
            chrome.ports,
            suspend,
        ) == ForwardAction::Start,
        !chrome.ports.suspended && suspend ==> sync_action(chrome.ports, suspend)
            == ForwardAction::Stop,
        chrome.ports.suspended == suspend && !all_pending(chrome.ports.statuses) ==> synced_with(
            chrome,
            suspend,
        ) == chrome && sync_action(chrome.ports, suspend) == ForwardAction::Nothing,
{
}

/// Whether two states differ in their ports at most.
pub open spec fn same_but_ports(a: ChromeView, b: ChromeView) -> bool {
    &&& a.connection_profile_id == b.connection_profile_id
    &&& a.remote_path == b.remote_path
    &&& a.profile == b.profile
    &&& a.policy == b.policy
    &&& a.selected_tool == b.selected_tool
    &&& a.ports.connection_profile_id == b.ports.connection_profile_id
}

/// The connection of a session is the one with its number, if the database has it.
pub proof fn law_session_has_its_connection(db: DbView, i: int, id: i64)
    requires
        persistence::db_wf(db),
        0 <= i < db.profiles.len(),
    ensures
        active_profile(Some(db), Some(db.profiles[i].id)) == Some(db.profiles[i]),
        active_profile(Some(db), None) is None,
        active_profile(None, Some(id)) is None,
        active_profile(Some(db), Some(id)) is Some ==> active_profile(Some(db), Some(id))->0.id
            == id,
{
    let wanted = db.profiles[i].id;
    let found = persistence::index_with_id(db.profiles, wanted);
    assert(db.profiles[i].id == wanted);
    assert(found is Some);
    assert(db.profiles[found->0].id == wanted);
    if found->0 < i {
        assert(db.profiles[found->0].id < db.profiles[i].id);
    } else if i < found->0 {
        assert(db.profiles[i].id < db.profiles[found->0].id);
    }
}

/// Ending a session leaves every saved connection as it was, and the connection screen is shown,
/// with nothing connected.
pub proof fn law_ending_a_session_keeps_the_connections(db: DbView)
    ensures
        ({
            let after = nothing_to_restore(Some(db));
            &&& after is Some
            &&& after->0.profiles == db.profiles
            &&& after->0.next_id == db.next_id
            &&& after->0.restore is None
            &&& root_view::screen_shown(shown_after_leaving(Some(db))) == Screen::Connect
            &&& !shown_after_leaving(Some(db)).has_client
        }),
{
}

/// A session is kept exactly if it is one of a saved connection: under its number, with the
/// snapshot as it was written and the path of the session, or else that of the connection.
pub proof fn law_kept_session_tells_the_workspace(
    chrome: ChromeView,
    snapshot_json: Seq<char>,
    now: i64,
)
    ensures
        ({
            let kept = restore_of(chrome, snapshot_json, now);
            &&& kept is Some <==> chrome.connection_profile_id is Some
            &&& kept is Some ==> {
                &&& Some(kept->0.connection_profile_id) == chrome.connection_profile_id
                &&& kept->0.workspace_state_json == Some(snapshot_json)
                &&& kept->0.updated_at == now
                &&& kept->0.last_opened_worktree == kept->0.remote_path
                &&& chrome.remote_path is Some ==> kept->0.remote_path == chrome.remote_path
                &&& chrome.remote_path is None && chrome.profile is Some ==> kept->0.remote_path
                    == chrome.profile->0.default_path
                &&& chrome.remote_path is None && chrome.profile is None
                    ==> kept->0.remote_path is None
            }
        }),
{
}

/// A workspace that is opened from its snapshot shows the panels that it showed. A tool that was
/// chosen comes before what its dock showed.
pub proof fn law_open_panels_are_shown_again(
    snapshot: MobileWorkspaceSnapshotV1,
    chrome: ChromeView,
    docks: DockStates,
)
    requires
        is_snapshot_of(snapshot, chrome, docks),
    ensures
        ({
            let layout = ios_app::layout_of(Some(snapshot));
            let tool = chrome.selected_tool;
            &&& layout.show_terminal_panel <==> tool == kept_name(Tool::Terminal) || (
            docks.bottom_open && docks.bottom_panel == Some(DockPanel::Terminal))
            &&& layout.left_dock_open == docks.left_open
            &&& layout.active_left_panel == Some(ios_app::MobileLeftPanel::OutlinePanel)
                <==> docks.left_open && tool == kept_name(Tool::Outline)
            &&& tool != kept_name(Tool::Git) && tool != kept_name(Tool::Agent) ==> {
                &&& layout.active_right_panel == Some(ios_app::MobileRightPanel::GitPanel)
                    <==> docks.right_open && docks.right_panel == Some(DockPanel::Git)
                &&& layout.active_right_panel == Some(ios_app::MobileRightPanel::AgentPanel)
                    <==> docks.right_open && docks.right_panel == Some(DockPanel::Agent)
            }
            &&& tool == kept_name(Tool::Git) ==> layout.active_right_panel == Some(
                ios_app::MobileRightPanel::GitPanel,
            )
            &&& tool == kept_name(Tool::Agent) ==> layout.active_right_panel == Some(
                ios_app::MobileRightPanel::AgentPanel,
            )
        }),
{
    reveal_strlit("git");
    reveal_strlit("agent");
    assert("git"@.len() == 3 && "agent"@.len() == 5);
}

/// Choosing a tool changes that alone; tools that are kept have names of their own.
pub proof fn law_chosen_tools_are_told_apart(chrome: ChromeView, tool: Tool, other: Tool)
    ensures
        same_but_tool(chrome, chosen(chrome, tool)),
        kept_name(tool) is Some ==> chosen(chrome, tool).selected_tool == kept_name(tool),
        kept_name(tool) is Some && kept_name(tool) == kept_name(other) ==> tool == other,
        kept_name(tool) is Some <==> tool is Files || tool is Outline || tool is Git
            || tool is Terminal || tool is Agent,
{
    reveal_strlit("files");
    reveal_strlit("outline");
    reveal_strlit("git");
    reveal_strlit("terminal");
    reveal_strlit("agent");
    assert("files"@[0] == 'f' && "agent"@[0] == 'a');
    assert("files"@.len() == 5 && "outline"@.len() == 7 && "git"@.len() == 3 && "terminal"@.len()
        == 8 && "agent"@.len() == 5);
}

/// Whether two states differ in the chosen tool at most.
pub open spec fn same_but_tool(a: ChromeView, b: ChromeView) -> bool {
    &&& a.connection_profile_id == b.connection_profile_id
    &&& a.remote_path == b.remote_path
    &&& a.profile == b.profile
    &&& a.policy == b.policy
    &&& a.ports == b.ports
}

/// Every tool is offered once, but for two: the way to files that are not trusted, which stands
/// first exactly if there are any, and the agent, which stands last exactly if it is wanted.
pub proof fn law_tools_are_offered_once(policy: MobileFeaturePolicy, restricted: bool, tool: Tool)
    ensures
        ({
            let tools = tools_shown(policy, restricted);
            &&& tools.contains(tool) <==> (tool is RestrictedMode ==> restricted) && (
            tool is Agent ==> policy.show_ai)
            &&& restricted ==> tools[0] == Tool::RestrictedMode
            &&& policy.show_ai ==> tools.last() == Tool::Agent
            &&& forall|i: int, j: int|
                0 <= i < j < tools.len() ==> (#[trigger] tools[i]) != (#[trigger] tools[j])
        }),
{
    let tools = tools_shown(policy, restricted);
    let usual = usual_tools();
    let start: int = if restricted {
        1
    } else {
        0
    };
    assert(usual.len() == 9);
    assert forall|i: int| 0 <= i < 9 implies #[trigger] tools[start + i] == usual[i] by {
    }
    assert(tools.len() == start + 9 + if policy.show_ai {
        1int
    } else {
        0
    });
    assert(tools[start + 0] == Tool::Files);
    assert(tools[start + 1] == Tool::Outline);
    assert(tools[start + 2] == Tool::Git);
    assert(tools[start + 3] == Tool::Terminal);
    assert(tools[start + 4] == Tool::Search);
    assert(tools[start + 5] == Tool::Tasks);
    assert(tools[start + 6] == Tool::Problems);
    assert(tools[start + 7] == Tool::FileFinder);
    assert(tools[start + 8] == Tool::Commands);
    if restricted {
        assert(tools[0] == Tool::RestrictedMode);
    }
    if policy.show_ai {
        assert(tools[start + 9] == Tool::Agent);
    }
}

/// Tools that are offered together have labels of their own.
pub proof fn law_tools_have_their_own_labels(policy: MobileFeaturePolicy, tool: Tool, other: Tool)
    ensures
        tool_label_of(policy, tool) == tool_label_of(policy, other) ==> tool == other,
{
    reveal_strlit("Restricted Mode");
    reveal_strlit("Files");
    reveal_strlit("Outline");
    reveal_strlit("Git");
    reveal_strlit("Terminal");
    reveal_strlit("Search");
    reveal_strlit("Tasks");
    reveal_strlit("Problems");
    reveal_strlit("Files...");
    reveal_strlit("Commands");
    reveal_strlit("Review");
    reveal_strlit("Agent");
    assert("Files"@[0] == 'F' && "Tasks"@[0] == 'T' && "Agent"@[0] == 'A');
    assert("Search"@[0] == 'S' && "Review"@[0] == 'R');
    assert("Terminal"@[0] == 'T' && "Problems"@[0] == 'P' && "Files..."@[0] == 'F'
        && "Commands"@[0] == 'C');
    assert("Restricted Mode"@.len() == 15 && "Outline"@.len() == 7 && "Git"@.len() == 3);
    assert("Files"@.len() == 5 && "Tasks"@.len() == 5 && "Agent"@.len() == 5);
    assert("Search"@.len() == 6 && "Review"@.len() == 6);
    assert("Terminal"@.len() == 8 && "Problems"@.len() == 8 && "Files..."@.len() == 8
        && "Commands"@.len() == 8);
}

} // verus!
