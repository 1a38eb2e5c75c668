//! Whether the session with the server is healthy, and what the app is doing meanwhile.

use crate::ios_lifecycle::IosLifecycleEvent;
use crate::text;
use vstd::prelude::*;

verus! {

/// What the app is doing.
#[derive(Clone, Copy, Debug, PartialEq, Eq, Structural)]
pub enum SessionLifecyclePhase {
    Active,
    Inactive,
    Background,
    ForegroundPending,
    Terminating,
}

/// Whether the session is healthy.
#[derive(Clone, Copy, Debug, PartialEq, Eq, Structural)]
pub enum SessionRecoveryState {
    Healthy,
    Reconnecting,
    ReconnectFailedRetryable,
    ReconnectExhausted,
}

/// What the connection tells of itself.
#[derive(Clone, Copy, Debug, PartialEq, Eq, Structural)]
pub enum RecoveryState {
    Connecting,
    Connected,
    HeartbeatMissed,
    Reconnecting,
    ReconnectFailed,
    ReconnectExhausted,
    ServerNotRunning,
    Disconnected,
}

/// Whether the session is healthy, from what the connection tells of itself.
pub open spec fn recovery_of(state: RecoveryState) -> SessionRecoveryState {
    match state {
        RecoveryState::Connected => SessionRecoveryState::Healthy,
        RecoveryState::Connecting => SessionRecoveryState::Reconnecting,
        RecoveryState::HeartbeatMissed => SessionRecoveryState::Reconnecting,
        RecoveryState::Reconnecting => SessionRecoveryState::Reconnecting,
        RecoveryState::ReconnectFailed => SessionRecoveryState::ReconnectFailedRetryable,
        RecoveryState::ReconnectExhausted => SessionRecoveryState::ReconnectExhausted,
        RecoveryState::ServerNotRunning => SessionRecoveryState::ReconnectExhausted,
        RecoveryState::Disconnected => SessionRecoveryState::ReconnectExhausted,
    }
}

/// What the app is doing once the system has told something of it.
pub open spec fn phase_after(event: IosLifecycleEvent) -> SessionLifecyclePhase {
    match event {
        IosLifecycleEvent::DidBecomeActive => SessionLifecyclePhase::Active,
        IosLifecycleEvent::WillResignActive => SessionLifecyclePhase::Inactive,
        IosLifecycleEvent::DidEnterBackground => SessionLifecyclePhase::Background,
        IosLifecycleEvent::WillEnterForeground => SessionLifecyclePhase::ForegroundPending,
        IosLifecycleEvent::WillTerminate => SessionLifecyclePhase::Terminating,
    }
}

/// The session with the server.
#[derive(Clone, Debug, PartialEq, Eq)]
pub struct SessionRecoveryCoordinator {
    /// The number of the connection, if there is a session.
    pub remote_client: Option<u64>,
    pub connection_profile_id: Option<i64>,
    pub last_remote_path: Option<String>,
    pub lifecycle_phase: SessionLifecyclePhase,
    pub recovery_state: SessionRecoveryState,
}

/// The session with the server.
pub struct CoordinatorView {
    pub client: Option<u64>,
    pub profile_id: Option<i64>,
    pub path: Option<Seq<char>>,
    pub phase: SessionLifecyclePhase,
    pub recovery: SessionRecoveryState,
}

impl View for SessionRecoveryCoordinator {
    type V = CoordinatorView;

    open spec fn view(&self) -> CoordinatorView {
        CoordinatorView {
            client: self.remote_client,
            profile_id: self.connection_profile_id,
            path: text::optional(self.last_remote_path),
            phase: self.lifecycle_phase,
            recovery: self.recovery_state,
        }
    }
}

/// The app without a session.
pub open spec fn no_session() -> CoordinatorView {
    CoordinatorView {
        client: None,
        profile_id: None,
        path: None,
        phase: SessionLifecyclePhase::Active,
        recovery: SessionRecoveryState::Healthy,
    }
}

/// Whether the session is healthy once the connection was asked: without a connection, it
/// is.
pub open spec fn synced(session: CoordinatorView, told: Option<RecoveryState>) -> CoordinatorView {
    CoordinatorView {
        recovery: match (session.client, told) {
            (Some(_), Some(state)) => recovery_of(state),
            _ => SessionRecoveryState::Healthy,
        },
        ..session
    }
}

/// The app once a session has begun.
pub open spec fn installed(
    before: CoordinatorView,
    client: u64,
    profile_id: Option<i64>,
    path: Option<Seq<char>>,
    told: Option<RecoveryState>,
) -> CoordinatorView {
    synced(CoordinatorView { client: Some(client), profile_id, path, ..before }, told)
}

/// The app once its session has ended.
pub open spec fn cleared(session: CoordinatorView) -> CoordinatorView {
    CoordinatorView { phase: session.phase, ..no_session() }
}

/// The app once the system has told something of it, and the connection was asked.
pub open spec fn system_heard(
    session: CoordinatorView,
    event: IosLifecycleEvent,
    told: Option<RecoveryState>,
) -> CoordinatorView {
    synced(CoordinatorView { phase: phase_after(event), ..session }, told)
}

/// The event that is recorded when the state of the session changes.
pub open spec fn event_of_change(
    before: SessionRecoveryState,
    after: SessionRecoveryState,
) -> Option<Seq<char>> {
    if before == after {
        None
    } else {
        Some(
            match after {
                SessionRecoveryState::Healthy => "iOS Recovery Succeeded"@,
                SessionRecoveryState::Reconnecting => "iOS Recovery Started"@,
                SessionRecoveryState::ReconnectFailedRetryable => "iOS Recovery Failed"@,
                SessionRecoveryState::ReconnectExhausted => "iOS Recovery Exhausted"@,
            },
        )
    }
}

/// The text of an event, if there is one.
pub open spec fn event_text(event: Option<&'static str>) -> Option<Seq<char>> {
    match event {
        Some(event) => Some(event@),
        None => None,
    }
}

/// The contents of the coordinator, if there is one.
pub open spec fn coordinator_view(coordinator: Option<SessionRecoveryCoordinator>) -> Option<
    CoordinatorView,
> {
    match coordinator {
        Some(coordinator) => Some(coordinator@),
        None => None,
    }
}

impl SessionRecoveryCoordinator {
    /// Sets up the coordinator of the app.
    pub fn init(global: &mut Option<SessionRecoveryCoordinator>)
        ensures
            coordinator_view(*final(global)) == Some(no_session()),
    {
        *global = Some(SessionRecoveryCoordinator::new());
    }

    /// A coordinator without a session.
    pub fn new() -> (coordinator: Self)
        ensures
            coordinator@ == no_session(),
    {
        SessionRecoveryCoordinator {
            remote_client: None,
            connection_profile_id: None,
            last_remote_path: None,
            lifecycle_phase: SessionLifecyclePhase::Active,
            recovery_state: SessionRecoveryState::Healthy,
        }
    }

    /// The coordinator of the app, once it is set up.
    pub fn global(global: &Option<SessionRecoveryCoordinator>) -> (coordinator: Option<
        &SessionRecoveryCoordinator,
    >)
        ensures
            match coordinator {
                Some(coordinator) => *global == Some(*coordinator),
                None => *global is None,
            },
    {
        global.as_ref()
    }

    /// Takes what the system told of the app, if the coordinator is set up. The connection
    /// is asked for `told`; the event to record.
    pub fn handle_ios_lifecycle_event(
        global: &mut Option<SessionRecoveryCoordinator>,
        event: IosLifecycleEvent,
        told: Option<RecoveryState>,
    ) -> (recorded: Option<&'static str>)
        ensures
            match coordinator_view(*old(global)) {
                Some(session) => {
                    let after = system_heard(session, event, told);
                    &&& coordinator_view(*final(global)) == Some(after)
                    &&& event_text(recorded) == event_of_change(session.recovery, after.recovery)
                },
                None => *final(global) == *old(global) && recorded is None,
            },
    {
        match global.take() {
            Some(mut coordinator) => {
                let recorded = coordinator.handle_lifecycle_event(event, told);
                *global = Some(coordinator);
                recorded
            },
            None => None,
        }
    }

    /// Begins a session, if the coordinator is set up; the event to record.
    pub fn install_session(
        global: &mut Option<SessionRecoveryCoordinator>,
        remote_client: u64,
        connection_profile_id: Option<i64>,
        last_remote_path: Option<String>,
        told: Option<RecoveryState>,
    ) -> (recorded: Option<&'static str>)
        ensures
            match coordinator_view(*old(global)) {
                Some(session) => {
                    let after = installed(
                        session,
                        remote_client,
                        connection_profile_id,
                        text::optional(last_remote_path),
                        told,
                    );
                    &&& coordinator_view(*final(global)) == Some(after)
                    &&& event_text(recorded) == event_of_change(session.recovery, after.recovery)
                },
                None => *final(global) == *old(global) && recorded is None,
            },
    {
        match global.take() {
            Some(mut coordinator) => {
                coordinator.remote_client = Some(remote_client);
                coordinator.connection_profile_id = connection_profile_id;
                coordinator.last_remote_path = last_remote_path;
                let recorded = coordinator.sync_state(told);
                *global = Some(coordinator);
                recorded
            },
            None => None,
        }
    }

    /// Ends the session, if the coordinator is set up; the event to record.
    pub fn clear_session(global: &mut Option<SessionRecoveryCoordinator>) -> (recorded: Option<
        &'static str,
    >)
        ensures
            match coordinator_view(*old(global)) {
                Some(session) => {
                    &&& coordinator_view(*final(global)) == Some(cleared(session))
                    &&& event_text(recorded) == event_of_change(
                        session.recovery,
                        cleared(session).recovery,
                    )
                },
                None => *final(global) == *old(global) && recorded is None,
            },
    {
        match global.take() {
            Some(mut coordinator) => {
                coordinator.remote_client = None;
                coordinator.connection_profile_id = None;
                coordinator.last_remote_path = None;
                let recorded = coordinator.set_recovery_state(SessionRecoveryState::Healthy);
                *global = Some(coordinator);
                recorded
            },
            None => None,
        }
    }

    /// Whether the session is healthy.
    pub fn state(&self) -> (state: SessionRecoveryState)
        ensures
            state == self@.recovery,
    {
        self.recovery_state
    }

    /// What the app is doing.
    pub fn lifecycle_phase(&self) -> (phase: SessionLifecyclePhase)
        ensures
            phase == self@.phase,
    {
        self.lifecycle_phase
    }

    fn handle_lifecycle_event(&mut self, event: IosLifecycleEvent, told: Option<RecoveryState>) -> (recorded:
        Option<&'static str>)
        ensures
            final(self)@ == system_heard(old(self)@, event, told),
            event_text(recorded) == event_of_change(old(self)@.recovery, final(self)@.recovery),
    {
        self.lifecycle_phase = match event {
            IosLifecycleEvent::DidBecomeActive => SessionLifecyclePhase::Active,
            IosLifecycleEvent::WillResignActive => SessionLifecyclePhase::Inactive,
            IosLifecycleEvent::DidEnterBackground => SessionLifecyclePhase::Background,
            IosLifecycleEvent::WillEnterForeground => SessionLifecyclePhase::ForegroundPending,
            IosLifecycleEvent::WillTerminate => SessionLifecyclePhase::Terminating,
        };
        self.sync_state(told)
    }

    /// Takes what the connection tells of itself; the event to record.
    pub fn sync_state(&mut self, told: Option<RecoveryState>) -> (recorded: Option<&'static str>)
        ensures
            final(self)@ == synced(old(self)@, told),
            event_text(recorded) == event_of_change(old(self)@.recovery, final(self)@.recovery),
    {
        let next_state = match (self.remote_client, told) {
            (Some(_), Some(state)) => Self::map_recovery_state(state),
            _ => SessionRecoveryState::Healthy,
        };
        self.set_recovery_state(next_state)
    }

    /// Whether the session is healthy, from what the connection tells of itself.
    pub fn map_recovery_state(state: RecoveryState) -> (mapped: SessionRecoveryState)
        ensures
            mapped == recovery_of(state),
    {
        match state {
            RecoveryState::Connected => SessionRecoveryState::Healthy,
            RecoveryState::Connecting => SessionRecoveryState::Reconnecting,
            RecoveryState::HeartbeatMissed => SessionRecoveryState::Reconnecting,
            RecoveryState::Reconnecting => SessionRecoveryState::Reconnecting,
            RecoveryState::ReconnectFailed => SessionRecoveryState::ReconnectFailedRetryable,
            RecoveryState::ReconnectExhausted => SessionRecoveryState::ReconnectExhausted,
            RecoveryState::ServerNotRunning => SessionRecoveryState::ReconnectExhausted,
            RecoveryState::Disconnected => SessionRecoveryState::ReconnectExhausted,
        }
    }

    fn set_recovery_state(&mut self, next_state: SessionRecoveryState) -> (recorded: Option<
        &'static str,
    >)
        ensures
            final(self)@ == (CoordinatorView { recovery: next_state, ..old(self)@ }),
            event_text(recorded) == event_of_change(old(self)@.recovery, next_state),
    {
        if self.recovery_state == next_state {
            return None;
        }
        self.recovery_state = next_state;
        Some(
            match next_state {
                SessionRecoveryState::Healthy => "iOS Recovery Succeeded",
                SessionRecoveryState::Reconnecting => "iOS Recovery Started",
                SessionRecoveryState::ReconnectFailedRetryable => "iOS Recovery Failed",
                SessionRecoveryState::ReconnectExhausted => "iOS Recovery Exhausted",
            },
        )
    }
}

/// What the connection tells twice is recorded once: hearing the same again changes nothing
/// and records no event.
pub proof fn law_repeated_news_is_not_recorded(
    session: CoordinatorView,
    told: Option<RecoveryState>,
)
    ensures
        synced(synced(session, told), told) == synced(session, told),
        event_of_change(
            synced(session, told).recovery,
            synced(synced(session, told), told).recovery,
        ) is None,
{
}

/// With a session, its health is what the connection tells: it is healthy exactly if the
/// connection stands, it is lost exactly if the connection is lost for good, and it can be retried
/// exactly if reconnecting failed once.
pub proof fn law_health_follows_the_connection(session: CoordinatorView, state: RecoveryState)
    requires
        session.client is Some,
    ensures
        ({
            let health = synced(session, Some(state)).recovery;
            &&& health is Healthy <==> state is Connected
            &&& health is ReconnectExhausted <==> state is ReconnectExhausted
                || state is ServerNotRunning || state is Disconnected
            &&& health is ReconnectFailedRetryable <==> state is ReconnectFailed
            &&& health == recovery_of(state)
        }),
{
}

/// Hearing of the connection changes nothing but the health of the session, and without a session
/// or without news there is nothing wrong.
pub proof fn law_news_change_the_health_alone(
    session: CoordinatorView,
    told: Option<RecoveryState>,
)
    ensures
        synced(session, told).client == session.client,
        synced(session, told).profile_id == session.profile_id,
        synced(session, told).path == session.path,
        synced(session, told).phase == session.phase,
        session.client is None || told is None ==> synced(session, told).recovery is Healthy,
{
}

/// The app is active exactly once it became active, in the background exactly once it went
/// there, and at its end exactly once it is told to end; no two events lead to the same phase.
pub proof fn law_phases_tell_what_happened(event: IosLifecycleEvent, other: IosLifecycleEvent)
    ensures
        phase_after(event) == phase_after(other) <==> event == other,
        phase_after(event) is Active <==> event is DidBecomeActive,
        phase_after(event) is Inactive <==> event is WillResignActive,
        phase_after(event) is Background <==> event is DidEnterBackground,
        phase_after(event) is Terminating <==> event is WillTerminate,
{
}

/// An event is recorded exactly if the health of the session changes. Which one it is depends on
/// the new health alone, and tells it: a session that is healthy again is a success, and no other
/// one is.
pub proof fn law_changes_of_health_are_recorded(
    before: SessionRecoveryState,
    after: SessionRecoveryState,
    other_before: SessionRecoveryState,
    other_after: SessionRecoveryState,
)
    ensures
        event_of_change(before, after) is Some <==> before != after,
        before != after && other_before != other_after ==> (event_of_change(before, after)
            == event_of_change(other_before, other_after) <==> after == other_after),
        before != after ==> {
            let event = event_of_change(before, after)->0;
            &&& "Succeeded"@.is_suffix_of(event) <==> after is Healthy
            &&& "Started"@.is_suffix_of(event) <==> after is Reconnecting
            &&& "Failed"@.is_suffix_of(event) <==> after is ReconnectFailedRetryable
            &&& "Exhausted"@.is_suffix_of(event) <==> after is ReconnectExhausted
        },
{
    reveal_strlit("iOS Recovery Succeeded");
    reveal_strlit("iOS Recovery Started");
    reveal_strlit("iOS Recovery Failed");
    reveal_strlit("iOS Recovery Exhausted");
    reveal_strlit("Succeeded");
    reveal_strlit("Exhausted");
    reveal_strlit("Started");
    reveal_strlit("Failed");
    if before != after {
        let event = event_of_change(before, after)->0;
        let end = event.len() as int;
        assert(event.subrange(end - 9, end)[0] == event[end - 9]);
        assert(event.subrange(end - 7, end)[0] == event[end - 7]);
        assert(event.subrange(end - 6, end)[0] == event[end - 6]);
        if after is Healthy {
            assert(event.subrange(end - 9, end) =~= "Succeeded"@);
        } else if after is Reconnecting {
            assert(event.subrange(end - 7, end) =~= "Started"@);
        } else if after is ReconnectFailedRetryable {
            assert(event.subrange(end - 6, end) =~= "Failed"@);
        } else {
            assert(event.subrange(end - 9, end) =~= "Exhausted"@);
        }
    }
    assert("iOS Recovery Started"@[14] == 't');
    assert("iOS Recovery Succeeded"@[14] == 'u');
    assert("iOS Recovery Failed"@[13] == 'F');
    assert("iOS Recovery Exhausted"@[13] == 'E');
}

/// A session that has begun is the one that is there, with its connection and its path; once it
/// has ended, nothing of it is left, nothing is wrong, and the app does what it did.
pub proof fn law_sessions_begin_and_end(
    before: CoordinatorView,
    client: u64,
    profile_id: Option<i64>,
    path: Option<Seq<char>>,
    told: Option<RecoveryState>,
)
    ensures
        ({
            let session = installed(before, client, profile_id, path, told);
            let after = cleared(session);
            &&& session.client == Some(client)
            &&& session.profile_id == profile_id
            &&& session.path == path
            &&& session.phase == before.phase
            &&& session.recovery is Healthy <==> told is None || told->0 is Connected
            &&& after.client is None && after.profile_id is None && after.path is None
            &&& after.recovery is Healthy
            &&& after.phase == before.phase
            &&& no_session().client is None && no_session().recovery is Healthy
            &&& cleared(no_session()) == no_session()
        }),
{
}

/// What the system tells of the app changes no session, and is heard once: what it told before
/// does not matter.
pub proof fn law_only_the_last_word_of_the_system_counts(
    session: CoordinatorView,
    event: IosLifecycleEvent,
    earlier: IosLifecycleEvent,
    told: Option<RecoveryState>,
    told_earlier: Option<RecoveryState>,
)
    ensures
        system_heard(system_heard(session, earlier, told_earlier), event, told) == system_heard(
            session,
            event,
            told,
        ),
        system_heard(session, event, told).client == session.client,
        system_heard(session, event, told).path == session.path,
        system_heard(session, event, told).profile_id == session.profile_id,
        system_heard(session, event, told).recovery == synced(session, told).recovery,
        system_heard(session, event, told).phase == phase_after(event),
{
}

} // verus!
