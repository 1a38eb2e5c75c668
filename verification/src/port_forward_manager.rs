//! Which forwarded ports a session wants, and how each of them stands.

use crate::ssh_port_forward;
use crate::ssh_port_forward::{ForwardView, SshPortForwardOption};
use crate::text;
use vstd::prelude::*;

verus! {

/// How a forwarded port stands.
#[derive(Clone, Copy, Debug, PartialEq, Eq, Structural)]
pub enum PortForwardState {
    Active,
    Pending,
    Failed,
}

/// How one forwarded port stands, with a word on why.
#[derive(Clone, Debug, PartialEq, Eq)]
pub struct PortForwardStatus {
    pub spec: SshPortForwardOption,
    pub state: PortForwardState,
    pub message: Option<String>,
}

/// The forwarded ports of a session.
pub struct PortForwardManager {
    pub connection_profile_id: Option<i64>,
    pub desired_forwards: Vec<SshPortForwardOption>,
    pub status_by_forward: Vec<PortForwardStatus>,
    pub suspended: bool,
    pub last_error: Option<String>,
}

/// How one forwarded port stands.
pub struct StatusView {
    pub spec: ForwardView,
    pub state: PortForwardState,
    pub message: Option<Seq<char>>,
}

/// The forwarded ports of a session.
pub struct ManagerView {
    pub connection_profile_id: Option<i64>,
    pub desired: Seq<ForwardView>,
    pub statuses: Seq<StatusView>,
    pub suspended: bool,
    pub last_error: Option<Seq<char>>,
}

impl View for PortForwardStatus {
    type V = StatusView;

    open spec fn view(&self) -> StatusView {
        StatusView {
            spec: self.spec@,
            state: self.state,
            message: text::optional(self.message),
        }
    }
}

/// How a list of forwarded ports stands.
pub open spec fn status_views(list: Seq<PortForwardStatus>) -> Seq<StatusView> {
    list.map_values(|status: PortForwardStatus| status@)
}

impl View for PortForwardManager {
    type V = ManagerView;

    open spec fn view(&self) -> ManagerView {
        ManagerView {
            connection_profile_id: self.connection_profile_id,
            desired: ssh_port_forward::forwards(self.desired_forwards@),
            statuses: status_views(self.status_by_forward@),
            suspended: self.suspended,
            last_error: text::optional(self.last_error),
        }
    }
}

/// All of some forwarded ports in one state.
pub open spec fn all_in(
    desired: Seq<ForwardView>,
    state: PortForwardState,
    message: Option<Seq<char>>,
) -> Seq<StatusView> {
    desired.map_values(|spec: ForwardView| StatusView { spec, state, message })
}

fn statuses_of(
    desired: &[SshPortForwardOption],
    state: PortForwardState,
    message: &Option<String>,
) -> (statuses: Vec<PortForwardStatus>)
    ensures
        status_views(statuses@) == all_in(
            ssh_port_forward::forwards(desired@),
            state,
            text::optional(*message),
        ),
{
    let mut statuses: Vec<PortForwardStatus> = Vec::new();
    let mut i: usize = 0;
    while i < desired.len()
        invariant
            i <= desired@.len(),
            statuses@.len() == i,
            forall|k: int|
                0 <= k < i ==> (#[trigger] statuses@[k])@ == (StatusView {
                    spec: desired@[k]@,
                    state,
                    message: text::optional(*message),
                }),
        decreases desired@.len() - i,
    {
        statuses.push(
            PortForwardStatus {
                spec: ssh_port_forward::copy_forward(&desired[i]),
                state,
                message: text::copy_optional(message),
            },
        );
        i = i + 1;
    }
    assert(status_views(statuses@) =~= all_in(
        ssh_port_forward::forwards(desired@),
        state,
        text::optional(*message),
    ));
    statuses
}

/// What has to be done outside after the wanted ports changed.
#[derive(Clone, Copy, Debug, PartialEq, Eq, Structural)]
pub enum ForwardAction {
    /// Nothing.
    Nothing,
    /// Stop forwarding.
    Stop,
    /// Check the wanted ports and start forwarding them, then tell how it went.
    Start,
}

/// What is done when ports are wanted: nothing is forwarded while the session is
/// suspended or if no port is wanted.
pub open spec fn apply_action(suspended: bool, desired: Seq<ForwardView>) -> ForwardAction {
    if suspended || desired.len() == 0 {
        ForwardAction::Stop
    } else {
        ForwardAction::Start
    }
}

/// The ports of a session once some are wanted.
pub open spec fn applied(manager: ManagerView, desired: Seq<ForwardView>) -> ManagerView {
    ManagerView {
        desired,
        last_error: None,
        statuses: all_in(
            desired,
            PortForwardState::Pending,
            if manager.suspended {
                Some("Paused while app is backgrounded"@)
            } else if desired.len() == 0 {
                None
            } else {
                Some("Applying..."@)
            },
        ),
        ..manager
    }
}

/// The ports of a session once starting them succeeded or failed.
pub open spec fn settled(manager: ManagerView, failure: Option<Seq<char>>) -> ManagerView {
    ManagerView {
        statuses: all_in(
            manager.desired,
            match failure {
                Some(_) => PortForwardState::Failed,
                None => PortForwardState::Active,
            },
            failure,
        ),
        last_error: failure,
        ..manager
    }
}

/// Whether the ports that stand in the list are those that are wanted, in order.
pub open spec fn manager_wf(manager: ManagerView) -> bool {
    &&& manager.statuses.len() == manager.desired.len()
    &&& forall|i: int|
        0 <= i < manager.desired.len() ==> (#[trigger] manager.statuses[i]).spec
            == manager.desired[i]
}

/// The ports of a session once it is suspended or not any more.
pub open spec fn suspension_set(manager: ManagerView, suspended: bool) -> ManagerView {
    if manager.suspended == suspended {
        manager
    } else if suspended {
        ManagerView {
            suspended: true,
            statuses: all_in(
                manager.desired,
                PortForwardState::Pending,
                Some("Paused while app is backgrounded"@),
            ),
            ..manager
        }
    } else {
        applied(ManagerView { suspended: false, ..manager }, manager.desired)
    }
}

/// What is done when a session is suspended or not any more.
pub open spec fn suspension_action(manager: ManagerView, suspended: bool) -> ForwardAction {
    if manager.suspended == suspended {
        ForwardAction::Nothing
    } else if suspended {
        ForwardAction::Stop
    } else {
        apply_action(false, manager.desired)
    }
}

/// For which connection the wanted ports are saved once starting them succeeded or failed.
pub open spec fn saved_for(manager: ManagerView, failure: Option<Seq<char>>) -> Option<i64> {
    match failure {
        Some(_) => None,
        None => manager.connection_profile_id,
    }
}

impl PortForwardManager {
    /// Whether the ports that stand in the list are those that are wanted, in order.
    pub open spec fn wf(self) -> bool {
        manager_wf(self@)
    }

    /// The ports that a session wants, none of them forwarded yet.
    pub fn new(
        connection_profile_id: Option<i64>,
        desired_forwards: Vec<SshPortForwardOption>,
    ) -> (manager: Self)
        ensures
            manager.wf(),
            manager@ == (ManagerView {
                connection_profile_id,
                desired: ssh_port_forward::forwards(desired_forwards@),
                statuses: all_in(
                    ssh_port_forward::forwards(desired_forwards@),
                    PortForwardState::Pending,
                    None,
                ),
                suspended: false,
                last_error: None,
            }),
    {
        let status_by_forward = statuses_of(
            desired_forwards.as_slice(),
            PortForwardState::Pending,
            &None,
        );
        PortForwardManager {
            connection_profile_id,
            desired_forwards,
            status_by_forward,
            suspended: false,
            last_error: None,
        }
    }

    /// Whether any port is wanted.
    pub fn has_forwards(&self) -> (yes: bool)
        ensures
            yes == (self@.desired.len() != 0),
    {
        self.desired_forwards.len() != 0
    }

    /// Whether forwarding is suspended.
    pub fn is_suspended(&self) -> (yes: bool)
        ensures
            yes == self@.suspended,
    {
        self.suspended
    }

    /// How the ports stand.
    pub fn statuses(&self) -> (statuses: &[PortForwardStatus])
        ensures
            status_views(statuses@) == self@.statuses,
    {
        self.status_by_forward.as_slice()
    }

    /// Why starting the ports failed last.
    pub fn last_error(&self) -> (error: Option<&str>)
        ensures
            match error {
                Some(error) => self@.last_error == Some(error@),
                None => self@.last_error is None,
            },
    {
        match &self.last_error {
            Some(error) => Some(error.as_str()),
            None => None,
        }
    }

    /// Wants other ports.
    pub fn apply_forwards(&mut self, desired: Vec<SshPortForwardOption>) -> (action: ForwardAction)
        ensures
            final(self).wf(),
            final(self)@ == applied(old(self)@, ssh_port_forward::forwards(desired@)),
            action == apply_action(
                old(self)@.suspended,
                ssh_port_forward::forwards(desired@),
            ),
    {
        let paused = self.suspended;
        let none_wanted = desired.len() == 0;
        let message = if paused {
            Some("Paused while app is backgrounded".to_owned())
        } else if none_wanted {
            None
        } else {
            Some("Applying...".to_owned())
        };
        self.status_by_forward = statuses_of(
            desired.as_slice(),
            PortForwardState::Pending,
            &message,
        );
        self.desired_forwards = desired;
        self.last_error = None;
        if paused || none_wanted {
            ForwardAction::Stop
        } else {
            ForwardAction::Start
        }
    }

    /// Wants the same ports again.
    pub fn restart(&mut self) -> (action: ForwardAction)
        ensures
            final(self).wf(),
            final(self)@ == applied(old(self)@, old(self)@.desired),
            action == apply_action(old(self)@.suspended, old(self)@.desired),
    {
        let desired = ssh_port_forward::copy_forwards(self.desired_forwards.as_slice());
        self.apply_forwards(desired)
    }

    /// Suspends forwarding or takes it up again.
    pub fn set_suspended(&mut self, suspended: bool) -> (action: ForwardAction)
        requires
            old(self).wf(),
        ensures
            final(self).wf(),
            final(self)@ == suspension_set(old(self)@, suspended),
            action == suspension_action(old(self)@, suspended),
    {
        if self.suspended == suspended {
            return ForwardAction::Nothing;
        }
        self.suspended = suspended;
        if suspended {
            self.status_by_forward = statuses_of(
                self.desired_forwards.as_slice(),
                PortForwardState::Pending,
                &Some("Paused while app is backgrounded".to_owned()),
            );
            ForwardAction::Stop
        } else {
            self.restart()
        }
    }

    /// Notes how starting the wanted ports went. On success the connection is told for
    /// which the wanted ports are to be saved, if there is one.
    pub fn finish_apply(&mut self, failure: Option<String>) -> (save_for: Option<i64>)
        ensures
            final(self).wf(),
            final(self)@ == settled(old(self)@, text::optional(failure)),
            save_for == saved_for(old(self)@, text::optional(failure)),
    {
        let state = match failure {
            Some(_) => PortForwardState::Failed,
            None => PortForwardState::Active,
        };
        self.status_by_forward = statuses_of(self.desired_forwards.as_slice(), state, &failure);
        let failed = failure.is_some();
        self.last_error = failure;
        if failed {
            None
        } else {
            self.connection_profile_id
        }
    }
}

/// A port as it is forwarded: where it listens, and where it leads.
#[derive(Clone, Debug, PartialEq, Eq)]
pub struct ForwardTarget {
    pub local_host: String,
    pub local_port: u16,
    pub remote_host: String,
    pub remote_port: u16,
}

/// The host that a port listens on.
pub open spec fn local_host_of(forward: ForwardView) -> Seq<char> {
    match forward.local_host {
        Some(host) => host,
        None => "127.0.0.1"@,
    }
}

/// The host that a port leads to.
pub open spec fn remote_host_of(forward: ForwardView) -> Seq<char> {
    match forward.remote_host {
        Some(host) => host,
        None => "localhost"@,
    }
}

/// Whether a target is that of a forwarded port.
pub open spec fn is_target_of(target: ForwardTarget, forward: ForwardView) -> bool {
    &&& target.local_host@ == local_host_of(forward)
    &&& target.local_port == forward.local_port
    &&& target.remote_host@ == remote_host_of(forward)
    &&& target.remote_port == forward.remote_port
}

/// The target of a forwarded port.
pub fn forward_target(forward: &SshPortForwardOption) -> (target: ForwardTarget)
    ensures
        is_target_of(target, forward@),
{
    ForwardTarget {
        local_host: match &forward.local_host {
            Some(host) => host.clone(),
            None => "127.0.0.1".to_owned(),
        },
        local_port: forward.local_port,
        remote_host: match &forward.remote_host {
            Some(host) => host.clone(),
            None => "localhost".to_owned(),
        },
        remote_port: forward.remote_port,
    }
}

/// The targets of some forwarded ports.
pub fn forward_targets(forwards: &[SshPortForwardOption]) -> (targets: Vec<ForwardTarget>)
    ensures
        targets@.len() == forwards@.len(),
        forall|i: int|
            0 <= i < targets@.len() ==> is_target_of(#[trigger] targets@[i], forwards@[i]@),
{
    let mut targets: Vec<ForwardTarget> = Vec::new();
    let mut i: usize = 0;
    while i < forwards.len()
        invariant
            i <= forwards@.len(),
            targets@.len() == i,
            forall|k: int|
                0 <= k < i ==> is_target_of(#[trigger] targets@[k], forwards@[k]@),
        decreases forwards@.len() - i,
    {
        targets.push(forward_target(&forwards[i]));
        i = i + 1;
    }
    targets
}

/// Why a list of forwarded ports cannot be used.
#[derive(Clone, Debug, PartialEq, Eq)]
pub enum ForwardError {
    /// A local port is wanted more than once.
    Duplicate(u16),
    /// A local port cannot be listened on, for a reason that the system gave.
    Unavailable(u16, String),
}

/// Whether two forwarded ports listen at the same place.
pub open spec fn same_listener(a: ForwardView, b: ForwardView) -> bool {
    a.local_host == b.local_host && a.local_port == b.local_port
}

/// Whether the port at a place listens where an earlier one does.
pub open spec fn is_duplicate(forwards: Seq<ForwardView>, at: int) -> bool {
    exists|earlier: int|
        0 <= earlier < at && same_listener(#[trigger] forwards[earlier], forwards[at])
}

/// Whether a port is fine, as far as it and those before it tell.
pub open spec fn is_usable(
    forwards: Seq<ForwardView>,
    probes: Seq<Option<String>>,
    at: int,
) -> bool {
    !is_duplicate(forwards, at) && probes[at] is None
}

/// The text that an error is reported with.
pub open spec fn forward_error_text(error: ForwardError) -> Seq<char> {
    match error {
        ForwardError::Duplicate(port) => "Local port "@ + text::decimal(port as nat)
            + " is configured more than once"@,
        ForwardError::Unavailable(port, _) => "Local port "@ + text::decimal(port as nat)
            + " is unavailable"@,
    }
}

/// The text that an error is reported with, and what caused it.
pub open spec fn forward_error_details(error: ForwardError) -> Seq<char> {
    match error {
        ForwardError::Duplicate(_) => forward_error_text(error),
        ForwardError::Unavailable(_, cause) => forward_error_text(error) + ": "@ + cause@,
    }
}

impl ForwardError {
    /// The text that the error is reported with.
    pub fn message(&self) -> (message: String)
        ensures
            message@ == forward_error_text(*self),
    {
        let port: u16 = match self {
            ForwardError::Duplicate(port) => *port,
            ForwardError::Unavailable(port, _) => *port,
        };
        let mut message = text::concat("Local port ", text::format_decimal(port as u64).as_str());
        match self {
            ForwardError::Duplicate(_) => message.append(" is configured more than once"),
            ForwardError::Unavailable(_, _) => message.append(" is unavailable"),
        }
        message
    }

    /// The text that the error is reported with, and what caused it.
    pub fn details(&self) -> (details: String)
        ensures
            details@ == forward_error_details(*self),
    {
        let mut details = self.message();
        match self {
            ForwardError::Duplicate(_) => {},
            ForwardError::Unavailable(_, cause) => {
                details.append(": ");
                details.append(cause.as_str());
            },
        }
        details
    }
}

fn same_host(a: &Option<String>, b: &Option<String>) -> (same: bool)
    ensures
        same == (text::optional(*a) == text::optional(*b)),
{
    match (a, b) {
        (Some(a), Some(b)) => text::same_text(a.as_str(), b.as_str()),
        (None, None) => true,
        _ => false,
    }
}

/// Checks forwarded ports in order, given what came of trying to listen on each: the
/// first that is wanted twice or cannot be listened on is the error.
pub fn validate_forwards(
    forwards: &[SshPortForwardOption],
    probes: &[Option<String>],
) -> (result: Result<Vec<SshPortForwardOption>, ForwardError>)
    requires
        probes@.len() == forwards@.len(),
    ensures
        ({
            let views = ssh_port_forward::forwards(forwards@);
            match result {
                Ok(validated) => {
                    &&& ssh_port_forward::forwards(validated@) == views
                    &&& forall|i: int|
                        0 <= i < views.len() ==> is_usable(views, probes@, i)
                },
                Err(error) => exists|at: int|
                    {
                        &&& 0 <= at < views.len()
                        &&& #[trigger] is_first_error(views, probes@, at, error)
                    },
            }
        }),
{
    let ghost views = ssh_port_forward::forwards(forwards@);
    let mut at: usize = 0;
    while at < forwards.len()
        invariant
            probes@.len() == forwards@.len(),
            views == ssh_port_forward::forwards(forwards@),
            at <= forwards@.len(),
            forall|i: int| 0 <= i < at ==> is_usable(views, probes@, i),
        decreases forwards@.len() - at,
    {
        let mut earlier: usize = 0;
        while earlier < at
            invariant
                views == ssh_port_forward::forwards(forwards@),
                probes@.len() == forwards@.len(),
                earlier <= at < forwards@.len(),
                forall|i: int| 0 <= i < at ==> is_usable(views, probes@, i),
                forall|k: int|
                    0 <= k < earlier ==> !same_listener(#[trigger] views[k], views[at as int]),
            decreases at - earlier,
        {
            assert(views[earlier as int] == forwards@[earlier as int]@);
            assert(views[at as int] == forwards@[at as int]@);
            if forwards[earlier].local_port == forwards[at].local_port && same_host(
                &forwards[earlier].local_host,
                &forwards[at].local_host,
            ) {
                assert(is_duplicate(views, at as int));
                let error = ForwardError::Duplicate(forwards[at].local_port);
                assert(is_first_error(views, probes@, at as int, error));
                return Err(error);
            }
            earlier = earlier + 1;
        }
        match &probes[at] {
            Some(cause) => {
                let error = ForwardError::Unavailable(forwards[at].local_port, cause.clone());
                assert(views[at as int] == forwards@[at as int]@);
                assert(is_first_error(views, probes@, at as int, error));
                return Err(error);
            },
            None => {},
        }
        at = at + 1;
    }
    Ok(ssh_port_forward::copy_forwards(forwards))
}

/// Whether the first port that is not fine stands at a place, and is wrong in this way.
pub open spec fn is_first_error(
    forwards: Seq<ForwardView>,
    probes: Seq<Option<String>>,
    at: int,
    error: ForwardError,
) -> bool {
    &&& forall|i: int| 0 <= i < at ==> is_usable(forwards, probes, i)
    &&& if is_duplicate(forwards, at) {
        error == ForwardError::Duplicate(forwards[at].local_port)
    } else {
        &&& probes[at] is Some
        &&& error is Unavailable
        &&& error->Unavailable_0 == forwards[at].local_port
        &&& error->Unavailable_1@ == probes[at]->0@
    }
}

/// Whether every one of some forwarded ports is fine.
pub open spec fn all_usable(forwards: Seq<ForwardView>, probes: Seq<Option<String>>) -> bool {
    forall|i: int| 0 <= i < forwards.len() ==> is_usable(forwards, probes, i)
}

/// Whether the ports of a session stand as they do once a list was refused for its first error.
pub open spec fn is_refused(
    before: ManagerView,
    after: ManagerView,
    forwards: Seq<ForwardView>,
    probes: Seq<Option<String>>,
) -> bool {
    exists|at: int, error: ForwardError|
        {
            &&& 0 <= at < forwards.len()
            &&& #[trigger] is_first_error(forwards, probes, at, error)
            &&& after == settled(before, Some(forward_error_details(error)))
        }
}

impl PortForwardManager {
    /// Goes on with ports that are wanted, given what came of trying to listen on each: the
    /// targets to start, if every port is fine. Otherwise nothing is started, and all ports are
    /// noted as failed.
    pub fn start_forwards(
        &mut self,
        desired: &[SshPortForwardOption],
        probes: &[Option<String>],
    ) -> (targets: Option<Vec<ForwardTarget>>)
        requires
            probes@.len() == desired@.len(),
        ensures
            ({
                let forwards = ssh_port_forward::forwards(desired@);
                match targets {
                    Some(targets) => {
                        &&& all_usable(forwards, probes@)
                        &&& final(self)@ == old(self)@
                        &&& targets@.len() == forwards.len()
                        &&& forall|i: int|
                            0 <= i < targets@.len() ==> is_target_of(
                                #[trigger] targets@[i],
                                forwards[i],
                            )
                    },
                    None => {
                        &&& !all_usable(forwards, probes@)
                        &&& final(self).wf()
                        &&& is_refused(old(self)@, final(self)@, forwards, probes@)
                    },
                }
            }),
    {
        let ghost forwards = ssh_port_forward::forwards(desired@);
        match validate_forwards(desired, probes) {
            Ok(validated) => {
                let targets = forward_targets(validated.as_slice());
                assert forall|i: int| 0 <= i < targets@.len() implies is_target_of(
                    #[trigger] targets@[i],
                    forwards[i],
                ) by {
                    assert(ssh_port_forward::forwards(validated@)[i] == validated@[i]@);
                }
                Some(targets)
            },
            Err(error) => {
                proof {
                    let at = choose|at: int|
                        0 <= at < forwards.len() && #[trigger] is_first_error(
                            forwards,
                            probes@,
                            at,
                            error,
                        );
                    assert(!is_usable(forwards, probes@, at));
                }
                self.finish_apply(Some(error.details()));
                None
            },
        }
    }
}

/// A list of forwarded ports that is refused starts nothing: every wanted port is noted as
/// failed, with the first error of the list, and so is the error of the session.
pub proof fn law_refused_ports_have_failed(
    before: ManagerView,
    after: ManagerView,
    forwards: Seq<ForwardView>,
    probes: Seq<Option<String>>,
)
    requires
        is_refused(before, after, forwards, probes),
    ensures
        after.desired == before.desired,
        after.statuses.len() == before.desired.len(),
        after.last_error is Some,
        forall|i: int|
            0 <= i < after.statuses.len() ==> (#[trigger] after.statuses[i]) == (StatusView {
                spec: before.desired[i],
                state: PortForwardState::Failed,
                message: after.last_error,
            }),
{
}

/// Forwarding takes up again where it was suspended: the same ports are wanted, and
/// starting them is what is done if any is.
pub proof fn law_suspending_loses_no_port(manager: ManagerView)
    requires
        manager_wf(manager),
        !manager.suspended,
    ensures
        ({
            let paused = suspension_set(manager, true);
            let resumed = suspension_set(paused, false);
            &&& paused.desired == manager.desired
            &&& resumed.desired == manager.desired
            &&& !resumed.suspended
            &&& forall|i: int|
                0 <= i < paused.statuses.len() ==> (#[trigger] paused.statuses[i]).state
                    == PortForwardState::Pending
        }),
{
}

/// Ports that are wanted are listed in their order, each of them waiting, and an error of
/// earlier ports is forgotten.
pub proof fn law_wanted_ports_wait(manager: ManagerView, desired: Seq<ForwardView>)
    ensures
        ({
            let after = applied(manager, desired);
            &&& manager_wf(after)
            &&& after.desired == desired
            &&& after.last_error is None
            &&& after.suspended == manager.suspended
            &&& after.connection_profile_id == manager.connection_profile_id
            &&& forall|i: int|
                0 <= i < after.statuses.len() ==> (#[trigger] after.statuses[i]).state
                    == PortForwardState::Pending && after.statuses[i].message is Some
        }),
{
}

/// It makes no difference whether ports are wanted before or after a session is suspended. What
/// is said of a waiting port tells whether the session is suspended.
pub proof fn law_order_of_suspending_is_free(manager: ManagerView, desired: Seq<ForwardView>)
    ensures
        ({
            let first = applied(suspension_set(manager, true), desired);
            let last = suspension_set(applied(manager, desired), true);
            &&& first == last
            &&& forall|i: int|
                0 <= i < first.statuses.len() ==> (#[trigger] first.statuses[i]).message
                    != applied(suspension_set(manager, false), desired).statuses[i].message
        }),
{
    reveal_strlit("Paused while app is backgrounded");
    reveal_strlit("Applying...");
    assert("Paused while app is backgrounded"@.len() != "Applying..."@.len());
}

/// Ports are started exactly if the session runs and wants any. Whatever is forwarded when a
/// session is suspended is stopped, and nothing is done for a session that is told what it knows.
pub proof fn law_only_running_sessions_forward(
    manager: ManagerView,
    desired: Seq<ForwardView>,
    suspended: bool,
)
    ensures
        apply_action(manager.suspended, desired) is Start <==> !manager.suspended && desired.len()
            > 0,
        apply_action(manager.suspended, desired) is Stop <==> manager.suspended || desired.len()
            == 0,
        suspension_action(manager, suspended) is Nothing <==> suspended == manager.suspended,
        suspension_action(manager, suspended) is Start <==> manager.suspended && !suspended
            && manager.desired.len() > 0,
        suspension_set(manager, suspended).suspended == suspended,
        suspension_set(suspension_set(manager, suspended), suspended) == suspension_set(
            manager,
            suspended,
        ),
        suspension_set(manager, manager.suspended) == manager,
        suspension_set(manager, suspended).connection_profile_id == manager.connection_profile_id,
{
}

/// Ports are noted as forwarded exactly if starting them succeeded; a failure is told of every
/// one of them and of the session. They are saved exactly if they were started for a saved
/// connection.
pub proof fn law_ports_stand_as_starting_went(manager: ManagerView, failure: Option<Seq<char>>)
    ensures
        ({
            let after = settled(manager, failure);
            &&& manager_wf(after)
            &&& after.desired == manager.desired
            &&& after.suspended == manager.suspended
            &&& after.connection_profile_id == manager.connection_profile_id
            &&& after.last_error == failure
            &&& forall|i: int|
                0 <= i < after.statuses.len() ==> {
                    &&& (#[trigger] after.statuses[i]).message == failure
                    &&& after.statuses[i].state == PortForwardState::Active <==> failure is None
                    &&& after.statuses[i].state == PortForwardState::Failed <==> failure is Some
                }
        }),
        saved_for(manager, failure) is Some <==> failure is None
            && manager.connection_profile_id is Some,
        saved_for(manager, failure) is Some ==> saved_for(manager, failure)
            == manager.connection_profile_id,
{
}

/// A list of ports is fine exactly if no two of them listen on the same port of the same host
/// and each could be listened on.
pub proof fn law_fine_ports_listen_apart(
    forwards: Seq<ForwardView>,
    probes: Seq<Option<String>>,
)
    requires
        probes.len() == forwards.len(),
    ensures
        all_usable(forwards, probes) <==> {
            &&& forall|i: int| 0 <= i < probes.len() ==> (#[trigger] probes[i]) is None
            &&& forall|i: int, j: int|
                0 <= i < j < forwards.len() ==> (#[trigger] forwards[i]).local_port != (
                #[trigger] forwards[j]).local_port || forwards[i].local_host
                    != forwards[j].local_host
        },
{
    if all_usable(forwards, probes) {
        assert forall|i: int, j: int| 0 <= i < j < forwards.len() implies (
        #[trigger] forwards[i]).local_port != (#[trigger] forwards[j]).local_port
            || forwards[i].local_host != forwards[j].local_host by {
            assert(is_usable(forwards, probes, j));
            assert(!is_duplicate(forwards, j));
            assert(!same_listener(forwards[i], forwards[j]));
        }
        assert forall|i: int| 0 <= i < probes.len() implies (#[trigger] probes[i]) is None by {
            assert(is_usable(forwards, probes, i));
        }
    }
    if (forall|i: int| 0 <= i < probes.len() ==> (#[trigger] probes[i]) is None) && (forall|
        i: int,
        j: int,
    |
        0 <= i < j < forwards.len() ==> (#[trigger] forwards[i]).local_port != (
        #[trigger] forwards[j]).local_port || forwards[i].local_host != forwards[j].local_host) {
        assert forall|i: int| 0 <= i < forwards.len() implies is_usable(forwards, probes, i) by {
            assert(probes[i] is None);
        }
    }
}

/// A list is refused for a port in it: one that is said to be wanted twice stands in the list
/// twice, and one that is said to be unavailable could not be listened on, for the reason told.
pub proof fn law_ports_are_refused_for_a_reason(
    forwards: Seq<ForwardView>,
    probes: Seq<Option<String>>,
    at: int,
    error: ForwardError,
)
    requires
        probes.len() == forwards.len(),
        0 <= at < forwards.len(),
        is_first_error(forwards, probes, at, error),
    ensures
        !all_usable(forwards, probes),
        error matches ForwardError::Duplicate(port) ==> {
            &&& forwards[at].local_port == port
            &&& exists|earlier: int|
                {
                    &&& 0 <= earlier < at
                    &&& (#[trigger] forwards[earlier]).local_port == port
                    &&& forwards[earlier].local_host == forwards[at].local_host
                }
        },
        error matches ForwardError::Unavailable(port, cause) ==> {
            &&& forwards[at].local_port == port
            &&& probes[at] is Some
            &&& probes[at]->0@ == cause@
        },
        forall|i: int| 0 <= i < at ==> (#[trigger] probes[i]) is None,
{
    assert(!is_usable(forwards, probes, at));
    assert forall|i: int| 0 <= i < at implies (#[trigger] probes[i]) is None by {
        assert(is_usable(forwards, probes, i));
    }
    if is_duplicate(forwards, at) {
        let earlier = choose|earlier: int|
            0 <= earlier < at && same_listener(#[trigger] forwards[earlier], forwards[at]);
        assert(forwards[earlier].local_port == forwards[at].local_port);
    }
}

/// The text of an error names the port, the details begin with it and end with the cause.
/// Errors of different sorts, or of different ports, are told in different words.
pub proof fn law_port_errors_name_the_port(port: u16, other: u16, cause: String)
    ensures
        ({
            let twice = ForwardError::Duplicate(port);
            let refused = ForwardError::Unavailable(port, cause);
            &&& text::has_part(forward_error_text(twice), text::decimal(port as nat))
            &&& text::has_part(forward_error_text(refused), text::decimal(port as nat))
            &&& forward_error_details(twice) == forward_error_text(twice)
            &&& forward_error_text(refused).is_prefix_of(forward_error_details(refused))
            &&& cause@.is_suffix_of(forward_error_details(refused))
            &&& forward_error_text(twice) == forward_error_text(ForwardError::Duplicate(other))
                ==> port == other
            &&& forward_error_text(refused) == forward_error_text(
                ForwardError::Unavailable(other, cause),
            ) ==> port == other
            &&& forward_error_text(twice) != forward_error_text(
                ForwardError::Unavailable(other, cause),
            )
        }),
{
    reveal_strlit("Local port ");
    reveal_strlit(" is configured more than once");
    reveal_strlit(" is unavailable");
    let twice = forward_error_text(ForwardError::Duplicate(port));
    let refused = forward_error_text(ForwardError::Unavailable(port, cause));
    let other_twice = forward_error_text(ForwardError::Duplicate(other));
    let other_refused = forward_error_text(ForwardError::Unavailable(other, cause));
    let details = forward_error_details(ForwardError::Unavailable(port, cause));
    let digits = text::decimal(port as nat);
    let other_digits = text::decimal(other as nat);
    text::lemma_decimal_parses_back(port as nat);
    text::lemma_decimal_parses_back(other as nat);
    assert(twice.subrange(11, 11int + digits.len()) =~= digits);
    assert(text::stands_at(twice, digits, 11));
    assert(refused.subrange(11, 11int + digits.len()) =~= digits);
    assert(text::stands_at(refused, digits, 11));
    assert(details.subrange(0, refused.len() as int) =~= refused);
    assert(details.subrange(details.len() - cause@.len(), details.len() as int) =~= cause@);
    if twice == other_twice {
        assert(digits =~= other_twice.subrange(11, twice.len() - 29));
        assert(other_digits =~= other_twice.subrange(11, twice.len() - 29));
    }
    if refused == other_refused {
        assert(digits =~= other_refused.subrange(11, refused.len() - 15));
        assert(other_digits =~= other_refused.subrange(11, refused.len() - 15));
    }
    assert(twice.last() == 'e' && other_refused.last() == 'e');
    assert(twice[twice.len() - 2] == 'c');
    assert(other_refused[other_refused.len() - 2] == 'l');
}

/// A port listens on the host and leads to the host that it was given. Where it was given none,
/// it listens on this machine and leads to the server itself.
pub proof fn law_given_hosts_are_used(forward: ForwardView, target: ForwardTarget)
    requires
        is_target_of(target, forward),
    ensures
        forward.local_host is Some ==> target.local_host@ == forward.local_host->0,
        forward.remote_host is Some ==> target.remote_host@ == forward.remote_host->0,
        forward.local_host is None ==> target.local_host@ == "127.0.0.1"@,
        forward.remote_host is None ==> target.remote_host@ == "localhost"@,
        target.local_port == forward.local_port,
        target.remote_port == forward.remote_port,
{
}

} // verus!
