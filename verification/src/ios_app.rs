//! The app itself: its version, how it counts its starts, the environment that it sets up,
//! and the panels of its workspace.

use crate::mobile_settings::{px, MobileFeaturePolicy, Pixels};
use crate::persistence::{MobileWorkspaceSnapshotV1, SessionRestoreState};
use crate::remote_platform;
use crate::remote_platform::{ReleaseChannel, Version};
use crate::text;
use vstd::prelude::*;

verus! {

/// The app.
#[derive(Clone, Copy, Debug, PartialEq, Eq, Structural)]
pub struct ZedIosApp;

// The version.

/// The version that a line of a package's manifest tells.
pub open spec fn version_in_line(line: Seq<char>) -> Option<Seq<char>> {
    let trimmed = text::trimmed(line);
    let start = "version = \""@;
    let rest = trimmed.skip(start.len() as int);
    if start.is_prefix_of(trimmed) && rest.len() > 0 && rest.last() == '"' {
        Some(rest.drop_last())
    } else {
        None
    }
}

/// The version that the first of some lines tells that tells one.
pub open spec fn version_in_lines(lines: Seq<Seq<char>>) -> Option<Seq<char>>
    decreases lines.len(),
{
    if lines.len() == 0 {
        None
    } else {
        match version_in_line(lines.first()) {
            Some(version) => Some(version),
            None => version_in_lines(lines.drop_first()),
        }
    }
}

fn version_of_line(line: &str) -> (version: Option<String>)
    ensures
        text::optional(version) == version_in_line(line@),
{
    let trimmed = text::trim(line);
    let start = "version = \"";
    if !text::starts_with(trimmed.as_str(), start) {
        return None;
    }
    let chars = text::chars_of(trimmed.as_str());
    let from: usize = text::chars_of(start).len();
    let length: usize = chars.len();
    if length <= from || chars[length - 1] != '"' {
        return None;
    }
    let version = text::text_of(chars.as_slice(), from, length - 1);
    assert(version@ =~= trimmed@.skip(start@.len() as int).drop_last());
    Some(version)
}

/// The version of the app, as the manifest of its package tells it.
pub fn ios_app_version_string(manifest: &str) -> (version: Option<String>)
    ensures
        text::optional(version) == version_in_lines(text::split(manifest@, '\n')),
{
    let lines = text::split_on(manifest, '\n');
    let ghost all = text::texts(lines@);
    let mut i: usize = 0;
    assert(all.skip(0) =~= all);
    while i < lines.len()
        invariant
            i <= lines@.len(),
            all == text::texts(lines@),
            all == text::split(manifest@, '\n'),
            version_in_lines(all) == version_in_lines(all.skip(i as int)),
        decreases lines@.len() - i,
    {
        proof {
            let left = all.skip(i as int);
            assert(left.first() == lines@[i as int]@);
            assert(left.drop_first() =~= all.skip(i + 1));
        }
        match version_of_line(lines[i].as_str()) {
            Some(version) => {
                return Some(version);
            },
            None => {},
        }
        i = i + 1;
    }
    None
}

/// The parts of the version of the app, if the manifest of its package tells one.
pub open spec fn version_in_manifest(manifest: Seq<char>) -> Option<
    (u64, u64, u64, Seq<char>, Seq<char>),
> {
    match version_in_lines(text::split(manifest, '\n')) {
        Some(told) => remote_platform::parsed_version(told),
        None => None,
    }
}

/// The version of the app, if the manifest of its package tells one.
pub fn ios_app_version(manifest: &str) -> (version: Option<Version>)
    ensures
        match version {
            Some(version) => version_in_manifest(manifest@) == Some(
                remote_platform::version_parts(version@),
            ),
            None => version_in_manifest(manifest@) is None,
        },
{
    match ios_app_version_string(manifest) {
        Some(told) => Version::parse(told.as_str()),
        None => None,
    }
}

/// The channel that the app belongs to.
pub fn ios_release_channel() -> (channel: ReleaseChannel)
    ensures
        channel == ReleaseChannel::Preview,
{
    ReleaseChannel::Preview
}

// How starts are counted.

/// Something that identifies a device or an installation.
#[derive(Clone, Debug, PartialEq, Eq)]
pub enum IdType {
    New(String),
    Existing(String),
}

impl IdType {
    /// The identifier.
    pub open spec fn text(self) -> Seq<char> {
        match self {
            IdType::New(id) => id@,
            IdType::Existing(id) => id@,
        }
    }

    /// The identifier.
    pub fn as_str(&self) -> (id: &str)
        ensures
            id@ == self.text(),
    {
        match self {
            IdType::New(id) => id.as_str(),
            IdType::Existing(id) => id.as_str(),
        }
    }
}

/// Whether a text is a random UUID: 32 hexadecimal digits in lower case with hyphens behind the
/// 8th, the 12th, the 16th and the 20th; the digits for the version and the variant are fixed.
pub open spec fn is_random_uuid(id: Seq<char>) -> bool {
    &&& id.len() == 36
    &&& forall|i: int|
        0 <= i < 36 ==> if i == 8 || i == 13 || i == 18 || i == 23 {
            #[trigger] id[i] == '-'
        } else {
            '0' <= id[i] <= '9' || 'a' <= id[i] <= 'f'
        }
    &&& id[14] == '4'
    &&& id[19] == '8' || id[19] == '9' || id[19] == 'a' || id[19] == 'b'
}

/// `Uuid::new_v4` of the crate `uuid`, as text: a random UUID. Nothing is said of its digits
/// but for the version and the variant.
#[verifier::external_body]
pub(crate) fn random_uuid() -> (id: String)
    ensures
        is_random_uuid(id@),
{
    uuid::Uuid::new_v4().to_string()
}

/// The identifier of the device: the one that is stored, or else a fresh one to store.
pub open spec fn identified(stored: Option<String>, fresh: String) -> IdType {
    match stored {
        Some(stored) => IdType::Existing(stored),
        None => IdType::New(fresh),
    }
}

/// The identifier of the device: the one that is stored, or else a fresh one to store.
pub fn system_id_or(stored: Option<String>, fresh: String) -> (id: IdType)
    ensures
        id == identified(stored, fresh),
{
    match stored {
        Some(stored) => IdType::Existing(stored),
        None => IdType::New(fresh),
    }
}

/// The identifier of the device: the one that is stored, or else a random one to store.
pub fn system_id(stored: Option<String>) -> (id: IdType)
    ensures
        exists|fresh: String|
            #[trigger] is_random_uuid(fresh@) && id == identified(stored, fresh),
{
    let fresh = random_uuid();
    assert(is_random_uuid(fresh@));
    system_id_or(stored, fresh)
}

/// The identifier of an installation, and what is to be stored.
#[derive(Clone, Debug, PartialEq, Eq)]
pub struct InstallationId {
    pub id: IdType,
    /// Whether the identifier is to be stored.
    pub store: bool,
    /// Whether the one under the old name is to be deleted.
    pub delete_legacy: bool,
}

/// The identifier of the installation: the one under the old name, which moves to the new one;
/// else the one under the new name; else a fresh one to store.
pub open spec fn installed_as(
    legacy: Option<String>,
    stored: Option<String>,
    fresh: String,
) -> InstallationId {
    match (legacy, stored) {
        (Some(legacy), _) => InstallationId {
            id: IdType::Existing(legacy),
            store: true,
            delete_legacy: true,
        },
        (None, Some(stored)) => InstallationId {
            id: IdType::Existing(stored),
            store: false,
            delete_legacy: false,
        },
        (None, None) => InstallationId {
            id: IdType::New(fresh),
            store: true,
            delete_legacy: false,
        },
    }
}

/// The identifier of the installation: the one that is stored under the old name, which
/// moves to the new one; else the one under the new name; else a fresh one to store.
pub fn installation_id_or(legacy: Option<String>, stored: Option<String>, fresh: String) -> (result:
    InstallationId)
    ensures
        result == installed_as(legacy, stored, fresh),
{
    match legacy {
        Some(legacy) => InstallationId {
            id: IdType::Existing(legacy),
            store: true,
            delete_legacy: true,
        },
        None => match stored {
            Some(stored) => InstallationId {
                id: IdType::Existing(stored),
                store: false,
                delete_legacy: false,
            },
            None => InstallationId { id: IdType::New(fresh), store: true, delete_legacy: false },
        },
    }
}

/// The identifier of the installation, with a random one if none is stored.
pub fn installation_id(legacy: Option<String>, stored: Option<String>) -> (result: InstallationId)
    ensures
        exists|fresh: String|
            #[trigger] is_random_uuid(fresh@) && result == installed_as(legacy, stored, fresh),
{
    let fresh = random_uuid();
    assert(is_random_uuid(fresh@));
    installation_id_or(legacy, stored, fresh)
}

/// The events that are recorded when the app starts.
#[derive(Clone, Copy, Debug, PartialEq, Eq, Structural)]
pub enum StartEvent {
    AppFirstOpened,
    AppFirstOpenedForReleaseChannel,
    AppOpened,
}

/// The name of an event.
pub open spec fn event_name(event: StartEvent) -> Seq<char> {
    match event {
        StartEvent::AppFirstOpened => "App First Opened"@,
        StartEvent::AppFirstOpenedForReleaseChannel =>
            "App First Opened For Release Channel"@,
        StartEvent::AppOpened => "App Opened"@,
    }
}

impl StartEvent {
    /// The name of the event.
    pub fn name(self) -> (name: &'static str)
        ensures
            name@ == event_name(self),
    {
        match self {
            StartEvent::AppFirstOpened => "App First Opened",
            StartEvent::AppFirstOpenedForReleaseChannel => "App First Opened For Release Channel",
            StartEvent::AppOpened => "App Opened",
        }
    }
}

/// The events that are recorded when the app starts, with the identifiers of the device and
/// of the installation as far as they are known.
pub open spec fn events_at_start(system: Option<IdType>, installation: Option<IdType>) -> Seq<
    StartEvent,
> {
    match (system, installation) {
        (Some(IdType::New(_)), Some(IdType::New(_))) => seq![
            StartEvent::AppFirstOpened,
            StartEvent::AppFirstOpenedForReleaseChannel,
        ],
        (Some(IdType::Existing(_)), Some(IdType::New(_))) => seq![
            StartEvent::AppFirstOpenedForReleaseChannel,
        ],
        _ => seq![StartEvent::AppOpened],
    }
}

/// The events that are recorded when the app starts.
pub fn start_events(system: &Option<IdType>, installation: &Option<IdType>) -> (events: Vec<
    StartEvent,
>)
    ensures
        events@ == events_at_start(*system, *installation),
{
    let events = match (system, installation) {
        (Some(IdType::New(_)), Some(IdType::New(_))) => vec![
            StartEvent::AppFirstOpened,
            StartEvent::AppFirstOpenedForReleaseChannel,
        ],
        (Some(IdType::Existing(_)), Some(IdType::New(_))) => vec![
            StartEvent::AppFirstOpenedForReleaseChannel,
        ],
        _ => vec![StartEvent::AppOpened],
    };
    assert(events@ =~= events_at_start(*system, *installation));
    events
}

// The environment.

/// The value of a variable in a list of them.
pub open spec fn has_variable(environment: Seq<(String, String)>, name: Seq<char>) -> bool {
    exists|i: int| 0 <= i < environment.len() && (#[trigger] environment[i]).0@ == name
}

fn lists_variable(environment: &[(String, String)], name: &str) -> (yes: bool)
    ensures
        yes == has_variable(environment@, name@),
{
    let mut i: usize = 0;
    while i < environment.len()
        invariant
            i <= environment@.len(),
            forall|j: int| 0 <= j < i ==> (#[trigger] environment@[j]).0@ != name@,
        decreases environment@.len() - i,
    {
        if text::same_text(environment[i].0.as_str(), name) {
            return true;
        }
        i = i + 1;
    }
    false
}

/// Variables with their values.
pub open spec fn variables(environment: Seq<(String, String)>) -> Seq<(Seq<char>, Seq<char>)> {
    environment.map_values(|variable: (String, String)| (variable.0@, variable.1@))
}

/// A variable, if it is missing from an environment.
pub open spec fn missing_variable(
    environment: Seq<(String, String)>,
    name: Seq<char>,
    value: Seq<char>,
) -> Seq<(Seq<char>, Seq<char>)> {
    if has_variable(environment, name) {
        Seq::empty()
    } else {
        seq![(name, value)]
    }
}

/// The variables that are set because they are missing, by their names.
pub open spec fn synthesized(environment: Seq<(String, String)>, home_directory: Seq<char>) -> Seq<
    (Seq<char>, Seq<char>),
> {
    missing_variable(environment, "HOME"@, home_directory) + missing_variable(
        environment,
        "SHELL"@,
        "/bin/sh"@,
    ) + missing_variable(environment, "USER"@, "zed_ios"@)
}

fn push_missing(
    result: &mut Vec<(String, String)>,
    environment: &[(String, String)],
    name: &str,
    value: &str,
)
    ensures
        variables(final(result)@) == variables(old(result)@) + missing_variable(
            environment@,
            name@,
            value@,
        ),
{
    let ghost before = result@;
    if !lists_variable(environment, name) {
        result.push((name.to_owned(), value.to_owned()));
        assert(variables(result@) =~= variables(before) + seq![(name@, value@)]);
    } else {
        assert(variables(result@) =~= variables(before) + Seq::empty());
    }
}

/// The variables that the process needs and its environment does not have, with the values
/// that they get; in the order of their names.
pub fn synthesized_ios_process_environment(
    existing_environment: &[(String, String)],
    home_directory: &str,
) -> (environment: Vec<(String, String)>)
    ensures
        variables(environment@) == synthesized(existing_environment@, home_directory@),
{
    let mut environment: Vec<(String, String)> = Vec::new();
    let ghost nothing = variables(environment@);
    push_missing(&mut environment, existing_environment, "HOME", home_directory);
    push_missing(&mut environment, existing_environment, "SHELL", "/bin/sh");
    push_missing(&mut environment, existing_environment, "USER", "zed_ios");
    proof {
        assert(nothing =~= Seq::empty());
        assert(variables(environment@) =~= synthesized(existing_environment@, home_directory@));
    }
    environment
}

/// No variable that the environment has is set again, and afterwards it has all three.
pub proof fn law_only_missing_variables_are_set(
    environment: Seq<(String, String)>,
    home_directory: Seq<char>,
    i: int,
)
    requires
        0 <= i < synthesized(environment, home_directory).len(),
    ensures
        ({
            let (name, _) = synthesized(environment, home_directory)[i];
            &&& !has_variable(environment, name)
            &&& name == "HOME"@ || name == "SHELL"@ || name == "USER"@
        }),
{
}

/// Each of the three variables is either there already or is set.
pub proof fn law_needed_variables_are_there(
    environment: Seq<(String, String)>,
    home_directory: Seq<char>,
)
    ensures
        has_variable(environment, "HOME"@) || synthesized(environment, home_directory).contains(
            ("HOME"@, home_directory),
        ),
        has_variable(environment, "SHELL"@) || synthesized(environment, home_directory).contains(
            ("SHELL"@, "/bin/sh"@),
        ),
        has_variable(environment, "USER"@) || synthesized(environment, home_directory).contains(
            ("USER"@, "zed_ios"@),
        ),
{
    let home = missing_variable(environment, "HOME"@, home_directory);
    let shell = missing_variable(environment, "SHELL"@, "/bin/sh"@);
    let user = missing_variable(environment, "USER"@, "zed_ios"@);
    let all = synthesized(environment, home_directory);
    if !has_variable(environment, "HOME"@) {
        assert(all[0] == home[0]);
    }
    if !has_variable(environment, "SHELL"@) {
        assert(all[home.len() as int] == shell[0]);
    }
    if !has_variable(environment, "USER"@) {
        assert(all[home.len() + shell.len() as int] == user[0]);
    }
}

// The workspace.

/// The saved state of the workspace of a connection, as it was saved: only that of the
/// connection itself.
pub open spec fn snapshot_of(
    connection_profile_id: Option<i64>,
    state: Option<SessionRestoreState>,
) -> Option<Seq<char>> {
    match (connection_profile_id, state) {
        (Some(id), Some(state)) => if state.connection_profile_id == id {
            text::optional(state.workspace_state_json)
        } else {
            None
        },
        _ => None,
    }
}

/// The saved state of the workspace of a connection, as it was saved.
pub fn load_mobile_workspace_snapshot(
    connection_profile_id: Option<i64>,
    state: &Option<SessionRestoreState>,
) -> (raw: Option<String>)
    ensures
        text::optional(raw) == snapshot_of(connection_profile_id, *state),
{
    let id: i64 = match connection_profile_id {
        Some(id) => id,
        None => {
            return None;
        },
    };
    match state {
        Some(state) => if state.connection_profile_id == id {
            text::copy_optional(&state.workspace_state_json)
        } else {
            None
        },
        None => None,
    }
}

/// Whether AI can be used: if it is wanted on the device and not disabled altogether.
pub open spec fn ai_enabled(policy: MobileFeaturePolicy, ai_disabled: bool) -> bool {
    policy.show_ai && !ai_disabled
}

/// Whether AI can be used.
pub fn mobile_ai_enabled(policy: &MobileFeaturePolicy, ai_disabled: bool) -> (yes: bool)
    ensures
        yes == ai_enabled(*policy, ai_disabled),
{
    policy.show_ai && !ai_disabled
}

/// A panel on the left.
#[derive(Clone, Copy, Debug, PartialEq, Eq, Structural)]
pub enum MobileLeftPanel {
    ProjectPanel,
    OutlinePanel,
}

/// A panel on the right.
#[derive(Clone, Copy, Debug, PartialEq, Eq, Structural)]
pub enum MobileRightPanel {
    GitPanel,
    AgentPanel,
}

/// Which panels of the workspace are open.
#[derive(Clone, Copy, Debug, PartialEq, Eq, Structural)]
pub struct MobilePanelLayout {
    pub active_left_panel: Option<MobileLeftPanel>,
    pub active_right_panel: Option<MobileRightPanel>,
    pub show_terminal_panel: bool,
    pub left_dock_open: bool,
    pub right_dock_open: bool,
    pub bottom_dock_open: bool,
}

/// Whether a tool is the one in use.
pub open spec fn uses_tool(snapshot: Option<MobileWorkspaceSnapshotV1>, tool: Seq<char>) -> bool {
    match snapshot {
        Some(snapshot) => text::optional(snapshot.active_tool) == Some(tool),
        None => false,
    }
}

/// Which panels are open in a workspace: by what was saved of it, else only the left one.
pub open spec fn layout_of(snapshot: Option<MobileWorkspaceSnapshotV1>) -> MobilePanelLayout {
    let left_open = match snapshot {
        Some(snapshot) => snapshot.left_sidebar_visible,
        None => true,
    };
    let right = if uses_tool(snapshot, "agent"@) {
        Some(MobileRightPanel::AgentPanel)
    } else if uses_tool(snapshot, "git"@) {
        Some(MobileRightPanel::GitPanel)
    } else {
        match snapshot {
            Some(snapshot) => if snapshot.agent_visible {
                Some(MobileRightPanel::AgentPanel)
            } else if snapshot.git_panel_visible {
                Some(MobileRightPanel::GitPanel)
            } else {
                None
            },
            None => None,
        }
    };
    let terminal = match snapshot {
        Some(saved) => saved.terminal_visible || uses_tool(snapshot, "terminal"@),
        None => false,
    };
    MobilePanelLayout {
        active_left_panel: if !left_open {
            None
        } else if uses_tool(snapshot, "outline"@) {
            Some(MobileLeftPanel::OutlinePanel)
        } else {
            Some(MobileLeftPanel::ProjectPanel)
        },
        active_right_panel: right,
        show_terminal_panel: terminal,
        left_dock_open: left_open,
        right_dock_open: right is Some,
        bottom_dock_open: terminal,
    }
}

fn tool_is(snapshot: &MobileWorkspaceSnapshotV1, tool: &str) -> (yes: bool)
    ensures
        yes == uses_tool(Some(*snapshot), tool@),
{
    match &snapshot.active_tool {
        Some(active) => text::same_text(active.as_str(), tool),
        None => false,
    }
}

/// The panels that the three docks are to show: left, right, and whether the terminal is at the
/// bottom.
pub open spec fn panels_requested(layout: MobilePanelLayout) -> (
    Option<MobileLeftPanel>,
    Option<MobileRightPanel>,
    bool,
) {
    (
        if layout.left_dock_open {
            layout.active_left_panel
        } else {
            None
        },
        if layout.right_dock_open {
            layout.active_right_panel
        } else {
            None
        },
        layout.bottom_dock_open,
    )
}

impl MobilePanelLayout {
    /// Which panels are open in a workspace: by what was saved of it, else only the left
    /// one.
    pub fn from_snapshot(snapshot: Option<&MobileWorkspaceSnapshotV1>) -> (layout: Self)
        ensures
            layout == layout_of(
                match snapshot {
                    Some(snapshot) => Some(*snapshot),
                    None => None,
                },
            ),
    {
        let snapshot = match snapshot {
            Some(snapshot) => snapshot,
            None => {
                return MobilePanelLayout {
                    active_left_panel: Some(MobileLeftPanel::ProjectPanel),
                    active_right_panel: None,
                    show_terminal_panel: false,
                    left_dock_open: true,
                    right_dock_open: false,
                    bottom_dock_open: false,
                };
            },
        };
        let left_dock_open = snapshot.left_sidebar_visible;
        let active_left_panel = if !left_dock_open {
            None
        } else if tool_is(snapshot, "outline") {
            Some(MobileLeftPanel::OutlinePanel)
        } else {
            Some(MobileLeftPanel::ProjectPanel)
        };
        let active_right_panel = if tool_is(snapshot, "agent") {
            Some(MobileRightPanel::AgentPanel)
        } else if tool_is(snapshot, "git") {
            Some(MobileRightPanel::GitPanel)
        } else if snapshot.agent_visible {
            Some(MobileRightPanel::AgentPanel)
        } else if snapshot.git_panel_visible {
            Some(MobileRightPanel::GitPanel)
        } else {
            None
        };
        let show_terminal_panel = snapshot.terminal_visible || tool_is(snapshot, "terminal");
        MobilePanelLayout {
            active_left_panel,
            active_right_panel,
            show_terminal_panel,
            left_dock_open,
            right_dock_open: active_right_panel.is_some(),
            bottom_dock_open: show_terminal_panel,
        }
    }

    /// The panels that the three docks are to show: left, right, and whether the terminal
    /// is at the bottom.
    pub fn requested_panels(&self) -> (requested: (
        Option<MobileLeftPanel>,
        Option<MobileRightPanel>,
        bool,
    ))
        ensures
            requested == panels_requested(*self),
    {
        (
            if self.left_dock_open {
                self.active_left_panel
            } else {
                None
            },
            if self.right_dock_open {
                self.active_right_panel
            } else {
                None
            },
            self.bottom_dock_open,
        )
    }
}

/// A dock is open exactly if there is a panel that it shows.
pub proof fn law_open_docks_show_a_panel(snapshot: Option<MobileWorkspaceSnapshotV1>)
    ensures
        layout_of(snapshot).left_dock_open <==> layout_of(snapshot).active_left_panel is Some,
        layout_of(snapshot).right_dock_open <==> layout_of(snapshot).active_right_panel is Some,
        layout_of(snapshot).bottom_dock_open <==> layout_of(snapshot).show_terminal_panel,
{
}

/// What happens to a dock.
#[derive(Clone, Copy, Debug, PartialEq, Eq, Structural)]
pub enum DockChange {
    /// The panel at this place is shown, and the dock is opened.
    Show(usize),
    Close,
}

/// What happens to a dock, from the place of the panel that is requested, if one is.
pub open spec fn change_of_dock(requested: Option<usize>) -> DockChange {
    match requested {
        Some(index) => DockChange::Show(index),
        None => DockChange::Close,
    }
}

/// What happens to a dock, from where the requested panel stands in it.
pub fn dock_change(requested: Option<usize>) -> (change: DockChange)
    ensures
        change == change_of_dock(requested),
{
    match requested {
        Some(index) => DockChange::Show(index),
        None => DockChange::Close,
    }
}

/// How a panel is added to the workspace.
#[derive(Clone, Copy, Debug, PartialEq, Eq, Structural)]
pub struct PanelAttachment {
    /// Whether the panel is added; else the one that is there is kept.
    pub add: bool,
    /// Whether the size is set.
    pub set_size: bool,
    pub size: Option<Pixels>,
    pub open: bool,
}

/// How a panel is added to a workspace.
pub open spec fn attachment_of(
    already_there: bool,
    size: Option<Pixels>,
    open_after_attach: bool,
) -> PanelAttachment {
    PanelAttachment {
        add: !already_there,
        set_size: !already_there || size is Some,
        size,
        open: open_after_attach,
    }
}

/// How a panel is added to a workspace that may have one of its sort: then that one is kept,
/// and only takes the size that is told.
pub fn attach_mobile_panel(already_there: bool, size: Option<Pixels>, open_after_attach: bool) -> (attachment:
    PanelAttachment)
    ensures
        attachment == attachment_of(already_there, size, open_after_attach),
{
    PanelAttachment {
        add: !already_there,
        set_size: !already_there || size.is_some(),
        size,
        open: open_after_attach,
    }
}

/// How the panels of a workspace are set up.
#[derive(Clone, Copy, Debug, PartialEq, Eq, Structural)]
pub struct MobilePanels {
    pub sidebar_width: Pixels,
    pub git_panel_width: Pixels,
    pub terminal_height: Pixels,
    pub open_project_panel: bool,
    pub open_outline_panel: bool,
    pub open_git_panel: bool,
    pub open_terminal_panel: bool,
    pub add_agent_panel: bool,
    pub open_agent_panel: bool,
}

/// How wide the panel for Git is.
pub open spec fn git_width(policy: MobileFeaturePolicy) -> int {
    if policy.mobile_git_modals {
        if policy.compact_panels {
            280
        } else {
            308
        }
    } else if policy.compact_panels {
        300
    } else {
        340
    }
}

/// Whether the panels of a workspace are set up by the settings and by what was saved.
pub open spec fn are_panels_for(
    panels: MobilePanels,
    policy: MobileFeaturePolicy,
    ai_disabled: bool,
    saved: Option<MobileWorkspaceSnapshotV1>,
) -> bool {
    let layout = layout_of(saved);
    &&& panels.sidebar_width.hundredths == if policy.compact_panels {
        22400int
    } else {
        25600
    }
    &&& panels.git_panel_width.hundredths == 100 * git_width(policy)
    &&& panels.terminal_height == policy.terminal_default_height
    &&& panels.open_project_panel == (layout.active_left_panel == Some(
        MobileLeftPanel::ProjectPanel,
    ))
    &&& panels.open_outline_panel == (layout.active_left_panel == Some(
        MobileLeftPanel::OutlinePanel,
    ))
    &&& panels.open_git_panel == (layout.active_right_panel == Some(
        MobileRightPanel::GitPanel,
    ))
    &&& panels.open_terminal_panel == layout.show_terminal_panel
    &&& panels.add_agent_panel == ai_enabled(policy, ai_disabled)
    &&& panels.open_agent_panel == (panels.add_agent_panel && match saved {
        Some(saved) => saved.agent_visible || uses_tool(Some(saved), "agent"@),
        None => false,
    })
}

/// How the panels of a workspace are set up, by the settings and by what was saved.
pub fn initialize_mobile_panels(
    policy: &MobileFeaturePolicy,
    ai_disabled: bool,
    snapshot: Option<&MobileWorkspaceSnapshotV1>,
) -> (panels: MobilePanels)
    ensures
        ({
            let saved = match snapshot {
                Some(snapshot) => Some(*snapshot),
                None => None,
            };
            are_panels_for(panels, *policy, ai_disabled, saved)
        }),
{
    let layout = MobilePanelLayout::from_snapshot(snapshot);
    let sidebar_width = if policy.compact_panels {
        px(224)
    } else {
        px(256)
    };
    let git_panel_width = if policy.mobile_git_modals {
        if policy.compact_panels {
            px(280)
        } else {
            px(308)
        }
    } else if policy.compact_panels {
        px(300)
    } else {
        px(340)
    };
    let add_agent_panel = mobile_ai_enabled(policy, ai_disabled);
    let wants_agent = match snapshot {
        Some(snapshot) => snapshot.agent_visible || tool_is(snapshot, "agent"),
        None => false,
    };
    MobilePanels {
        sidebar_width,
        git_panel_width,
        terminal_height: policy.terminal_default_height,
        open_project_panel: layout.left_dock_open && layout.active_left_panel == Some(
            MobileLeftPanel::ProjectPanel,
        ),
        open_outline_panel: layout.left_dock_open && layout.active_left_panel == Some(
            MobileLeftPanel::OutlinePanel,
        ),
        open_git_panel: layout.right_dock_open && layout.active_right_panel == Some(
            MobileRightPanel::GitPanel,
        ),
        open_terminal_panel: layout.show_terminal_panel,
        add_agent_panel,
        open_agent_panel: add_agent_panel && wants_agent,
    }
}

/// A line tells exactly the version that stands between its quotes; white space around it has no
/// say.
pub proof fn law_version_is_told_between_quotes(line: Seq<char>, version: Seq<char>)
    ensures
        version_in_line("version = \""@ + version + "\""@) == Some(version),
        version_in_line(line) == Some(version) ==> text::trimmed(line) == "version = \""@ + version
            + "\""@,
        version_in_line(line) == version_in_line(text::trimmed(line)),
{
    reveal_strlit("version = \"");
    reveal_strlit("\"");
    let start = "version = \""@;
    let told = start + version + "\""@;
    assert(told[0] == 'v');
    assert(told.last() == '"');
    assert(text::trimmed(told) == told);
    assert(told.subrange(0, start.len() as int) =~= start);
    assert(told.skip(start.len() as int).drop_last() =~= version);
    text::lemma_trimmed_twice(line);
    if version_in_line(line) == Some(version) {
        let trimmed = text::trimmed(line);
        let rest = trimmed.skip(start.len() as int);
        assert(rest =~= rest.drop_last() + "\""@);
        assert(trimmed =~= start + rest);
        assert(trimmed =~= told);
    }
}

/// The first line that tells a version counts, whatever follows it; lines that tell none have no
/// say.
pub proof fn law_first_told_version_counts(before: Seq<Seq<char>>, after: Seq<Seq<char>>)
    ensures
        version_in_lines(before + after) == if version_in_lines(before) is Some {
            version_in_lines(before)
        } else {
            version_in_lines(after)
        },
        version_in_lines(before) is None <==> forall|i: int|
            0 <= i < before.len() ==> version_in_line(#[trigger] before[i]) is None,
    decreases before.len(),
{
    if before.len() == 0 {
        assert(before + after =~= after);
    } else {
        let rest = before.drop_first();
        law_first_told_version_counts(rest, after);
        assert((before + after).first() == before.first());
        assert((before + after).drop_first() =~= rest + after);
        if version_in_line(before.first()) is None && version_in_lines(rest) is None {
            assert forall|i: int| 0 <= i < before.len() implies version_in_line(
                #[trigger] before[i],
            ) is None by {
                if i > 0 {
                    assert(before[i] == rest[i - 1]);
                }
            }
        }
        if forall|i: int| 0 <= i < before.len() ==> version_in_line(#[trigger] before[i]) is None {
            assert(version_in_line(before[0]) is None);
            assert forall|i: int| 0 <= i < rest.len() implies version_in_line(
                #[trigger] rest[i],
            ) is None by {
                assert(before[i + 1] == rest[i]);
            }
        }
    }
}

/// A device keeps its identifier: once a fresh one was stored, it is the one that is found,
/// whatever other one is at hand.
pub proof fn law_identifier_stays(stored: Option<String>, fresh: String, other: String)
    ensures
        ({
            let first = identified(stored, fresh);
            &&& first is New <==> stored is None
            &&& stored is Some ==> first.text() == stored->0@
            &&& stored is None ==> first.text() == fresh@
            &&& forall|kept: String|
                kept@ == first.text() ==> (#[trigger] identified(Some(kept), other)) is Existing
                    && identified(Some(kept), other).text() == first.text()
        }),
{
}

/// An installation keeps its identifier: once what is to be stored was stored and what is to be
/// deleted was deleted, the next start finds the same one, with nothing left to do.
pub proof fn law_installation_stays(
    legacy: Option<String>,
    stored: Option<String>,
    fresh: String,
    kept: String,
    other: String,
)
    requires
        kept@ == installed_as(legacy, stored, fresh).id.text(),
    ensures
        ({
            let first = installed_as(legacy, stored, fresh);
            let legacy_after = if first.delete_legacy {
                None
            } else {
                legacy
            };
            let stored_after = if first.store {
                Some(kept)
            } else {
                stored
            };
            let next = installed_as(legacy_after, stored_after, other);
            &&& next.id is Existing
            &&& next.id.text() == first.id.text()
            &&& !next.store
            &&& !next.delete_legacy
            &&& first.id is New <==> legacy is None && stored is None
            &&& legacy is Some ==> first.id.text() == legacy->0@
            &&& legacy is None && stored is Some ==> first.id.text() == stored->0@
            &&& legacy is None && stored is None ==> first.id.text() == fresh@
        }),
{
}

/// The first start is recorded as such, for the device exactly if both identifiers are fresh and for
/// the channel exactly if that of a known device's installation is; every other start is recorded as
/// one. Events have names of their own.
pub proof fn law_first_starts_are_recorded_once(
    system: Option<IdType>,
    installation: Option<IdType>,
    event: StartEvent,
    other: StartEvent,
)
    ensures
        ({
            let events = events_at_start(system, installation);
            let device_is_new = system is Some && system->0 is New;
            let is_new = system is Some && installation is Some && installation->0 is New;
            &&& events.contains(StartEvent::AppFirstOpened) <==> is_new && device_is_new
            &&& events.contains(StartEvent::AppFirstOpenedForReleaseChannel) <==> is_new
            &&& events.contains(StartEvent::AppOpened) <==> !is_new
        }),
        event_name(event) == event_name(other) ==> event == other,
{
    let events = events_at_start(system, installation);
    let device_is_new = system is Some && system->0 is New;
    let is_new = system is Some && installation is Some && installation->0 is New;
    if is_new && device_is_new {
        assert(events[0] == StartEvent::AppFirstOpened);
        assert(events[1] == StartEvent::AppFirstOpenedForReleaseChannel);
    } else if is_new {
        assert(events[0] == StartEvent::AppFirstOpenedForReleaseChannel);
    } else {
        assert(events[0] == StartEvent::AppOpened);
    }
    reveal_strlit("App First Opened");
    reveal_strlit("App First Opened For Release Channel");
    reveal_strlit("App Opened");
    assert("App First Opened"@.len() == 16 && "App First Opened For Release Channel"@.len() == 36
        && "App Opened"@.len() == 10);
}

/// What was saved of a workspace is found again for its connection, and for no other.
pub proof fn law_workspaces_are_not_mixed_up(id: i64, state: SessionRestoreState)
    ensures
        snapshot_of(Some(state.connection_profile_id), Some(state)) == text::optional(
            state.workspace_state_json,
        ),
        id != state.connection_profile_id ==> snapshot_of(Some(id), Some(state)) is None,
        snapshot_of(None, Some(state)) is None,
        snapshot_of(Some(id), None) is None,
{
}

/// The panels that are asked for are those of the layout, and a workspace of which nothing was saved
/// shows its files alone.
pub proof fn law_layout_is_asked_for(snapshot: Option<MobileWorkspaceSnapshotV1>)
    ensures
        panels_requested(layout_of(snapshot)) == (
            layout_of(snapshot).active_left_panel,
            layout_of(snapshot).active_right_panel,
            layout_of(snapshot).show_terminal_panel,
        ),
        panels_requested(layout_of(None)) == (
            Some(MobileLeftPanel::ProjectPanel),
            None::<MobileRightPanel>,
            false,
        ),
        snapshot is Some ==> {
            &&& panels_requested(layout_of(snapshot)).0 is Some
                <==> snapshot->0.left_sidebar_visible
            &&& snapshot->0.git_panel_visible || snapshot->0.agent_visible ==> panels_requested(
                layout_of(snapshot),
            ).1 is Some
            &&& snapshot->0.terminal_visible ==> panels_requested(layout_of(snapshot)).2
        },
{
}

/// A dock shows the panel at the place that is asked for, and closes exactly if none is.
pub proof fn law_docks_show_what_is_asked_for(requested: Option<usize>, other: Option<usize>)
    ensures
        change_of_dock(requested) is Close <==> requested is None,
        change_of_dock(requested) matches DockChange::Show(place) ==> requested == Some(place),
        change_of_dock(requested) == change_of_dock(other) ==> requested == other,
{
}

/// A panel is never added to a workspace that has one of its sort. A size that is told is always
/// taken; a panel that is there keeps its size if none is told.
pub proof fn law_panels_are_added_once(already_there: bool, size: Option<Pixels>, open: bool)
    ensures
        ({
            let attachment = attachment_of(already_there, size, open);
            &&& attachment.add <==> !already_there
            &&& attachment.size == size
            &&& size is Some ==> attachment.set_size
            &&& already_there && size is None ==> !attachment.set_size
            &&& !already_there ==> attachment.set_size
            &&& attachment.open == open
        }),
{
}

/// A workspace opens with the panels of its layout. The agent is there exactly if AI can be used,
/// which it cannot once it is disabled, and is never open otherwise.
pub proof fn law_panels_follow_the_layout(
    panels: MobilePanels,
    policy: MobileFeaturePolicy,
    ai_disabled: bool,
    saved: Option<MobileWorkspaceSnapshotV1>,
)
    requires
        are_panels_for(panels, policy, ai_disabled, saved),
    ensures
        ({
            let (left, right, terminal) = panels_requested(layout_of(saved));
            &&& left == Some(MobileLeftPanel::ProjectPanel) <==> panels.open_project_panel
            &&& left == Some(MobileLeftPanel::OutlinePanel) <==> panels.open_outline_panel
            &&& right == Some(MobileRightPanel::GitPanel) <==> panels.open_git_panel
            &&& terminal <==> panels.open_terminal_panel
            &&& right == Some(MobileRightPanel::AgentPanel) && panels.add_agent_panel
                ==> panels.open_agent_panel
        }),
        panels.add_agent_panel <==> policy.show_ai && !ai_disabled,
        panels.open_agent_panel ==> panels.add_agent_panel && saved is Some,
        panels.terminal_height == policy.terminal_default_height,
{
}

/// Panels that are to take less room are narrower, whatever else is set, and so is the panel for Git
/// where dialogs do most of its work.
pub proof fn law_compact_panels_are_narrower(
    panels: MobilePanels,
    compact: MobilePanels,
    policy: MobileFeaturePolicy,
    ai_disabled: bool,
    saved: Option<MobileWorkspaceSnapshotV1>,
)
    requires
        are_panels_for(
            panels,
            MobileFeaturePolicy { compact_panels: false, ..policy },
            ai_disabled,
            saved,
        ),
        are_panels_for(
            compact,
            MobileFeaturePolicy { compact_panels: true, ..policy },
            ai_disabled,
            saved,
        ),
    ensures
        compact.sidebar_width.hundredths == panels.sidebar_width.hundredths - 3200,
        compact.git_panel_width.hundredths == panels.git_panel_width.hundredths - if policy.mobile_git_modals {
            2800
        } else {
            4000int
        },
        panels.sidebar_width.hundredths == 25600,
        git_width(MobileFeaturePolicy { mobile_git_modals: true, ..policy }) < git_width(
            MobileFeaturePolicy { mobile_git_modals: false, ..policy },
        ),
        0 < compact.sidebar_width.hundredths < compact.git_panel_width.hundredths,
{
}

} // verus!
