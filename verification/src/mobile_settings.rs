//! The settings of the app on a mobile device, and what follows from them.

use vstd::prelude::*;

verus! {

/// A length on the screen, in hundredths of a pixel: settings tell it with two decimals.
#[derive(Clone, Copy, Debug, PartialEq, Eq, Structural)]
pub struct Pixels {
    pub hundredths: i32,
}

/// A length of whole pixels.
pub open spec fn whole_pixels(pixels: int) -> int {
    pixels * 100
}

/// A length of whole pixels.
pub fn px(pixels: i32) -> (length: Pixels)
    requires
        -21474836 <= pixels <= 21474836,
    ensures
        length.hundredths == whole_pixels(pixels as int),
{
    Pixels { hundredths: pixels * 100 }
}

/// The settings as they stand in the settings file, as far as they do.
#[derive(Clone, Copy, Debug, PartialEq, Eq, Structural)]
pub struct MobileSettingsContent {
    /// Whether the last saved remote workspace is reconnected to automatically.
    pub restore_last_session: Option<bool>,
    /// Whether remote workspaces are restored the shared way.
    pub use_shared_remote_restore: Option<bool>,
    /// Whether AI can be reached from the screen.
    pub show_ai: Option<bool>,
    /// Whether changes of the agent are reviewed in a view of its own.
    pub mobile_agent_review: Option<bool>,
    /// Whether panels take less room.
    pub compact_panels: Option<bool>,
    /// Whether Git is used in dialogs rather than in a panel.
    pub mobile_git_modals: Option<bool>,
    /// How high the terminal is at first.
    pub terminal_default_height: Option<Pixels>,
}

/// The settings of the app on a mobile device.
#[derive(Clone, Copy, Debug, PartialEq, Eq, Structural)]
pub struct MobileSettings {
    pub restore_last_session: bool,
    pub use_shared_remote_restore: bool,
    pub show_ai: bool,
    pub mobile_agent_review: bool,
    pub compact_panels: bool,
    pub mobile_git_modals: bool,
    pub terminal_default_height: Pixels,
}

/// A setting, or what it is if it is not told.
pub open spec fn setting<T>(told: Option<T>, otherwise: T) -> T {
    match told {
        Some(value) => value,
        None => otherwise,
    }
}

/// The settings, with what each of them is if it is not told.
pub open spec fn settings_from(content: MobileSettingsContent) -> MobileSettings {
    MobileSettings {
        restore_last_session: setting(content.restore_last_session, true),
        use_shared_remote_restore: setting(content.use_shared_remote_restore, true),
        show_ai: setting(content.show_ai, true),
        mobile_agent_review: setting(content.mobile_agent_review, true),
        compact_panels: setting(content.compact_panels, true),
        mobile_git_modals: setting(content.mobile_git_modals, true),
        terminal_default_height: setting(
            content.terminal_default_height,
            Pixels { hundredths: 26000 },
        ),
    }
}

/// Settings that tell nothing.
pub open spec fn no_settings() -> MobileSettingsContent {
    MobileSettingsContent {
        restore_last_session: None,
        use_shared_remote_restore: None,
        show_ai: None,
        mobile_agent_review: None,
        compact_panels: None,
        mobile_git_modals: None,
        terminal_default_height: None,
    }
}

impl Default for MobileSettingsContent {
    fn default() -> (content: Self)
        ensures
            content == no_settings(),
    {
        MobileSettingsContent {
            restore_last_session: None,
            use_shared_remote_restore: None,
            show_ai: None,
            mobile_agent_review: None,
            compact_panels: None,
            mobile_git_modals: None,
            terminal_default_height: None,
        }
    }
}

fn flag_or_true(told: Option<bool>) -> (value: bool)
    ensures
        value == setting(told, true),
{
    match told {
        Some(value) => value,
        None => true,
    }
}

impl MobileSettings {
    /// The settings, from their part of the settings file if there is one.
    pub fn from_settings(mobile: Option<MobileSettingsContent>) -> (settings: Self)
        ensures
            settings == settings_from(setting(mobile, no_settings())),
    {
        let mobile = match mobile {
            Some(mobile) => mobile,
            None => MobileSettingsContent::default(),
        };
        MobileSettings {
            restore_last_session: flag_or_true(mobile.restore_last_session),
            use_shared_remote_restore: flag_or_true(mobile.use_shared_remote_restore),
            show_ai: flag_or_true(mobile.show_ai),
            mobile_agent_review: flag_or_true(mobile.mobile_agent_review),
            compact_panels: flag_or_true(mobile.compact_panels),
            mobile_git_modals: flag_or_true(mobile.mobile_git_modals),
            terminal_default_height: match mobile.terminal_default_height {
                Some(height) => height,
                None => px(260),
            },
        }
    }
}

/// What the app does by the settings.
#[derive(Clone, Copy, Debug, PartialEq, Eq, Structural)]
pub struct MobileFeaturePolicy {
    pub restore_last_session: bool,
    pub use_shared_remote_restore: bool,
    pub show_ai: bool,
    pub mobile_agent_review: bool,
    pub compact_panels: bool,
    pub mobile_git_modals: bool,
    pub terminal_default_height: Pixels,
}

/// What the app does by the settings.
pub open spec fn policy_of(settings: MobileSettings) -> MobileFeaturePolicy {
    MobileFeaturePolicy {
        restore_last_session: settings.restore_last_session,
        use_shared_remote_restore: settings.use_shared_remote_restore,
        show_ai: settings.show_ai,
        mobile_agent_review: settings.mobile_agent_review,
        compact_panels: settings.compact_panels,
        mobile_git_modals: settings.mobile_git_modals,
        terminal_default_height: settings.terminal_default_height,
    }
}

impl MobileFeaturePolicy {
    /// What the app does by the settings.
    pub fn from_app(settings: &MobileSettings) -> (policy: Self)
        ensures
            policy == policy_of(*settings),
    {
        MobileFeaturePolicy {
            restore_last_session: settings.restore_last_session,
            use_shared_remote_restore: settings.use_shared_remote_restore,
            show_ai: settings.show_ai,
            mobile_agent_review: settings.mobile_agent_review,
            compact_panels: settings.compact_panels,
            mobile_git_modals: settings.mobile_git_modals,
            terminal_default_height: settings.terminal_default_height,
        }
    }
}

/// What the settings file tells is what counts: each setting that is told is taken as it is,
/// whatever the others are.
pub proof fn law_told_settings_count(content: MobileSettingsContent)
    ensures
        content.restore_last_session matches Some(value) ==> settings_from(
            content,
        ).restore_last_session == value,
        content.use_shared_remote_restore matches Some(value) ==> settings_from(
            content,
        ).use_shared_remote_restore == value,
        content.show_ai matches Some(value) ==> settings_from(content).show_ai == value,
        content.mobile_agent_review matches Some(value) ==> settings_from(
            content,
        ).mobile_agent_review == value,
        content.compact_panels matches Some(value) ==> settings_from(content).compact_panels
            == value,
        content.mobile_git_modals matches Some(value) ==> settings_from(
            content,
        ).mobile_git_modals == value,
        content.terminal_default_height matches Some(value) ==> settings_from(
            content,
        ).terminal_default_height == value,
{
}

/// What the settings file leaves out is on, and the terminal is 260 pixels high.
pub proof fn law_untold_settings_are_on(content: MobileSettingsContent)
    ensures
        content.restore_last_session is None ==> settings_from(content).restore_last_session,
        content.use_shared_remote_restore is None ==> settings_from(
            content,
        ).use_shared_remote_restore,
        content.show_ai is None ==> settings_from(content).show_ai,
        content.mobile_agent_review is None ==> settings_from(content).mobile_agent_review,
        content.compact_panels is None ==> settings_from(content).compact_panels,
        content.mobile_git_modals is None ==> settings_from(content).mobile_git_modals,
        content.terminal_default_height is None ==> settings_from(
            content,
        ).terminal_default_height.hundredths == whole_pixels(260),
        settings_from(no_settings()).terminal_default_height.hundredths == 26000,
{
}

/// What the app does is what the settings say, each of them by itself.
pub proof fn law_app_follows_the_settings(settings: MobileSettings)
    ensures
        ({
            let policy = policy_of(settings);
            &&& policy.restore_last_session == settings.restore_last_session
            &&& policy.use_shared_remote_restore == settings.use_shared_remote_restore
            &&& policy.show_ai == settings.show_ai
            &&& policy.mobile_agent_review == settings.mobile_agent_review
            &&& policy.compact_panels == settings.compact_panels
            &&& policy.mobile_git_modals == settings.mobile_git_modals
            &&& policy.terminal_default_height == settings.terminal_default_height
        }),
{
}

} // verus!
