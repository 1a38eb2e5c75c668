//! The life of the app, and what the system asks of it.

use zed_ios::dispatcher::{IosDispatcher, Priority, TaskTimings};
use zed_ios::display::IosDisplay;
use zed_ios::demos::DemoType;
use zed_ios::ios_lifecycle::{
    dispatch_lifecycle_event, gpui_ios_did_become_active, gpui_ios_did_enter_background,
    gpui_ios_initialize, gpui_ios_open_url, gpui_ios_request_frame, gpui_ios_will_enter_foreground,
    gpui_ios_will_resign_active, gpui_ios_will_terminate, is_initialized, observe_ios_lifecycle,
    AppLifecycleState, IosLifecycle, IosLifecycleEvent, IosLifecycleObserverRegistry, OpenUrl,
};
use zed_ios::ios_platform::{
    after_credential_add, after_credential_delete, after_credential_read,
    after_credential_update, clipboard_text, credentials_in_item, front_window, picked_path,
    picked_paths, text_from_clipboard, window_appearance, ClipboardEntry, CredentialWrite,
    IosKeyboardLayout, IosPlatform, KeychainItem, KeychainValue, PathPrompt, PathPromptError,
    PathPromptOptions, PickError, PickedPath, PickedUrl, PickerShown, ShownOutcome, WindowAppearance,
};
use zed_ios::session_recovery::{
    RecoveryState, SessionLifecyclePhase, SessionRecoveryCoordinator, SessionRecoveryState,
};

#[test]
fn recovery_state_mapping_matches_mobile_expectations() {
    assert_eq!(
        SessionRecoveryCoordinator::map_recovery_state(RecoveryState::Connected),
        SessionRecoveryState::Healthy
    );
    assert_eq!(
        SessionRecoveryCoordinator::map_recovery_state(RecoveryState::Reconnecting),
        SessionRecoveryState::Reconnecting
    );
    assert_eq!(
        SessionRecoveryCoordinator::map_recovery_state(RecoveryState::ReconnectFailed),
        SessionRecoveryState::ReconnectFailedRetryable
    );
    assert_eq!(
        SessionRecoveryCoordinator::map_recovery_state(RecoveryState::ReconnectExhausted),
        SessionRecoveryState::ReconnectExhausted
    );
}

#[test]
fn sessions_are_followed() {
    let mut global = None;
    assert_eq!(SessionRecoveryCoordinator::clear_session(&mut global), None);
    SessionRecoveryCoordinator::init(&mut global);
    SessionRecoveryCoordinator::install_session(&mut global, 7, Some(1), Some("~".into()), None);
    let recorded = SessionRecoveryCoordinator::handle_ios_lifecycle_event(
        &mut global,
        IosLifecycleEvent::DidEnterBackground,
        Some(RecoveryState::Reconnecting),
    );
    assert_eq!(recorded, Some("iOS Recovery Started"));
    let session = SessionRecoveryCoordinator::global(&global).unwrap();
    assert_eq!(session.lifecycle_phase(), SessionLifecyclePhase::Background);
    assert_eq!(session.state(), SessionRecoveryState::Reconnecting);
    assert_eq!(
        SessionRecoveryCoordinator::clear_session(&mut global),
        Some("iOS Recovery Succeeded")
    );
}

#[test]
fn observers_are_told_and_stay() {
    let mut registry = IosLifecycleObserverRegistry::new();
    let first = observe_ios_lifecycle(&mut registry);
    let second = observe_ios_lifecycle(&mut registry);
    // Those who come before anything was told are told from the second time on.
    let told = dispatch_lifecycle_event(&mut registry);
    assert!(told.is_empty());
    registry.finish_dispatch(told);
    let told = dispatch_lifecycle_event(&mut registry);
    assert_eq!(told, vec![first, second]);
    let newcomer = observe_ios_lifecycle(&mut registry);
    registry.remove_observer(first);
    registry.finish_dispatch(told);
    let told = dispatch_lifecycle_event(&mut registry);
    assert_eq!(told, vec![second, newcomer]);
    registry.finish_dispatch(told);
}

#[test]
fn those_who_left_are_told_no_more() {
    let mut registry = IosLifecycleObserverRegistry::new();
    let told = dispatch_lifecycle_event(&mut registry);
    registry.finish_dispatch(told);
    let first = observe_ios_lifecycle(&mut registry);
    let second = observe_ios_lifecycle(&mut registry);
    let third = observe_ios_lifecycle(&mut registry);
    registry.remove_observer(second);
    let told = dispatch_lifecycle_event(&mut registry);
    assert_eq!(told, vec![first, third]);
    let brief = observe_ios_lifecycle(&mut registry);
    let fourth = observe_ios_lifecycle(&mut registry);
    registry.remove_observer(third);
    registry.remove_observer(brief);
    registry.finish_dispatch(told);
    for _ in 0..2 {
        let told = dispatch_lifecycle_event(&mut registry);
        assert_eq!(told, vec![first, fourth]);
        registry.finish_dispatch(told);
    }
}

#[test]
fn app_comes_and_goes() {
    let mut app = IosLifecycle::new();
    assert!(!is_initialized(&app));
    assert!(gpui_ios_initialize(&mut app));
    assert!(!gpui_ios_initialize(&mut app));
    assert_eq!(
        gpui_ios_did_become_active(&mut app),
        Some(IosLifecycleEvent::DidBecomeActive)
    );
    assert_eq!(app.state, AppLifecycleState::Active);
    assert!(gpui_ios_request_frame(&app));
    assert_eq!(
        gpui_ios_will_resign_active(&mut app),
        Some(IosLifecycleEvent::WillResignActive)
    );
    gpui_ios_did_enter_background(&mut app);
    assert_eq!(app.state, AppLifecycleState::Background);
    gpui_ios_will_enter_foreground(&mut app);
    assert_eq!(
        gpui_ios_open_url(&app, Some(b"zed://x".to_vec())),
        OpenUrl::Opened("zed://x".into())
    );
    assert_eq!(gpui_ios_open_url(&app, Some(vec![0xff])), OpenUrl::InvalidUtf8);
    assert_eq!(gpui_ios_open_url(&app, None), OpenUrl::Missing);
    gpui_ios_will_terminate(&mut app);
    assert_eq!(app.state, AppLifecycleState::Terminating);
}

#[test]
fn platform_hands_urls_on() {
    let mut platform = IosPlatform::new();
    assert_eq!(platform.handle_open_urls(vec!["u".into()]), None);
    platform.on_open_urls();
    assert_eq!(
        platform.handle_open_urls(vec!["u".into()]),
        Some(vec!["u".to_string()])
    );
    assert!(!platform.will_terminate());
    platform.on_quit();
    assert!(platform.will_terminate());
    assert_eq!(platform.active_window(), None);
    platform.open_window(4);
    assert_eq!(platform.active_window(), Some(4));
    assert_eq!(window_appearance(2), WindowAppearance::Dark);
    assert_eq!(window_appearance(1), WindowAppearance::Light);
    assert_eq!(front_window(&[false, true]), Some(1));
    assert_eq!(front_window(&[]), None);
}

#[test]
fn one_picker_is_shown_at_a_time() {
    let files = PathPromptOptions { files: true, directories: false, multiple: true };
    let mut prompt = PathPrompt::new();
    assert_eq!(
        prompt.prompt_for_paths(PathPromptOptions { directories: true, ..files }),
        Err(PathPromptError::Directories)
    );
    assert_eq!(prompt.prompt_for_paths(files), Ok(()));
    assert_eq!(prompt.prompt_for_paths(files), Err(PathPromptError::AlreadyActive));
    assert_eq!(
        prompt.shown(PickerShown::Shown),
        ShownOutcome { error: None, releases_delegate: false }
    );
    assert_eq!(prompt.finish_active_path_prompt(), (true, true));
    assert_eq!(prompt.prompt_for_paths(files), Ok(()));
    assert_eq!(
        prompt.shown(PickerShown::NoPresenter),
        ShownOutcome { error: Some(PathPromptError::NoPresenter), releases_delegate: true }
    );
    assert_eq!(prompt.prompt_for_paths(files), Ok(()));
    assert_eq!(
        prompt.shown(PickerShown::NotCreated),
        ShownOutcome { error: Some(PathPromptError::NotCreated), releases_delegate: false }
    );
}

fn picked(path: &str) -> Option<PickedUrl> {
    Some(PickedUrl { is_file: true, path: Some(PickedPath::Bytes(path.as_bytes().to_vec())) })
}

#[test]
fn picked_files_have_paths() {
    assert_eq!(picked_path(picked("/a")), Ok("/a".to_string()));
    assert_eq!(picked_path(picked("/a\0b")), Ok("/a".to_string()));
    assert_eq!(picked_path(None), Err(PickError::NullUrl));
    assert_eq!(
        picked_path(Some(PickedUrl { is_file: false, path: None })),
        Err(PickError::NotAFile)
    );
    assert_eq!(
        picked_path(Some(PickedUrl { is_file: true, path: Some(PickedPath::Bytes(vec![0xff])) })),
        Err(PickError::InvalidUtf8)
    );
    assert_eq!(
        picked_paths(Some(vec![picked("/a"), picked("/b")])),
        Ok(vec!["/a".to_string(), "/b".to_string()])
    );
    assert_eq!(picked_paths(None), Err(PickError::NoUrls));
}

#[test]
fn key_chain_is_asked() {
    assert_eq!(after_credential_update(0), CredentialWrite::Done);
    assert_eq!(after_credential_update(-25300), CredentialWrite::Add);
    assert!(matches!(after_credential_update(-1), CredentialWrite::Failed(_)));
    assert_eq!(after_credential_add(0), Ok(()));
    assert!(after_credential_add(-1).is_err());
    assert_eq!(after_credential_read(0), Ok(true));
    assert_eq!(after_credential_read(-25300), Ok(false));
    assert_eq!(after_credential_read(-128), Ok(false));
    assert!(after_credential_read(-1).is_err());
    assert_eq!(after_credential_delete(0), Ok(()));
    assert_eq!(
        credentials_in_item(KeychainItem::Dictionary {
            account: KeychainValue::Value("me".into()),
            password: KeychainValue::Value(vec![1]),
        }),
        Ok(("me".to_string(), vec![1]))
    );
    assert!(credentials_in_item(KeychainItem::NotADictionary).is_err());
}

#[test]
fn clipboard_and_keyboard() {
    assert_eq!(
        clipboard_text(&[ClipboardEntry::Image, ClipboardEntry::Text("a".into())]),
        Some("a".to_string())
    );
    assert_eq!(clipboard_text(&[]), None);
    assert_eq!(text_from_clipboard(Some(b"x".to_vec())), Some("x".to_string()));
    assert_eq!(text_from_clipboard(Some(vec![0xff])), None);
    let layout = IosKeyboardLayout::new(Some(b"de-DE".to_vec()));
    assert_eq!(layout.id(), "de-DE");
    assert!(!IosKeyboardLayout::new(None).name().is_empty());
}

#[test]
fn work_is_queued_and_timed() {
    let dispatcher = IosDispatcher::new();
    assert_eq!(dispatcher.queue_priority(Priority::High), 2);
    assert_eq!(dispatcher.queue_priority(Priority::Low), -2);
    assert_eq!(dispatcher.delay(1, 5), 1_000_000_005);
    let mut timings = TaskTimings::new();
    timings.begin(3, 100);
    timings.end(150);
    assert_eq!(timings.timings[0].end, Some(150));
}

#[test]
fn display_is_named_by_its_size() {
    let display = IosDisplay::new(2048, 2732, 200);
    assert!(display.name().contains("2048"));
    let uuid = display.uuid();
    assert_eq!(uuid.len(), 16);
    // A name-based UUID of version 5 says so.
    assert_eq!(uuid[6] >> 4, 5);
    assert_eq!(uuid, uuid::Uuid::new_v5(&uuid::Uuid::NAMESPACE_OID, display.name().as_bytes()).as_bytes().to_vec());
    assert_ne!(uuid, IosDisplay::new(1, 1, 200).uuid());
}

#[test]
fn demos_are_listed() {
    let all = DemoType::all();
    assert!(!all.is_empty());
    for demo in all {
        assert!(!demo.name().is_empty() && !demo.description().is_empty());
    }
}
