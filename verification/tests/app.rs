//! Settings, panels, numbers of the installation, and what is drawn.

use std::collections::{BTreeMap, HashMap};
use zed_ios::font_registry::{
    all_font_names, family_to_load, glyph_bitmap, loadable_name, FontCandidate, FontRegistry,
    FontSelections,
};
use zed_ios::instance_buffer::{
    align_offset, choose_sample_count, draw_primitives, needs_msaa_texture, place_instances,
    place_paths, Batch, InstanceBufferPool, PathSizes, SceneCounts,
};
use zed_ios::ios_app::{
    attach_mobile_panel, dock_change, initialize_mobile_panels, installation_id,
    installation_id_or, ios_app_version, ios_app_version_string, ios_release_channel,
    load_mobile_workspace_snapshot, mobile_ai_enabled, start_events,
    synthesized_ios_process_environment, system_id, system_id_or, DockChange, IdType,
    MobileLeftPanel, MobilePanelLayout, MobileRightPanel, StartEvent,
};
use zed_ios::mobile_settings::{px, MobileFeaturePolicy, MobileSettings, MobileSettingsContent};
use zed_ios::open_type::{apply_features_and_fallbacks, FallbackFont};
use zed_ios::persistence::{MobileWorkspaceSnapshotV1, SessionRestoreState};
use zed_ios::remote_platform::ReleaseChannel;

#[test]
fn synthesized_ios_process_environment_only_fills_missing_values() {
    let existing_environment = vec![
        ("HOME".to_string(), "/existing/home".to_string()),
        ("USER".to_string(), "existing_user".to_string()),
    ];

    let synthesized_environment =
        synthesized_ios_process_environment(&existing_environment, "/Users/zed_ios");

    assert_eq!(
        synthesized_environment
            .iter()
            .cloned()
            .collect::<BTreeMap<String, String>>(),
        BTreeMap::from([("SHELL".to_string(), "/bin/sh".to_string())])
    );

    let mut merged_environment: HashMap<String, String> =
        existing_environment.iter().cloned().collect();
    for (key, value) in synthesized_environment {
        merged_environment.entry(key).or_insert(value);
    }

    assert_eq!(
        merged_environment.get("USER"),
        Some(&"existing_user".to_string())
    );
    assert_eq!(
        merged_environment.get("HOME"),
        Some(&"/existing/home".to_string())
    );
    assert_eq!(
        merged_environment.get("SHELL"),
        Some(&"/bin/sh".to_string())
    );

    let synthesized_when_missing = synthesized_ios_process_environment(&[], "/Users/zed_ios");
    assert_eq!(
        synthesized_when_missing
            .into_iter()
            .collect::<BTreeMap<String, String>>(),
        BTreeMap::from([
            ("HOME".to_string(), "/Users/zed_ios".to_string()),
            ("SHELL".to_string(), "/bin/sh".to_string()),
            ("USER".to_string(), "zed_ios".to_string()),
        ])
    );
}

#[test]
fn mobile_settings_default_when_namespace_is_absent() {
    let settings = MobileSettings::from_settings(None);
    assert!(settings.restore_last_session);
    assert!(settings.use_shared_remote_restore);
    assert!(settings.show_ai);
    assert!(settings.mobile_agent_review);
    assert!(settings.compact_panels);
    assert!(settings.mobile_git_modals);
    assert_eq!(settings.terminal_default_height, px(260));
}

#[test]
fn mobile_settings_honor_overrides() {
    let content = MobileSettingsContent {
        restore_last_session: Some(false),
        use_shared_remote_restore: Some(false),
        show_ai: Some(false),
        mobile_agent_review: Some(false),
        compact_panels: Some(false),
        mobile_git_modals: Some(false),
        terminal_default_height: Some(px(320)),
    };

    let settings = MobileSettings::from_settings(Some(content));
    assert!(!settings.restore_last_session);
    assert!(!settings.use_shared_remote_restore);
    assert!(!settings.show_ai);
    assert!(!settings.mobile_agent_review);
    assert!(!settings.compact_panels);
    assert!(!settings.mobile_git_modals);
    assert_eq!(settings.terminal_default_height, px(320));
}

#[test]
fn version_stands_in_the_manifest() {
    let manifest = "[package]\nname = \"zed\"\nversion = \"0.230.0\"\n";
    assert_eq!(ios_app_version_string(manifest).as_deref(), Some("0.230.0"));
    assert_eq!(ios_app_version(manifest).unwrap().minor, 230);
    assert_eq!(ios_app_version_string("[package]\n"), None);
    assert_eq!(ios_app_version("version = \"x\""), None);
    assert_eq!(ios_release_channel(), ReleaseChannel::Preview);
}

#[test]
fn numbers_are_made_once() {
    let fresh = system_id(None);
    let other = system_id(None);
    assert!(matches!(fresh, IdType::New(_)));
    assert_ne!(fresh, other);
    assert_eq!(fresh.as_str().len(), 36);
    assert_eq!(&fresh.as_str()[14..15], "4");
    assert_eq!(
        system_id_or(Some("s".into()), "f".into()),
        IdType::Existing("s".into())
    );
    let kept = installation_id_or(Some("old".into()), None, "f".into());
    assert_eq!(kept.id, IdType::Existing("old".into()));
    assert!(matches!(installation_id(None, None).id, IdType::New(_)));
    let events = start_events(&Some(fresh), &Some(IdType::Existing("i".into())));
    assert_eq!(events.last(), Some(&StartEvent::AppOpened));
    assert_eq!(StartEvent::AppOpened.name(), "App Opened");
}

fn snapshot(active_tool: &str) -> MobileWorkspaceSnapshotV1 {
    let mut snapshot = MobileWorkspaceSnapshotV1::new(Some("~/zed".into()), None);
    snapshot.active_tool = Some(active_tool.into());
    snapshot
}

#[test]
fn panels_are_opened_as_they_were() {
    let layout = MobilePanelLayout::from_snapshot(None);
    assert_eq!(layout.active_left_panel, Some(MobileLeftPanel::ProjectPanel));
    assert!(layout.left_dock_open && !layout.right_dock_open && !layout.bottom_dock_open);
    let layout = MobilePanelLayout::from_snapshot(Some(&snapshot("git")));
    assert_eq!(layout.active_right_panel, Some(MobileRightPanel::GitPanel));
    let mut saved = snapshot("files");
    saved.left_sidebar_visible = true;
    saved.git_panel_visible = true;
    saved.terminal_visible = true;
    let layout = MobilePanelLayout::from_snapshot(Some(&saved));
    assert_eq!(
        layout.requested_panels(),
        (
            Some(MobileLeftPanel::ProjectPanel),
            Some(MobileRightPanel::GitPanel),
            true
        )
    );
    assert_eq!(dock_change(Some(2)), DockChange::Show(2));
    assert_eq!(dock_change(None), DockChange::Close);
}

#[test]
fn panels_are_attached_once() {
    let first = attach_mobile_panel(false, Some(px(240)), true);
    assert!(first.add && first.set_size && first.open);
    assert_eq!(first.size, Some(px(240)));
    let again = attach_mobile_panel(true, Some(px(320)), true);
    assert!(!again.add);
    let policy = MobileFeaturePolicy::from_app(&MobileSettings::from_settings(None));
    assert!(mobile_ai_enabled(&policy, false));
    assert!(!mobile_ai_enabled(&policy, true));
    let panels = initialize_mobile_panels(&policy, true, None);
    assert!(!panels.add_agent_panel);
    assert_eq!(panels.terminal_height, px(260));
    let state = SessionRestoreState {
        connection_profile_id: 3,
        remote_path: None,
        last_opened_worktree: None,
        workspace_state_json: Some("{}".into()),
        updated_at: 1,
    };
    assert_eq!(
        load_mobile_workspace_snapshot(Some(3), &Some(state.clone())).as_deref(),
        Some("{}")
    );
    assert_eq!(load_mobile_workspace_snapshot(Some(4), &Some(state)), None);
}

fn candidate(name: &str) -> FontCandidate {
    FontCandidate {
        full_name: name.into(),
        has_m_glyph: true,
        traits_readable: true,
        postscript_name: Some(name.into()),
    }
}

#[test]
fn fonts_keep_their_numbers() {
    let mut registry = FontRegistry::new();
    assert_eq!(registry.load_family(&[candidate("A"), candidate("B")]), vec![0, 1]);
    assert_eq!(registry.id_for_native_font("B".into()), 1);
    assert_eq!(registry.id_for_native_font("AppleColorEmoji".into()), 2);
    assert!(registry.is_emoji(2));
    assert!(!registry.is_emoji(0));
    assert_eq!(loadable_name(&candidate("A")).as_deref(), Some("A"));
    assert_eq!(
        loadable_name(&FontCandidate { postscript_name: None, ..candidate("A") }),
        None
    );
    assert!(!family_to_load(".SystemUIFont").is_empty());
    assert_eq!(family_to_load("Menlo"), "Menlo");
    let names = all_font_names(
        Some(vec![Some("B".into()), None, Some("A".into())]),
        Some(vec!["A".into()]),
    );
    assert!(names.contains(&"A".to_string()) && names.contains(&"B".to_string()));
    let mut selections = FontSelections::new();
    assert!(!selections.is_loaded(9));
    selections.family_loaded(9, vec![4, 5]);
    assert!(selections.is_loaded(9));
    assert_eq!(selections.cached(1), None);
    assert_eq!(selections.select(1, 9, 1), Some(5));
    assert_eq!(selections.cached(1), Some(5));
}

#[test]
fn glyphs_have_room() {
    let plain = glyph_bitmap(10, 20, 0, 0, false).unwrap();
    assert_eq!((plain.width, plain.height), (10, 20));
    assert_eq!(plain.bytes, plain.row_bytes * 20);
    let emoji = glyph_bitmap(10, 20, 0, 0, true).unwrap();
    assert_eq!(emoji.row_bytes, 40);
    assert!(glyph_bitmap(0, 20, 0, 0, false).is_err());
}

#[test]
fn fonts_step_in_behind_those_that_are_named() {
    let attributes = apply_features_and_fallbacks(
        &[("liga".into(), 0), ("ss01".into(), u32::MAX)],
        Some(&["Menlo".to_string()]),
        &[true, false, true],
    );
    assert_eq!(
        attributes.features,
        vec![("liga".to_string(), 0), ("ss01".to_string(), -1)]
    );
    assert_eq!(
        attributes.cascade,
        Some(vec![
            FallbackFont::Named("Menlo".into()),
            FallbackFont::System(0),
            FallbackFont::System(2),
        ])
    );
    assert_eq!(apply_features_and_fallbacks(&[], Some(&[]), &[true]).cascade, None);
    assert_eq!(apply_features_and_fallbacks(&[], None, &[true]).cascade, None);
}

fn scene() -> SceneCounts {
    SceneCounts {
        paths: 1,
        shadows: 0,
        quads: 2,
        underlines: 0,
        monochrome_sprites: 0,
        polychrome_sprites: 0,
        surfaces: 0,
    }
}

#[test]
fn batches_are_placed_one_after_another() {
    let mut offset: usize = 1;
    align_offset(&mut offset);
    assert_eq!(offset, 256);
    align_offset(&mut offset);
    assert_eq!(offset, 256);
    assert_eq!(place_instances(1, 3, 16, 1000), Some((256, 304)));
    assert_eq!(place_instances(1, 3, 16, 300), None);
    let sizes = PathSizes { vertex: 8, sprite: 16, command: 16 };
    let layout = place_paths(0, &[3, 6], sizes, 10_000).unwrap();
    assert_eq!(layout.commands.len(), 2);
    assert_eq!(layout.commands[1].vertex_count, 6);
    let batches = [
        Batch::Instances { count: 2, stride: 64 },
        Batch::Paths { vertex_counts: vec![3] },
        Batch::Surfaces,
    ];
    let frame = draw_primitives(&batches, sizes, 100_000, scene()).unwrap();
    assert!(frame.used <= 100_000);
    let error = draw_primitives(&batches, sizes, 16, scene());
    assert!(error.is_err());
}

#[test]
fn buffers_grow_until_they_are_large_enough() {
    let mut pool = InstanceBufferPool::default();
    assert_eq!(pool.buffer_size, 2 * 1024 * 1024);
    assert_eq!(pool.acquire().buffer, None);
    pool.release(7, 2 * 1024 * 1024);
    assert_eq!(pool.acquire().buffer, Some(7));
    assert!(pool.frame_did_not_fit());
    assert_eq!(pool.buffer_size, 4 * 1024 * 1024);
    pool.release(8, 2 * 1024 * 1024);
    assert_eq!(pool.buffers.len(), 0);
    pool.reset(256 * 1024 * 1024);
    assert!(!pool.frame_did_not_fit());
    assert_eq!(choose_sample_count(true, true), 4);
    assert_eq!(choose_sample_count(false, true), 2);
    assert_eq!(choose_sample_count(false, false), 1);
    assert!(!needs_msaa_texture(0, 10, 4));
    assert!(needs_msaa_texture(10, 10, 4));
}
