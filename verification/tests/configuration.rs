//! The configuration: its file, its environment and the transitions that it gives to actions.

use mural::config::{clamp_worker_count, unquote, ConfigSource, Host, MuralConfig, RawConfig};
use mural::paths::config_path_from;
use mural::protocol::{
    CacheBackend, CanvasMode, CanvasPanAxis, CanvasTileCount, CanvasWalk, Easing, PushDirection,
    PushMode, ScaleMode, Transition, WallpaperAction, DEFAULT_DURATION_MS,
};
use mural::textmap::TextMap;

const PARALLELISM: usize = 8;
const MIB_BYTES: usize = 1024 * 1024;

fn host() -> Host {
    Host { home: Some("/home/test".to_owned()), parallelism: PARALLELISM }
}

fn environment(entries: &[(&str, &str)]) -> TextMap<String> {
    let mut map = TextMap::new();
    for (name, value) in entries {
        map.insert((*name).to_owned(), (*value).to_owned());
    }
    map
}

fn file(content: &str) -> ConfigSource {
    ConfigSource::Content { path: "config".to_owned(), content: content.to_owned() }
}

#[test]
fn config_path_ignores_empty_or_relative_xdg_home() {
    let home = "/home/test";
    let fallback = Some("/home/test/.config/mural/config".to_owned());

    for xdg_home in [Some(""), Some("relative")] {
        assert_eq!(
            config_path_from(None, xdg_home, Some(home)),
            fallback
        );
    }
    assert_eq!(
        config_path_from(None, Some("/tmp/xdg-config"), Some(home)),
        Some("/tmp/xdg-config/mural/config".to_owned())
    );
}

#[test]
fn explicit_mural_config_still_takes_precedence() {
    assert_eq!(
        config_path_from(
            Some("relative/explicit-config"),
            Some("/tmp/xdg-config"),
            Some("/home/test")
        ),
        Some("relative/explicit-config".to_owned())
    );
}

#[test]
fn parses_config_file_and_builds_action_transitions() {
    let content = r"
            wall_dir = ~/Pictures/walls
            state_dir = /tmp/mural-state
            favorite_weight = 6
            scale_mode = fit
            transition.push.duration_ms = 120
            transition.push.easing = linear
            transition.push.mode = screen
            transition.canvas.zoom_out_ms = 111
            transition.canvas.pan_ms = 22
            transition.canvas.zoom_in_ms = 333
            transition.canvas.easing = linear
            transition.canvas.mode = overlap
            transition.canvas.walk = strip
            transition.canvas.pan_axis = horizontal
            transition.canvas.overview_scale = 0.25
            transition.canvas.tile_count = 9
            transition.canvas.max_tile_count = 12
            canvas.thumbnail_max_edge = 1536
            canvas.cache.backend = internal
            canvas.cache.workers = 4
            canvas.cache.memory_mib = 768
            decode.full_workers = 3
            action.next = push:left
            action.back = canvas
            action.replace = cut
        ";

    let mut raw = RawConfig::default();
    raw.apply_file(&host(), "config", &content).unwrap();
    let config = raw.build(PARALLELISM).unwrap();

    assert_eq!(config.favorite_weight, Some(6));
    assert_eq!(config.scale_mode, ScaleMode::Fit);
    assert_eq!(config.canvas_thumbnail_max_edge, 1536);
    assert_eq!(config.canvas_cache_backend, CacheBackend::Internal);
    assert_eq!(config.decode_full_workers, clamp_worker_count(3, PARALLELISM));
    assert_eq!(config.canvas_cache_workers, clamp_worker_count(4, PARALLELISM));
    assert_eq!(config.canvas_cache_memory_bytes, 768 * MIB_BYTES);
    assert!(matches!(
        config.transition_for_action(&WallpaperAction::Next),
        Transition::Push {
            direction: PushDirection::Left,
            duration_ms: 120,
            easing: Easing::Linear,
            mode: PushMode::Screen,
        }
    ));
    assert!(matches!(
        config.transition_for_action(&WallpaperAction::Back),
        Transition::Canvas {
            zoom_out_ms: 111,
            pan_ms: 22,
            zoom_in_ms: 333,
            easing: Easing::Linear,
            mode: CanvasMode::Overlap,
            walk: CanvasWalk::Strip,
            pan_axis: CanvasPanAxis::Horizontal,
            overview_scale,
            tile_count: CanvasTileCount::Fixed(9),
        } if overview_scale.to_bits() == 0.25_f32.to_bits()
    ));
    assert_eq!(
        config.transition_for_action(&WallpaperAction::Replace { index: 0 }),
        Transition::Cut
    );
}

#[test]
fn rejects_unknown_keys() {
    let content = "mystery = value\n";

    let mut raw = RawConfig::default();
    assert!(
        raw.apply_file(&host(), "config", &content)
            .unwrap_err()
            .contains("unknown config key")
    );
}

#[test]
fn canvas_profile_settings_do_not_enable_canvas_when_unreferenced() {
    let content = r"
            transition.canvas.zoom_out_ms = 111
            transition.canvas.pan_ms = 22
            transition.canvas.zoom_in_ms = 333
            transition.canvas.pan_axis = vertical
            transition.canvas.tile_count = 9
            action.next = push:up
            action.back = push:down
            action.shift_forward = push:left
            action.shift_back = push:right
            action.replace = cut
            action.quarantine = cut
            action.startup = cut
        ";

    let mut raw = RawConfig::default();
    raw.apply_file(&host(), "config", &content).unwrap();
    let config = raw.build(PARALLELISM).unwrap();

    assert!(!config.uses_canvas_transition());
    assert_eq!(config.canvas_prewarm_transition(), None);
}

#[test]
fn canvas_profile_is_enabled_only_when_action_references_it() {
    let content = r"
            transition.canvas.overview_scale = 0.25
            transition.canvas.tile_count = auto
            transition.canvas.max_tile_count = 9
            action.next = canvas
        ";

    let mut raw = RawConfig::default();
    raw.apply_file(&host(), "config", &content).unwrap();
    let config = raw.build(PARALLELISM).unwrap();

    assert!(config.uses_canvas_transition());
    assert!(matches!(
        config.canvas_prewarm_transition(),
        Some(Transition::Canvas {
            overview_scale,
            tile_count: CanvasTileCount::Auto { max: Some(9) },
            ..
        }) if overview_scale.to_bits() == 0.25_f32.to_bits()
    ));
}

#[test]
fn world_profile_is_enabled_only_when_action_references_it() {
    let content = r"
            transition.world.duration_ms = 1400
            transition.world.easing = ease-in-out-cubic
            action.next = world
            action.back = push:down
            action.shift_forward = push:left
            action.shift_back = push:right
            action.replace = cut
            action.quarantine = cut
            action.startup = cut
        ";

    let mut raw = RawConfig::default();
    raw.apply_file(&host(), "config", &content).unwrap();
    let config = raw.build(PARALLELISM).unwrap();

    assert!(config.uses_world_transition());
    assert!(!config.uses_canvas_transition());
    assert_eq!(config.canvas_prewarm_transition(), None);
    assert_eq!(
        config.transition_for_action(&WallpaperAction::Next),
        Transition::World {
            duration_ms: 1400,
            easing: Easing::EaseInOutCubic,
        }
    );
}

#[test]
fn world_fallback_accepts_cut_or_push_without_enabling_world() {
    let content = r"
            transition.world.fallback = push:up
            action.next = push:down
        ";

    let mut raw = RawConfig::default();
    raw.apply_file(&host(), "config", &content).unwrap();
    let config = raw.build(PARALLELISM).unwrap();

    assert!(!config.uses_world_transition());
    assert_eq!(
        config.world_fallback_transition(),
        Some(Transition::Push {
            direction: PushDirection::Up,
            duration_ms: DEFAULT_DURATION_MS,
            easing: Easing::EaseOutCubic,
            mode: PushMode::Portal,
        })
    );
}

#[test]
fn world_fallback_rejects_non_immediate_transitions() {
    let content = r"
            transition.world.fallback = canvas
        ";

    let mut raw = RawConfig::default();
    raw.apply_file(&host(), "config", &content).unwrap();
    let error = raw.build(PARALLELISM).unwrap_err();

    assert!(error.contains("transition.world.fallback must reference cut or push"));
}

#[test]
fn named_push_profile_accepts_direction_override() {
    let content = r"
            transition.fast.type = push
            transition.fast.duration_ms = 55
            transition.fast.easing = ease-in-out-cubic
            transition.fast.mode = pan
            action.next = fast:up
            action.back = fast:down
        ";

    let mut raw = RawConfig::default();
    raw.apply_file(&host(), "config", &content).unwrap();
    let config = raw.build(PARALLELISM).unwrap();

    assert_eq!(
        config.transition_for_action(&WallpaperAction::Next),
        Transition::Push {
            direction: PushDirection::Up,
            duration_ms: 55,
            easing: Easing::EaseInOutCubic,
            mode: PushMode::Pan,
        }
    );
    assert!(matches!(
        config.transition_for_action(&WallpaperAction::Back),
        Transition::Push {
            direction: PushDirection::Down,
            duration_ms: 55,
            ..
        }
    ));
}

#[test]
fn rejects_canvas_mode_on_push_profile() {
    let content = r"
            transition.fast.type = push
            transition.fast.mode = collage
            action.next = fast:up
        ";

    let mut raw = RawConfig::default();
    raw.apply_file(&host(), "config", &content).unwrap();
    let error = raw.build(PARALLELISM).unwrap_err();

    assert!(error.contains("mode 'collage' is not valid for push"));
}

#[test]
fn rejects_paged_walk_for_canvas_collage_profile() {
    for mode in ["collage", "span"] {
        let content = format!(
                r"
                    transition.canvas.mode = {mode}
                    action.next = canvas
                "
            );

        let mut raw = RawConfig::default();
        raw.apply_file(&host(), "config", &content).unwrap();
        let error = raw.build(PARALLELISM).unwrap_err();

        assert!(error.contains("requires canvas walk 'strip'"));
    }
}

#[test]
fn rejects_push_mode_on_canvas_profile() {
    let content = r"
            transition.canvas.mode = portal
            action.next = canvas
        ";

    let mut raw = RawConfig::default();
    let error = raw.apply_file(&host(), "config", &content).unwrap_err();

    assert!(error.contains("unknown canvas mode: portal"));
}

#[test]
fn canvas_profile_accepts_pan_axis_override() {
    let content = r"
            transition.canvas.pan_axis = vertical
            action.next = canvas:horizontal
            action.back = canvas
        ";

    let mut raw = RawConfig::default();
    raw.apply_file(&host(), "config", &content).unwrap();
    let config = raw.build(PARALLELISM).unwrap();

    assert!(matches!(
        config.transition_for_action(&WallpaperAction::Next),
        Transition::Canvas {
            pan_axis: CanvasPanAxis::Horizontal,
            ..
        }
    ));
    assert!(matches!(
        config.transition_for_action(&WallpaperAction::Back),
        Transition::Canvas {
            pan_axis: CanvasPanAxis::Vertical,
            ..
        }
    ));
}

#[test]
fn named_fade_profile_resolves_duration_and_easing() {
    let content = r"
            transition.soft.type = fade
            transition.soft.duration_ms = 640
            transition.soft.easing = linear
            action.next = soft
        ";

    let mut raw = RawConfig::default();
    raw.apply_file(&host(), "config", &content).unwrap();
    let config = raw.build(PARALLELISM).unwrap();

    assert_eq!(
        config.transition_for_action(&WallpaperAction::Next),
        Transition::Fade {
            duration_ms: 640,
            easing: Easing::Linear,
        }
    );
}

#[test]
fn invalid_fade_fields_are_rejected_even_when_profile_is_unreferenced() {
    let content = r"
            transition.unused.type = fade
            transition.unused.direction = left
        ";

    let mut raw = RawConfig::default();
    raw.apply_file(&host(), "config", &content).unwrap();
    let error = raw.build(PARALLELISM).unwrap_err();

    assert_eq!(
        error,
        "transition profile 'unused' field 'direction' is not valid for fade"
    );
}

#[test]
fn unreferenced_named_profile_still_requires_a_compiled_in_type() {
    let content = "transition.unused.duration_ms = 250\n";

    let mut raw = RawConfig::default();
    raw.apply_file(&host(), "config", &content).unwrap();
    let error = raw.build(PARALLELISM).unwrap_err();

    assert!(error.contains("transition profile 'unused' must declare a compiled-in type"));
}

#[test]
fn invalid_unreferenced_push_mode_is_rejected() {
    let content = r"
            transition.unused.type = push
            transition.unused.mode = collage
        ";

    let mut raw = RawConfig::default();
    raw.apply_file(&host(), "config", &content).unwrap();
    let error = raw.build(PARALLELISM).unwrap_err();

    assert_eq!(
        error,
        "transition profile 'unused' mode 'collage' is not valid for push; expected portal, screen, or pan"
    );
}

#[test]
fn invalid_unreferenced_canvas_mode_walk_pair_is_rejected() {
    let content = r"
            transition.unused.type = canvas
            transition.unused.mode = collage
            transition.unused.walk = paged
        ";

    let mut raw = RawConfig::default();
    raw.apply_file(&host(), "config", &content).unwrap();
    let error = raw.build(PARALLELISM).unwrap_err();

    assert!(error.contains("transition profile 'unused' is invalid"));
    assert!(error.contains("canvas mode 'collage' requires canvas walk 'strip'"));
}

#[test]
fn built_in_transition_profiles_cannot_be_retyped() {
    let content = "transition.fade.type = push\n";

    let mut raw = RawConfig::default();
    raw.apply_file(&host(), "config", &content).unwrap();
    let error = raw.build(PARALLELISM).unwrap_err();

    assert_eq!(
        error,
        "built-in transition profile 'fade' cannot be retyped"
    );
}

#[test]
fn named_world_profile_cannot_define_the_global_fallback() {
    let content = r"
            transition.orbit.type = world
            transition.orbit.fallback = cut
        ";

    let mut raw = RawConfig::default();
    let error = raw.apply_file(&host(), "config", &content).unwrap_err();

    assert!(error.contains("transition.orbit.fallback is only supported for world"));
}

#[test]
fn the_environment_overrides_the_file() {
    let source = file("scale_mode = fit\ndecode.full_workers = 2\n");
    let config = MuralConfig::load(
        &source,
        &host(),
        &environment(&[("MURAL_SCALE_MODE", "center"), ("OTHER", "x")]),
    )
    .unwrap();

    assert_eq!(config.scale_mode, ScaleMode::Center);
    assert_eq!(config.decode_full_workers, 2);
}

#[test]
fn a_bad_variable_is_named() {
    let error = MuralConfig::load(
        &ConfigSource::Nowhere,
        &host(),
        &environment(&[("MURAL_CANVAS_PAN_MS", "soon")]),
    )
    .unwrap_err();

    assert!(error.contains("MURAL_CANVAS_PAN_MS"), "{error}");
}

#[test]
fn a_bad_line_is_named() {
    let mut raw = RawConfig::default();
    let error = raw.apply_file(&host(), "/etc/mural", "# first\nfavorite_weight = many\n").unwrap_err();

    assert!(error.starts_with("/etc/mural:2: "), "{error}");
}

#[test]
fn comments_quotes_and_the_home_directory_are_understood() {
    let mut raw = RawConfig::default();
    raw.apply_file(
        &host(),
        "config",
        "wall_dir = \"~/my walls\" # mine\n\n  # nothing here\n",
    )
    .unwrap();

    assert_eq!(raw.wall_dir.as_deref(), Some("/home/test/my walls"));
    assert_eq!(unquote("'quoted'"), "quoted");
}

#[test]
fn without_a_file_the_defaults_hold() {
    let config =
        MuralConfig::load(&ConfigSource::Nowhere, &host(), &environment(&[])).unwrap();

    assert_eq!(config.scale_mode, ScaleMode::Fill);
    assert!(!config.uses_canvas_transition());
    assert!(!config.uses_world_transition());
    assert_eq!(config.startup_transition(), Transition::Cut);
    assert_eq!(
        config.transition_for_action(&WallpaperAction::ShiftBack),
        Transition::Push {
            direction: PushDirection::Right,
            duration_ms: DEFAULT_DURATION_MS,
            easing: Easing::EaseOutCubic,
            mode: PushMode::Portal,
        }
    );
}

#[test]
fn a_file_that_cannot_be_read_is_an_error() {
    let source =
        ConfigSource::Unreadable { path: "/c".to_owned(), error: "permission denied".to_owned() };
    let error = MuralConfig::load(&source, &host(), &environment(&[])).unwrap_err();

    assert!(error.contains("/c"), "{error}");
    assert!(error.contains("permission denied"), "{error}");
}

#[test]
fn worker_counts_stay_within_the_machine() {
    assert_eq!(clamp_worker_count(0, 8), 1);
    assert_eq!(clamp_worker_count(64, 8), 8);
}
