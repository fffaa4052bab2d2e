//! The command line: what it asks for, and what is printed.

use std::collections::BTreeSet;

use mural::arguments::{
    canonical_image_path, extract_global_options, format_duration, ImagePath, DEFAULT_TIMEOUT,
};
use mural::cli::BuiltCommand;
use mural::commands::build_command;
use mural::compute::{
    neighborhood_world_tile_keys_for_center, route_world_tile_entries, selected_world_cell_indices,
};
use mural::compute_options::{
    parse_world_cache_compute_options, resolve_world_cache_compute_scope,
    WorldCacheComputeExecution, WorldCacheComputeOptions, WorldCacheComputeScope, WorldCacheRoute,
};
use mural::help::{command_help_text, help_text, wallpaper_help_text};
use mural::invocation::{
    background_args, invocation, parse_world_command, Invocation, WorldCommand,
};
use mural::output::{
    format_capabilities_text, human_error_fallback, print_response, wallpaper_text, PrintMode,
    Printed,
};
use mural::protocol::{
    CacheAction, CacheBackend, CacheWarmScope, CanvasMode, CanvasPanAxis, CanvasTileCount,
    CanvasWalk, DaemonMode, Easing, PushDirection, PushMode, Transition, WallpaperAction,
    DEFAULT_CANVAS_CACHE_WORKERS,
};
use mural::report::{
    encode_world_cache_failures, failure_log_entry_count, parse_world_cache_failure_records,
    read_world_cache_failure_records, world_cache_failure_count, world_cache_failure_log_path,
    world_cache_failures_text, world_cache_status_text, write_world_cache_failure_log,
    WorldCacheFailureRecord,
};
use mural::request::{parse_public_request, Request, WallpaperRequest};
use mural::response::{CapabilitiesResponse, Response, WallpaperEntry, WallpaperResponse};
use mural::run::{
    background_world_cache_compute_text, format_bytes, format_rate_per_second,
    world_cache_result_text, CellOutcome, ComputeRun, TileOutcome,
};
use mural::scale::OverviewScale;
use mural::selection::{
    estimate_missing_cell_bytes, estimate_missing_tile_bytes, estimated_world_tile_pixel_units,
    selected_world_cell_indices_for_scope, world_lod_plan_counts,
};
use mural::textmap::TextMap;
use mural::tiles::{
    WorldCellCacheEntry, WorldLodCacheStatus, WorldTileCacheEntry,
    DEFAULT_WORLD_CELL_THUMBNAIL_EDGE,
};
use mural::world_cache::{
    ManifestState, StoredText, WorldCacheStatus, WorldLodPlan, WORLD_ORDER_POLICY,
};

const IMAGE: &str = "wall.jpg";
const CANONICAL: &str = "/home/test/wall.jpg";

fn args(values: &[&str]) -> Vec<String> {
    values.iter().map(|value| (*value).to_owned()).collect()
}

fn images() -> TextMap<ImagePath> {
    let mut images = TextMap::new();
    images.insert(IMAGE.to_owned(), ImagePath::File(CANONICAL.to_owned()));
    images.insert("dir".to_owned(), ImagePath::NotFile("/home/test/dir".to_owned()));
    images.insert("odd".to_owned(), ImagePath::NotText);
    images.insert("gone.jpg".to_owned(), ImagePath::Unresolved("not found".to_owned()));
    images
}

fn build(args: &Vec<String>) -> Result<Option<BuiltCommand>, String> {
    build_command(args, &images())
}

fn compute_options(args: &Vec<String>) -> Result<WorldCacheComputeOptions, String> {
    parse_world_cache_compute_options(args, &images())
}

fn scale(value: f32) -> OverviewScale {
    OverviewScale::from_bits(value.to_bits()).expect("a scale between zero and one")
}

fn stored(files: &[(&String, u64)]) -> TextMap<u64> {
    let mut map = TextMap::new();
    for (path, size) in files {
        map.insert((*path).clone(), *size);
    }
    map
}

#[test]
fn parses_global_timeout_option() {
    let (socket_path, timeout, filtered) = extract_global_options(args(&[
        "--timeout-ms",
        "2500",
        "--socket",
        "/tmp/mural.sock",
        "ping",
    ]))
    .unwrap();

    assert_eq!(socket_path, Some("/tmp/mural.sock".to_owned()));
    assert_eq!(timeout, 2500);
    assert_eq!(filtered, args(&["ping"]));
}

#[test]
fn global_options_defer_default_socket_resolution() {
    let (socket_path, timeout, filtered) =
        extract_global_options(args(&["world", "cache", "status"])).unwrap();

    assert_eq!(socket_path, None);
    assert_eq!(timeout, DEFAULT_TIMEOUT);
    assert_eq!(filtered, args(&["world", "cache", "status"]));
}

#[test]
fn rejects_zero_global_timeout() {
    let error = extract_global_options(args(&["--timeout-ms", "0", "ping"])).unwrap_err();

    assert_eq!(error, "--timeout-ms must be greater than zero");
}

#[test]
fn parses_health_command() {
    let command = build(&args(&["health", "--json"]))
        .unwrap()
        .unwrap();

    assert_eq!(command.print_mode, PrintMode::RawJson);
    assert_eq!(command.request, Request::Health);
}

#[test]
fn capabilities_command_defaults_to_human_output() {
    let command = build(&args(&["capabilities"])).unwrap().unwrap();

    assert_eq!(command.request, Request::Capabilities);
    assert_eq!(command.print_mode, PrintMode::CapabilitiesText);
}

#[test]
fn capabilities_command_supports_raw_json() {
    let command = build(&args(&["capabilities", "--json"]))
        .unwrap()
        .unwrap();

    assert_eq!(command.request, Request::Capabilities);
    assert_eq!(command.print_mode, PrintMode::RawJson);
}

#[test]
fn capabilities_command_rejects_unknown_options() {
    let error = build(&args(&["capabilities", "--verbose"])).unwrap_err();

    assert_eq!(error, "capabilities does not accept argument: --verbose");
}

#[test]
fn parses_replace_wallpaper_command() {
    let command = build(&args(&["replace", "1"])).unwrap().unwrap();

    assert_eq!(command.print_mode, PrintMode::WallpaperText);
    assert!(matches!(
        command.request,
        Request::Wallpaper(WallpaperRequest {
            action: WallpaperAction::Replace { index: 1 },
            transition: None,
            ..
        })
    ));
}

#[test]
fn high_level_next_without_transition_lets_daemon_use_config() {
    let command = build(&args(&["next"])).unwrap().unwrap();

    let Request::Wallpaper(request) = command.request else {
        panic!("expected wallpaper request");
    };
    assert_eq!(request.action, WallpaperAction::Next);
    assert_eq!(request.transition, None);
}

#[test]
fn parses_explicit_push_transition_for_wallpaper_command() {
    let command = build(&args(&[
        "next",
        "--transition",
        "push:left",
        "--duration-ms",
        "120",
        "--easing",
        "linear",
        "--mode",
        "pan",
    ]))
    .unwrap()
    .unwrap();

    let Request::Wallpaper(request) = command.request else {
        panic!("expected wallpaper request");
    };
    assert_eq!(request.action, WallpaperAction::Next);
    assert_eq!(
        request.transition,
        Some(Transition::Push {
            direction: PushDirection::Left,
            duration_ms: 120,
            easing: Easing::Linear,
            mode: PushMode::Pan,
        })
    );
}

#[test]
fn parses_explicit_world_transition_for_wallpaper_command() {
    let command = build(&args(&[
        "next",
        "--transition",
        "world",
        "--duration-ms",
        "1400",
        "--easing",
        "ease-in-out-cubic",
    ]))
    .unwrap()
    .unwrap();

    let Request::Wallpaper(request) = command.request else {
        panic!("expected wallpaper request");
    };
    assert_eq!(request.action, WallpaperAction::Next);
    assert_eq!(
        request.transition,
        Some(Transition::World {
            duration_ms: 1400,
            easing: Easing::EaseInOutCubic,
        })
    );
}

#[test]
fn parses_shift_back_explicit_duration_with_action_default_transition() {
    let command = build(&args(&["shift", "back", "--json", "--duration-ms", "120"]))
        .unwrap()
        .unwrap();

    assert_eq!(command.print_mode, PrintMode::WallpaperJson);
    let Request::Wallpaper(request) = command.request else {
        panic!("expected wallpaper request");
    };
    assert_eq!(request.action, WallpaperAction::ShiftBack);
    assert!(matches!(
        request.transition,
        Some(Transition::Push {
            direction: PushDirection::Right,
            ..
        })
    ));
}

#[test]
fn parses_canvas_wallpaper_options() {
    let command = build(&args(&[
        "next",
        "--transition",
        "canvas",
        "--mode",
        "overlap",
        "--canvas-zoom-out-ms",
        "100",
        "--canvas-pan-ms",
        "50",
        "--canvas-zoom-in-ms",
        "200",
        "--canvas-walk",
        "strip",
        "--canvas-pan-axis",
        "horizontal",
        "--canvas-overview-scale",
        "0.25",
        "--canvas-tile-count",
        "auto",
        "--canvas-max-tile-count",
        "9",
    ]))
    .unwrap()
    .unwrap();

    let Request::Wallpaper(request) = command.request else {
        panic!("expected wallpaper request");
    };
    assert_eq!(request.action, WallpaperAction::Next);
    assert_eq!(
        request.transition,
        Some(Transition::Canvas {
            zoom_out_ms: 100,
            pan_ms: 50,
            zoom_in_ms: 200,
            easing: Easing::EaseOutCubic,
            mode: CanvasMode::Overlap,
            walk: CanvasWalk::Strip,
            pan_axis: CanvasPanAxis::Horizontal,
            overview_scale: scale(0.25),
            tile_count: CanvasTileCount::Auto { max: Some(9) },
        })
    );
}

#[test]
fn parses_canvas_axis_from_transition_token() {
    let command = build(&args(&["next", "--transition", "canvas:vertical"]))
        .unwrap()
        .unwrap();

    let Request::Wallpaper(request) = command.request else {
        panic!("expected wallpaper request");
    };
    assert!(matches!(
        request.transition,
        Some(Transition::Canvas {
            pan_axis: CanvasPanAxis::Vertical,
            ..
        })
    ));
}

#[test]
fn rejects_paged_walk_for_canvas_collage_option() {
    for mode in ["collage", "span"] {
        let error = build(&args(&["next", "--transition", "canvas", "--mode", mode]))
            .unwrap_err();

        assert!(error.contains("requires canvas walk 'strip'"));
    }
}

#[test]
fn canvas_option_implies_canvas_for_shift_direction() {
    let command = build(&args(&["shift", "back", "--canvas-zoom-out-ms", "100"]))
        .unwrap()
        .unwrap();

    let Request::Wallpaper(request) = command.request else {
        panic!("expected wallpaper request");
    };
    assert_eq!(request.action, WallpaperAction::ShiftBack);
    assert!(matches!(
        request.transition,
        Some(Transition::Canvas {
            zoom_out_ms: 100,
            ..
        })
    ));
}

#[test]
fn rejects_canvas_for_low_level_set() {
    let output = format!("DP-1={IMAGE}");
    let error = build(&args(&[
        "set",
        "--output",
        &output,
        "--transition",
        "canvas",
        "--canvas-tile-count",
        "7",
    ]))
    .unwrap_err();

    assert!(error.contains("wallpaper navigation actions"));
}

#[test]
fn parses_world_for_low_level_set() {
    let output = format!("DP-1={IMAGE}");
    let command = build(&args(&[
        "set",
        "--output",
        &output,
        "--transition",
        "world",
    ]))
    .unwrap()
    .unwrap();

    let Request::SetOutputs(request) = command.request else {
        panic!("expected set request");
    };
    assert!(matches!(request.transition, Transition::World { .. }));
}

#[test]
fn parses_cache_warm_command() {
    let command = build(&args(&[
        "cache",
        "warm",
        "--scope",
        "all",
        "--workers",
        "8",
        "--backend",
        "vips",
    ]))
    .unwrap()
    .unwrap();

    let Request::Cache(request) = command.request else {
        panic!("expected cache request");
    };
    assert_eq!(
        request.action,
        CacheAction::Warm {
            scope: CacheWarmScope::All,
            workers: 8,
            backend: CacheBackend::Vips,
        }
    );
}

#[test]
fn parses_cache_clear_command() {
    let command = build(&args(&["cache", "clear"])).unwrap().unwrap();

    let Request::Cache(request) = command.request else {
        panic!("expected cache request");
    };
    assert_eq!(request.action, CacheAction::Clear);
}

#[test]
fn route_world_cache_scope_requires_both_endpoints() {
    let error = resolve_world_cache_compute_scope(
        Some(WorldCacheComputeScope::Route { routes: Vec::new() }),
        Some("/tmp/a.jpg".to_owned()),
        None,
        Vec::new(),
        Vec::new(),
        None,
        None,
    )
    .unwrap_err();

    assert!(error.contains("requires --to"));
}

#[test]
fn route_world_cache_scope_accepts_repeated_routes() {
    let scope = resolve_world_cache_compute_scope(
        Some(WorldCacheComputeScope::Route { routes: Vec::new() }),
        None,
        None,
        vec![
            WorldCacheRoute {
                from: "/tmp/a.jpg".to_owned(),
                to: "/tmp/b.jpg".to_owned(),
            },
            WorldCacheRoute {
                from: "/tmp/c.jpg".to_owned(),
                to: "/tmp/d.jpg".to_owned(),
            },
        ],
        Vec::new(),
        None,
        None,
    )
    .unwrap();

    assert_eq!(
        scope,
        WorldCacheComputeScope::Route {
            routes: vec![
                WorldCacheRoute {
                    from: "/tmp/a.jpg".to_owned(),
                    to: "/tmp/b.jpg".to_owned(),
                },
                WorldCacheRoute {
                    from: "/tmp/c.jpg".to_owned(),
                    to: "/tmp/d.jpg".to_owned(),
                },
            ],
        }
    );
}

#[test]
fn world_cache_compute_options_accept_background() {
    let options = compute_options(&args(&[
        "--scope",
        "all",
        "--background",
        "--progress",
    ]))
    .unwrap();

    assert_eq!(options.execution, WorldCacheComputeExecution::Background);
    assert!(options.progress);
    assert_eq!(options.workers, DEFAULT_CANVAS_CACHE_WORKERS);
    assert_eq!(options.scope, WorldCacheComputeScope::All);
}

#[test]
fn world_cache_compute_options_accept_workers() {
    let options =
        compute_options(&args(&["--scope", "all", "--workers", "4"]))
            .unwrap();

    assert_eq!(options.workers, 4);
}

#[test]
fn world_cache_compute_options_reject_background_dry_run() {
    let error = compute_options(&args(&[
        "--scope",
        "all",
        "--background",
        "--dry-run",
    ]))
    .unwrap_err();

    assert!(error.contains("--background cannot be combined with --dry-run"));
}

#[test]
fn world_cache_compute_options_accept_neighborhood_scope() {
    let canonical = CANONICAL.to_owned();

    let options = compute_options(&args(&[
        "--scope",
        "neighborhood",
        "--center",
        IMAGE,
        "--radius",
        "1",
        "--lod",
        "0",
        "--progress",
    ]))
    .unwrap();

    assert_eq!(
        options.scope,
        WorldCacheComputeScope::Neighborhood {
            centers: vec![canonical],
            radius: 1,
            lod: 0,
        }
    );
    assert!(options.progress);
}

#[test]
fn neighborhood_world_tile_keys_clamp_to_grid_edges() {
    let cells = (0..40 * 40)
        .map(|index| WorldCellCacheEntry {
            source_path: format!("/walls/{index}.jpg"),
            cache_key: format!("cell-key-{index}"),
            image_path: format!("/cache/cells/{index}.png"),
        })
        .collect::<Vec<_>>();
    let keys =
        neighborhood_world_tile_keys_for_center(&cells, 40, 40, "/walls/0.jpg", 1, 0).unwrap();

    assert_eq!(
        keys.into_iter().collect::<BTreeSet<_>>(),
        BTreeSet::from([(0, 0, 0), (0, 0, 1), (0, 1, 0), (0, 1, 1)])
    );
}

#[test]
fn neighborhood_world_tile_keys_include_radius_around_center_tile() {
    let cells = (0..40 * 40)
        .map(|index| WorldCellCacheEntry {
            source_path: format!("/walls/{index}.jpg"),
            cache_key: format!("cell-key-{index}"),
            image_path: format!("/cache/cells/{index}.png"),
        })
        .collect::<Vec<_>>();
    let center_index = 18 * 40 + 18;
    let keys = neighborhood_world_tile_keys_for_center(
        &cells,
        40,
        40,
        &format!("/walls/{center_index}.jpg"),
        1,
        0,
    )
    .unwrap();

    assert_eq!(keys.len(), 9);
    assert!(keys.contains(&(0, 1, 1)));
    assert!(keys.contains(&(0, 2, 2)));
    assert!(keys.contains(&(0, 3, 3)));
}

#[test]
fn world_lod_plan_counts_preserve_lod_breakdown() {
    let plans = world_lod_plan_counts(&vec![
        WorldTileCacheEntry {
            lod: 1,
            tile_column: 0,
            tile_row: 0,
            start_column: 0,
            end_column: 64,
            start_row: 0,
            end_row: 64,
            image_path: "/cache/l1/0-0.png".to_owned(),
        },
        WorldTileCacheEntry {
            lod: 0,
            tile_column: 0,
            tile_row: 0,
            start_column: 0,
            end_column: 8,
            start_row: 0,
            end_row: 8,
            image_path: "/cache/l0/0-0.png".to_owned(),
        },
        WorldTileCacheEntry {
            lod: 1,
            tile_column: 1,
            tile_row: 0,
            start_column: 64,
            end_column: 128,
            start_row: 0,
            end_row: 64,
            image_path: "/cache/l1/0-1.png".to_owned(),
        },
    ], &stored(&[]));

    assert_eq!(
        plans,
        vec![
            WorldLodPlan {
                lod: 0,
                tile_count: 1,
                tile_ready: 0,
                tile_missing: 1,
            },
            WorldLodPlan {
                lod: 1,
                tile_count: 2,
                tile_ready: 0,
                tile_missing: 2,
            },
        ]
    );
}

#[test]
fn selected_world_cell_indices_skip_ready_tile_cells() {
    let root = "/cache";
    let ready_tile = format!("{root}/ready.png");
    let files = stored(&[(&ready_tile, 5)]);
    let tiles = vec![
        WorldTileCacheEntry {
            lod: 0,
            tile_column: 0,
            tile_row: 0,
            start_column: 0,
            end_column: 2,
            start_row: 0,
            end_row: 2,
            image_path: ready_tile,
        },
        WorldTileCacheEntry {
            lod: 0,
            tile_column: 1,
            tile_row: 0,
            start_column: 2,
            end_column: 4,
            start_row: 0,
            end_row: 2,
            image_path: format!("{root}/missing.png"),
        },
    ];

    let selected = selected_world_cell_indices(16, 4, None, &tiles, &files);

    assert_eq!(selected, vec![2, 3, 6, 7]);
}

#[test]
fn selected_world_cell_indices_keep_explicit_cell_limit() {
    let root = "/cache";
    let ready_tile = format!("{root}/ready.png");
    let files = stored(&[(&ready_tile, 5)]);
    let tiles = vec![WorldTileCacheEntry {
        lod: 0,
        tile_column: 0,
        tile_row: 0,
        start_column: 0,
        end_column: 2,
        start_row: 0,
        end_row: 2,
        image_path: ready_tile,
    }];

    let selected = selected_world_cell_indices(16, 4, Some(3), &tiles, &files);

    assert_eq!(selected, vec![0, 1, 2]);
}

#[test]
fn selected_world_cell_indices_keep_every_cell_for_full_all_scope() {
    let root = "/cache";
    let ready_tile = format!("{root}/ready.png");
    let files = stored(&[(&ready_tile, 5)]);
    let tiles = vec![WorldTileCacheEntry {
        lod: 0,
        tile_column: 0,
        tile_row: 0,
        start_column: 0,
        end_column: 2,
        start_row: 0,
        end_row: 2,
        image_path: ready_tile,
    }];

    let selected = selected_world_cell_indices_for_scope(
        &WorldCacheComputeScope::All,
        5,
        4,
        None,
        None,
        &tiles,
        &files,
    );

    assert_eq!(selected, vec![0, 1, 2, 3, 4]);
}

#[test]
fn selected_world_cell_indices_omits_route_scope_persistent_cells() {
    let root = "/cache";
    let files = stored(&[]);
    let tiles = vec![WorldTileCacheEntry {
        lod: 1,
        tile_column: 0,
        tile_row: 0,
        start_column: 0,
        end_column: 4,
        start_row: 0,
        end_row: 4,
        image_path: format!("{root}/missing.png"),
    }];

    let selected = selected_world_cell_indices_for_scope(
        &WorldCacheComputeScope::Route { routes: Vec::new() },
        16,
        4,
        None,
        None,
        &tiles,
        &files,
    );

    assert!(selected.is_empty());
}

#[test]
fn estimate_missing_cell_bytes_uses_selected_ready_average() {
    let root = "/cache";
    let ready = format!("{root}/ready.png");
    let files = stored(&[(&ready, 10)]);
    let cells = vec![
        WorldCellCacheEntry {
            source_path: "/wall/ready.jpg".to_owned(),
            cache_key: "ready".to_owned(),
            image_path: ready,
        },
        WorldCellCacheEntry {
            source_path: "/wall/missing-a.jpg".to_owned(),
            cache_key: "missing-a".to_owned(),
            image_path: format!("{root}/missing-a.png"),
        },
        WorldCellCacheEntry {
            source_path: "/wall/missing-b.jpg".to_owned(),
            cache_key: "missing-b".to_owned(),
            image_path: format!("{root}/missing-b.png"),
        },
    ];

    assert_eq!(estimate_missing_cell_bytes(&cells, &vec![0, 1, 2], &files), 20);
}

#[test]
fn estimate_missing_tile_bytes_uses_same_lod_ready_average() {
    let root = "/cache";
    let ready = format!("{root}/ready.png");
    let files = stored(&[(&ready, 12)]);
    let tiles = vec![
        WorldTileCacheEntry {
            lod: 1,
            tile_column: 0,
            tile_row: 0,
            start_column: 0,
            end_column: 64,
            start_row: 0,
            end_row: 64,
            image_path: ready,
        },
        WorldTileCacheEntry {
            lod: 1,
            tile_column: 1,
            tile_row: 0,
            start_column: 64,
            end_column: 128,
            start_row: 0,
            end_row: 64,
            image_path: format!("{root}/missing.png"),
        },
    ];

    assert_eq!(estimate_missing_tile_bytes(&tiles, &files), 12);
}

#[test]
fn estimate_world_tile_units_match_lod_generation_shape() {
    let tile = WorldTileCacheEntry {
        lod: 1,
        tile_column: 0,
        tile_row: 0,
        start_column: 0,
        end_column: 64,
        start_row: 0,
        end_row: 64,
        image_path: "/cache/l1.png".to_owned(),
    };

    assert_eq!(estimated_world_tile_pixel_units(&tile), (8, 8));
}

#[test]
fn format_rate_per_second_uses_millisecond_precision() {
    assert_eq!(
        format_rate_per_second(150, 2000),
        "75.000"
    );
    assert_eq!(format_rate_per_second(1, 3000), "0.333");
}

#[test]
fn format_rate_per_second_handles_zero_elapsed() {
    assert_eq!(format_rate_per_second(2, 0), "2000.000");
}

fn test_world_cache_status() -> WorldCacheStatus {
    WorldCacheStatus {
        wall_dir: "/t/walls".to_owned(),
        state_dir: "/t/state".to_owned(),
        cache_dir: "/t/cache".to_owned(),
        manifest_path: "/t/cache/manifest".to_owned(),
        library_count: 0,
        columns: 1,
        rows: 0,
        fingerprint: 0,
        order_policy: WORLD_ORDER_POLICY.to_owned(),
        thumbnail_edge: DEFAULT_WORLD_CELL_THUMBNAIL_EDGE,
        cell_ready: 0,
        cell_missing: 0,
        world_tile_ready: 0,
        world_tile_missing: 0,
        world_lods: Vec::new(),
        manifest_state: ManifestState::Missing,
        ready: false,
        message: String::new(),
    }
}

#[test]
fn failure_log_entry_count_ignores_blank_lines() {
    assert_eq!(
        failure_log_entry_count("cell\ta\tbad\n\n\t\n tile\tb\tbad\n"),
        2
    );
}

#[test]
fn world_cache_failure_log_sanitizes_and_counts_entries() {
    let status = test_world_cache_status();
    let failures = vec![WorldCacheFailureRecord {
        kind: "cell".to_owned(),
        item: "/wall/a\tb.jpg".to_owned(),
        message: "first\nsecond".to_owned(),
    }];

    let content = write_world_cache_failure_log(&failures);

    assert_eq!(world_cache_failure_log_path(&status), "/t/cache/last-compute-failures.tsv");
    assert_eq!(world_cache_failure_count(&StoredText::Content(content.clone())), 1);
    assert_eq!(content, "cell\t/wall/a b.jpg\tfirst second\n");
}

#[test]
fn parse_world_cache_failure_records_reads_tsv() {
    let records = parse_world_cache_failure_records(
        "cell\t/wall/bad.jpg\tdecode failed\n\ntile\tl0 r1 c2\tmissing cell\n",
    );

    assert_eq!(
        records,
        vec![
            WorldCacheFailureRecord {
                kind: "cell".to_owned(),
                item: "/wall/bad.jpg".to_owned(),
                message: "decode failed".to_owned(),
            },
            WorldCacheFailureRecord {
                kind: "tile".to_owned(),
                item: "l0 r1 c2".to_owned(),
                message: "missing cell".to_owned(),
            },
        ]
    );
}

#[test]
fn encode_world_cache_failures_json_escapes_records() {
    let records = vec![WorldCacheFailureRecord {
        kind: "cell".to_owned(),
        item: "/wall/bad\"name.jpg".to_owned(),
        message: "bad\\decode".to_owned(),
    }];

    let encoded = encode_world_cache_failures(&records);

    assert!(encoded.contains("\"kind\":\"cell\""));
    assert!(encoded.contains("/wall/bad\\\"name.jpg"));
    assert!(encoded.contains("bad\\\\decode"));
}

#[test]
fn empty_world_cache_failure_log_clears_count() {
    let content = write_world_cache_failure_log(&Vec::new());

    assert_eq!(world_cache_failure_count(&StoredText::Content(content.clone())), 0);
    assert_eq!(content, "");
}

#[test]
fn route_world_tile_entries_keep_only_intersecting_tiles() {
    let cells = (0..64)
        .map(|index| WorldCellCacheEntry {
            source_path: format!("/wall/{index:02}.jpg"),
            cache_key: format!("key-{index}"),
            image_path: format!("/cache/{index:02}.png"),
        })
        .collect::<Vec<_>>();
    let tiles = vec![
        WorldTileCacheEntry {
            lod: 0,
            tile_column: 0,
            tile_row: 0,
            start_column: 0,
            end_column: 8,
            start_row: 0,
            end_row: 8,
            image_path: "/cache/tile-0-0.png".to_owned(),
        },
        WorldTileCacheEntry {
            lod: 0,
            tile_column: 1,
            tile_row: 0,
            start_column: 8,
            end_column: 16,
            start_row: 0,
            end_row: 8,
            image_path: "/cache/tile-0-1.png".to_owned(),
        },
    ];
    let lods = vec![WorldLodCacheStatus {
        lod: 0,
        tile_ready: 0,
        tile_missing: 2,
    }];

    let selected = route_world_tile_entries(
        &cells,
        8,
        &lods,
        &tiles,
        &vec![WorldCacheRoute {
            from: "/wall/00.jpg".to_owned(),
            to: "/wall/63.jpg".to_owned(),
        }],
    )
    .unwrap();

    assert_eq!(selected.len(), 1);
    assert_eq!(selected[0].tile_row, 0);
    assert_eq!(selected[0].tile_column, 0);
}

#[test]
fn route_world_tile_entries_select_only_rendered_lod() {
    let cells = (0..10_000)
        .map(|index| WorldCellCacheEntry {
            source_path: format!("/wall/{index:05}.jpg"),
            cache_key: format!("key-{index}"),
            image_path: format!("/cache/{index:05}.png"),
        })
        .collect::<Vec<_>>();
    let lods = vec![
        WorldLodCacheStatus {
            lod: 0,
            tile_ready: 0,
            tile_missing: 169,
        },
        WorldLodCacheStatus {
            lod: 1,
            tile_ready: 0,
            tile_missing: 4,
        },
    ];
    let tiles = (0..13)
        .flat_map(|row| {
            (0..13).map(move |column| WorldTileCacheEntry {
                lod: 0,
                tile_column: column,
                tile_row: row,
                start_column: column * 8,
                end_column: (column + 1) * 8,
                start_row: row * 8,
                end_row: (row + 1) * 8,
                image_path: format!("/cache/l0/{row}-{column}.png"),
            })
        })
        .chain((0..2).flat_map(|row| {
            (0..2).map(move |column| WorldTileCacheEntry {
                lod: 1,
                tile_column: column,
                tile_row: row,
                start_column: column * 64,
                end_column: (column + 1) * 64,
                start_row: row * 64,
                end_row: (row + 1) * 64,
                image_path: format!("/cache/l1/{row}-{column}.png"),
            })
        }))
        .collect::<Vec<_>>();

    let selected = route_world_tile_entries(
        &cells,
        100,
        &lods,
        &tiles,
        &vec![WorldCacheRoute {
            from: "/wall/00000.jpg".to_owned(),
            to: "/wall/09999.jpg".to_owned(),
        }],
    )
    .unwrap();
    let selected_keys = selected
        .iter()
        .map(|entry| (entry.lod, entry.tile_row, entry.tile_column))
        .collect::<BTreeSet<_>>();

    assert_eq!(
        selected_keys,
        BTreeSet::from([(1, 0, 0), (1, 0, 1), (1, 1, 0), (1, 1, 1)])
    );
}

#[test]
fn human_capabilities_output_includes_scopes_and_parameter_schema() {
    let output =
        format_capabilities_text(&CapabilitiesResponse::current(DaemonMode::Supervisor));

    assert!(output.contains("Capabilities schema version: 1"));
    assert!(output.contains("Protocol version: 1"));
    assert!(output.contains("Daemon mode: supervisor"));
    assert!(output.contains("fade (pairwise, supported)"));
    assert!(output.contains("Scopes: explicit set, wallpaper actions"));
    assert!(output.contains("direction (enum, required): up, down, left, right"));
    assert!(output.contains("duration_ms (integer, optional); default=900"));
    assert!(output.contains("canvas (scene, supported)"));
    assert!(output.contains("Scopes: wallpaper actions"));
    assert!(output.contains("Requirements: wallpaper action history"));
    assert!(output.contains("world (scene, experimental)"));
    assert!(output.contains(
        "Requirements: supervisor planning, wallpaper library, ready cache coverage"
    ));
}

#[test]
fn human_capabilities_output_labels_mode_unavailable_transitions() {
    let output =
        format_capabilities_text(&CapabilitiesResponse::current(DaemonMode::Standalone));

    assert!(output.contains("Daemon mode: standalone"));
    assert!(output.contains("world (scene, experimental, unavailable in this daemon mode)"));
    assert!(output.contains("Scopes: none (unavailable in this daemon mode)"));
}

#[test]
fn capability_errors_have_a_capability_specific_fallback() {
    assert_eq!(
        human_error_fallback(PrintMode::CapabilitiesText),
        "capabilities request failed"
    );
    assert_eq!(
        human_error_fallback(PrintMode::WallpaperText),
        "wallpaper request failed"
    );
}

#[test]
fn images_are_taken_by_their_full_paths() {
    assert_eq!(canonical_image_path(&images(), IMAGE).unwrap(), CANONICAL);
    for path in ["dir", "odd", "gone.jpg", "elsewhere.jpg"] {
        let error = canonical_image_path(&images(), path).unwrap_err();
        assert!(!error.is_empty());
    }
}

#[test]
fn durations_are_short() {
    assert_eq!(format_duration(50), "50ms");
    assert_eq!(format_duration(30_000), "30s");
    assert_eq!(format_duration(1_500), "1500ms");
}

#[test]
fn the_command_line_is_told_apart() {
    assert_eq!(invocation(&args(&[])), Invocation::Help);
    assert_eq!(invocation(&args(&["--version"])), Invocation::Version);
    assert_eq!(invocation(&args(&["-V"])), Invocation::Version);
    assert_eq!(invocation(&args(&["world", "cache"])), Invocation::World);
    assert_eq!(invocation(&args(&["-V", "x"])), Invocation::Daemon);
    assert_eq!(invocation(&args(&["next"])), Invocation::Daemon);
}

#[test]
fn world_commands_are_told_apart() {
    let parse = |values: &[&str]| parse_world_command(&args(values));

    assert_eq!(parse(&[]), Ok(WorldCommand::Help));
    assert_eq!(parse(&["cache", "--help"]), Ok(WorldCommand::Help));
    assert_eq!(parse(&["cache"]), Ok(WorldCommand::CacheHelp));
    assert_eq!(parse(&["cache", "status", "--json"]), Ok(WorldCommand::Status { json: true }));
    assert_eq!(parse(&["cache", "index"]), Ok(WorldCommand::Index { json: false }));
    assert_eq!(parse(&["cache", "failures"]), Ok(WorldCommand::Failures { json: false }));
    assert_eq!(parse(&["cache", "compute", "--what"]), Ok(WorldCommand::Compute));
    assert_eq!(parse(&["tour"]), Err("unknown world action: tour".to_owned()));
    assert_eq!(
        parse(&["cache", "drop"]),
        Err("unknown world cache action: drop".to_owned())
    );
    assert_eq!(
        parse(&["cache", "status", "now"]),
        Err("world cache status does not accept argument: now".to_owned())
    );
}

#[test]
fn a_computation_in_the_background_runs_in_front() {
    let given = args(&["--scope", "all", "--background", "--json", "--progress"]);

    assert_eq!(
        background_args(&given, true),
        args(&["world", "cache", "compute", "--scope", "all", "--progress"])
    );
    assert_eq!(
        background_args(&given, false),
        args(&["world", "cache", "compute", "--scope", "all", "--json", "--progress"])
    );
}

#[test]
fn help_is_given_instead_of_a_request() {
    for command in ["ping", "set", "cache", "next", "capabilities", "clear"] {
        assert_eq!(build(&args(&[command, "--help"])).unwrap(), None);
        assert!(command_help_text(command).starts_with("USAGE:\n    muralctl "), "{command}");
    }
    assert!(help_text().starts_with("muralctl\n\nUSAGE:"));
    assert!(wallpaper_help_text("replace").contains("muralctl replace INDEX [--json]"));
    assert!(wallpaper_help_text("replace").contains("[--canvas-walk paged|strip]"));
    assert_eq!(wallpaper_help_text("favorites"), "USAGE:\n    muralctl favorites [--json]");
}

#[test]
fn unknown_commands_are_refused() {
    assert_eq!(build(&args(&["dance"])).unwrap_err(), "unknown command: dance");
    assert!(build(&args(&["replace"])).is_err());
    assert!(build(&args(&["set"])).is_err());
    assert!(extract_global_options(args(&["--socket"])).is_err());
}

#[test]
fn what_is_set_is_set_on_each_output() {
    let command = build(&args(&[
        "set",
        "--output",
        "DP-1",
        IMAGE,
        "--output",
        "DP-2=wall.jpg",
        "--transition",
        "cut",
        "--allow-partial",
    ]))
    .unwrap()
    .unwrap();

    let Request::SetOutputs(request) = command.request else {
        panic!("expected set request");
    };
    assert_eq!(request.outputs.get("DP-1").unwrap(), CANONICAL);
    assert_eq!(request.outputs.get("DP-2").unwrap(), CANONICAL);
    assert_eq!(request.transition, Transition::Cut);
    assert!(request.allow_partial);
}

#[test]
fn failures_are_read_back_from_their_log() {
    let status = test_world_cache_status();
    let failures = vec![
        WorldCacheFailureRecord {
            kind: "cell".to_owned(),
            item: "/a.jpg".to_owned(),
            message: "bad\tpicture".to_owned(),
        },
        WorldCacheFailureRecord {
            kind: "tile".to_owned(),
            item: "l0 r0 c0".to_owned(),
            message: String::new(),
        },
    ];
    let log = StoredText::Content(write_world_cache_failure_log(&failures));
    let read = read_world_cache_failure_records(&status, &log).unwrap();

    assert_eq!(read.len(), 2);
    assert_eq!(read[0].message, "bad picture");
    assert_eq!(read[1], failures[1]);
    assert_eq!(
        read_world_cache_failure_records(&status, &StoredText::Missing).unwrap(),
        Vec::new()
    );
    assert!(read_world_cache_failure_records(
        &status,
        &StoredText::Unreadable("denied".to_owned())
    )
    .unwrap_err()
    .contains("denied"));
    assert!(world_cache_failures_text(&status, &read, true).contains("\"failure_count\":2"));
}

#[test]
fn a_status_is_printed_line_by_line_or_in_json() {
    let status = test_world_cache_status();

    let text = world_cache_status_text(&status, 3, false);
    assert!(text.contains("grid\t1x0\n"), "{text}");
    assert!(text.contains("last_compute_failed\t3\n"), "{text}");
    let json = world_cache_status_text(&status, 3, true);
    assert!(json.contains("\"fingerprint\":\"0000000000000000\""), "{json}");
    assert!(json.contains("\"last_compute_failed\":3"), "{json}");
}

#[test]
fn a_run_counts_what_it_made() {
    let cell = WorldCellCacheEntry {
        source_path: "/a.jpg".to_owned(),
        cache_key: "key".to_owned(),
        image_path: "/cache/a.png".to_owned(),
    };
    let tile = WorldTileCacheEntry {
        lod: 0,
        tile_column: 2,
        tile_row: 1,
        start_column: 0,
        end_column: 8,
        start_row: 0,
        end_row: 8,
        image_path: "/cache/t.png".to_owned(),
    };
    let mut run = ComputeRun::new(true);
    run.cell_done(&cell, CellOutcome::Ready);
    run.cell_done(&cell, CellOutcome::Made);
    let notes = run.cell_done(&cell, CellOutcome::Failed("bad".to_owned()));
    assert!(notes.iter().any(|note| note.contains("bad")), "{notes:?}");
    run.tile_done(&tile, TileOutcome::Made(Vec::new()));
    run.tile_done(&tile, TileOutcome::Failed("worse".to_owned()));

    assert_eq!(run.result.cell_skipped, 1);
    assert_eq!(run.result.cell_generated, 1);
    assert_eq!(run.result.tile_generated, 1);
    assert_eq!(run.result.failed, 2);
    assert_eq!(run.failures.len(), 2);
    assert!(world_cache_result_text(&run.result, true).contains("\"limited\":true"));
}

#[test]
fn sizes_are_printed_in_their_units() {
    assert_eq!(format_bytes(0), "0 B");
    assert_eq!(format_bytes(1023), "1023 B");
    assert_eq!(format_bytes(1024 * 1024), "1.0 MiB");
}

#[test]
fn a_start_in_the_background_is_told() {
    assert_eq!(
        background_world_cache_compute_text(7, "/log", false),
        "background_pid\t7\nbackground_log\t/log\nmessage\tworld cache compute started in background\n"
    );
}

#[test]
fn responses_are_printed_as_they_were_asked_for() {
    let raw = Response::Pong { version: 1 }.to_json();
    assert_eq!(
        print_response(&raw, PrintMode::RawJson),
        Ok(Printed::Output(raw.clone() + "\n"))
    );

    let error = Response::Error { message: "busy".to_owned() }.to_json();
    match print_response(&error, PrintMode::WallpaperText) {
        Ok(Printed::ErrorOutput(text)) => assert!(text.contains("busy"), "{text}"),
        other => panic!("unexpected: {other:?}"),
    }

    let response = WallpaperResponse {
        action: "current".to_owned(),
        message: String::new(),
        entries: vec![WallpaperEntry {
            index: 0,
            output: "DP-1".to_owned(),
            favorite: true,
            path: "/a.jpg".to_owned(),
        }],
        favorites: Vec::new(),
    };
    assert!(wallpaper_text(&response).contains("/a.jpg"));
}

#[test]
fn the_daemon_reads_what_the_command_line_asks() {
    for line in [
        "ping",
        "health",
        "query",
        "capabilities --json",
        "stop",
        "set -o DP-1=wall.jpg -o DP-2 wall.jpg -t push:left --duration-ms 40",
        "preload --output DP-1 wall.jpg",
        "clear --output DP-1 --color #102030",
        "cache status",
        "cache warm --scope all --workers 3 --backend vips",
        "next --transition fade --easing linear",
        "shift b --json",
        "replace 1 --canvas-tile-count 9 --canvas-overview-scale 0.25",
        "quarantine 0 --canvas-max-tile-count 12 --canvas-overview-scale 0.5",
        "favorite 1",
        "current",
    ] {
        let words: Vec<&str> = line.split_whitespace().collect();
        let built = build(&args(&words)).unwrap().unwrap();
        assert_eq!(parse_public_request(&built.request.to_json()).unwrap(), built.request, "{line}");
    }
}

#[test]
fn a_scale_without_six_decimals_is_lost_on_the_way() {
    let built =
        build(&args(&["next", "--canvas-overview-scale", "0.0000001"])).unwrap().unwrap();
    assert!(parse_public_request(&built.request.to_json()).is_err());
}
