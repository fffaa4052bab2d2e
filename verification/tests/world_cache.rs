//! The cache of the world: its tiles, its manifest and its state.

use mural::actions::ActionTransitions;
use mural::config::MuralConfig;
use mural::control::Disk;
use mural::hashing::{hash_text, HASH_START};
use mural::protocol::{CacheBackend, ScaleMode, Transition};
use mural::textmap::TextMap;
use mural::tiles::{
    auto_world_columns, cell_cache_entries, fingerprint_paths, tile_cache_entries,
    tile_pyramid_cache_entries, world_cache_snapshot_for_library, world_lod_cache_statuses,
    world_lod_tile_cells, FileStat, SourceStats, TileCacheSpec, WorldCellCacheEntry,
    DEFAULT_WORLD_CELL_THUMBNAIL_EDGE,
};
use mural::world_cache::{
    manifest_state, manifest_text, parse_manifest, plan_world_cache_compute,
    read_indexed_world_cache_snapshot, read_world_cache_snapshot_by_fingerprint,
    world_cache_has_existing_tile_cache, world_cache_status, world_cell_cache_entries,
    world_tile_cache_entries, world_tile_pyramid_cache_entries,
    world_tile_pyramid_cache_entries_for_fingerprint,
    world_tile_pyramid_cache_entries_for_snapshot, write_world_cache_index, CacheFiles,
    ManifestState,
    StoredText, WorldManifest, WORLD_CACHE_VERSION, WORLD_ORDER_POLICY,
};

fn test_cell_entries(count: usize) -> Vec<WorldCellCacheEntry> {
    (0..count)
        .map(|index| WorldCellCacheEntry {
            source_path: format!("/walls/{index}.jpg"),
            cache_key: format!("cell-key-{index}"),
            image_path: format!("/cache/cells/{index}.png"),
        })
        .collect()
}

fn test_config() -> MuralConfig {
    MuralConfig {
        wall_dir: Some("/t/walls".to_owned()),
        state_dir: Some("/t/state".to_owned()),
        quarantine_dir: Some("/t/walls/.quarantine".to_owned()),
        favorite_weight: None,
        max_history: None,
        scale_mode: ScaleMode::Fill,
        decode_full_workers: 1,
        canvas_thumbnail_max_edge: 1,
        canvas_cache_workers: 1,
        canvas_cache_backend: CacheBackend::Internal,
        canvas_cache_memory_bytes: 1,
        actions: ActionTransitions {
            next: Transition::Cut,
            back: Transition::Cut,
            shift_forward: Transition::Cut,
            shift_back: Transition::Cut,
            replace: Transition::Cut,
            quarantine: Transition::Cut,
            startup: Transition::Cut,
        },
        world_fallback_transition: None,
    }
}

fn environment() -> TextMap<String> {
    let mut map = TextMap::new();
    map.insert("HOME".to_owned(), "/home/test".to_owned());
    map
}

fn disk(files: &[&str]) -> Disk {
    Disk {
        files: files.iter().map(|path| (*path).to_owned()).collect(),
        error: None,
        taken: Vec::new(),
    }
}

fn stats(files: &[&str]) -> SourceStats {
    let mut found = TextMap::new();
    for path in files {
        found.insert((*path).to_owned(), FileStat { len: 1, mtime_ns: 7 });
    }
    SourceStats { found, error: "No such file or directory (os error 2)".to_owned() }
}

fn cache(manifest: StoredText, files: &[&str]) -> CacheFiles {
    CacheFiles { manifest, stats: stats(files), images: TextMap::new() }
}

#[test]
fn auto_columns_make_nearly_square_grid() {
    assert_eq!(auto_world_columns(0), 1);
    assert_eq!(auto_world_columns(1), 1);
    assert_eq!(auto_world_columns(10), 4);
    assert_eq!(auto_world_columns(100), 10);
}

#[test]
fn tile_pyramid_entries_run_to_single_overview_tile() {
    let cells = test_cell_entries(253 * 253);
    let entries = tile_pyramid_cache_entries(
        "/cache",
        TileCacheSpec {
            thumbnail_edge: 384,
            tile_cells: 8,
            columns: 253,
            rows: 253,
            fingerprint: 0x1234_5678_9abc_def0,
        },
        &cells,
    );
    let statuses = world_lod_cache_statuses(&entries, &TextMap::new());

    assert_eq!(
        statuses
            .iter()
            .map(|status| (status.lod, status.tile_missing))
            .collect::<Vec<_>>(),
        vec![(0, 1024), (1, 16), (2, 1)]
    );
    assert_eq!(world_lod_tile_cells(8, 0), 8);
    assert_eq!(world_lod_tile_cells(8, 1), 64);
    assert_eq!(world_lod_tile_cells(8, 2), 512);
    assert!(entries
        .iter()
        .any(|entry| entry.lod == 2 && entry.start_column == 0 && entry.end_column == 253));
}

#[test]
fn world_tile_paths_include_layout_and_fingerprint() {
    let cells = test_cell_entries(10 * 7);
    let entries = tile_cache_entries(
        "/cache",
        TileCacheSpec {
            thumbnail_edge: 384,
            tile_cells: 8,
            columns: 10,
            rows: 7,
            fingerprint: 0x0123_4567_89ab_cdef,
        },
        &cells,
    );

    assert!(entries[0].image_path.contains("tiles-384-c8-10x7-0123456789abcdef/l0"));
}

#[test]
fn world_tile_paths_change_when_covered_cell_key_changes() {
    let mut cells = test_cell_entries(64);
    let spec = TileCacheSpec {
        thumbnail_edge: 384,
        tile_cells: 8,
        columns: 8,
        rows: 8,
        fingerprint: 0x0123,
    };
    let before = tile_cache_entries("/cache", spec, &cells)[0].image_path.clone();
    cells[0].cache_key = "changed-cell-key".to_owned();
    let after = tile_cache_entries("/cache", spec, &cells)[0].image_path.clone();

    assert_ne!(before, after);
}

#[test]
fn manifest_parse_defaults_missing_order_policy_to_v1() {
    let manifest = parse_manifest(
        "version=1\nlibrary_count=2\ncolumns=2\nrows=1\nfingerprint=0000000000001234\n",
    )
    .unwrap();

    assert_eq!(manifest.order_policy, WORLD_ORDER_POLICY);
}

#[test]
fn manifest_state_rejects_different_order_policy() {
    let stored = StoredText::Content(
        "version=1\norder_policy=other\nlibrary_count=2\ncolumns=2\nrows=1\nfingerprint=0000000000001234\n".to_owned(),
    );
    let expected = WorldManifest {
        version: WORLD_CACHE_VERSION,
        order_policy: WORLD_ORDER_POLICY.to_owned(),
        library_count: 2,
        columns: 2,
        rows: 1,
        fingerprint: 0x1234,
    };

    assert_eq!(manifest_state(&stored, "manifest", &expected).unwrap(), ManifestState::Stale);
}

#[test]
fn status_tracks_missing_and_current_manifest() {
    let config = test_config();
    let files = ["/t/walls/b.png", "/t/walls/a.jpg", "/t/walls/ignored.txt"];

    let status = world_cache_status(
        &config,
        &environment(),
        &disk(&files),
        &cache(StoredText::Missing, &files),
    )
    .unwrap();
    assert_eq!(status.library_count, 2);
    assert_eq!(status.manifest_state, ManifestState::Missing);

    let index = write_world_cache_index(&config, &environment(), &disk(&files)).unwrap();
    let status = world_cache_status(
        &config,
        &environment(),
        &disk(&files),
        &cache(StoredText::Content(index.manifest_text.clone()), &files),
    )
    .unwrap();
    assert_eq!(status.manifest_state, ManifestState::Current);
    assert_eq!(status.order_policy, WORLD_ORDER_POLICY);
    assert_eq!(status.manifest_path, index.manifest_path);
    assert!(index.manifest_text.contains("order_policy=path-snapshot-v1"));
    assert!(!status.ready);
}

#[test]
fn indexed_snapshot_survives_later_library_changes() {
    let config = test_config();
    let before = ["/t/walls/a.jpg", "/t/walls/b.png"];
    let after = ["/t/walls/a.jpg"];

    let index = write_world_cache_index(&config, &environment(), &disk(&before)).unwrap();
    let manifest = StoredText::Content(index.manifest_text.clone());
    let indexed = parse_manifest(&index.manifest_text).unwrap();
    let status = world_cache_status(
        &config,
        &environment(),
        &disk(&after),
        &cache(manifest.clone(), &after),
    )
    .unwrap();
    let snapshot = read_indexed_world_cache_snapshot(
        &config,
        &environment(),
        &manifest,
        &StoredText::Content(index.snapshot_text.clone()),
    )
    .unwrap()
    .unwrap();

    assert_eq!(status.manifest_state, ManifestState::Stale);
    assert_eq!(snapshot.fingerprint, indexed.fingerprint);
    assert_eq!(snapshot.library_count(), 2);
    assert!(snapshot.library.iter().any(|path| path.ends_with("b.png")));
}

#[test]
fn cell_cache_entries_report_deleted_source_paths() {
    let error = cell_cache_entries(
        &vec!["/t/missing.jpg".to_owned()],
        "/t/cache",
        DEFAULT_WORLD_CELL_THUMBNAIL_EDGE,
        &stats(&[]),
    )
    .unwrap_err();

    assert!(error.contains("failed to stat wallpaper"));
    assert!(error.contains("missing.jpg"));
}

#[test]
fn status_marks_manifest_stale_after_source_delete() {
    let config = test_config();
    let before = ["/t/walls/a.jpg", "/t/walls/b.png"];
    let after = ["/t/walls/a.jpg"];
    let index = write_world_cache_index(&config, &environment(), &disk(&before)).unwrap();
    let manifest = StoredText::Content(index.manifest_text.clone());

    assert_eq!(
        world_cache_status(
            &config,
            &environment(),
            &disk(&before),
            &cache(manifest.clone(), &before),
        )
        .unwrap()
        .manifest_state,
        ManifestState::Current
    );
    let status = world_cache_status(
        &config,
        &environment(),
        &disk(&after),
        &cache(manifest, &after),
    )
    .unwrap();

    assert_eq!(status.library_count, 1);
    assert_eq!(status.manifest_state, ManifestState::Stale);
    assert!(!status.ready);
}

#[test]
fn status_marks_manifest_stale_after_source_quarantine() {
    let config = test_config();
    let before = ["/t/walls/a.jpg", "/t/walls/b.png"];
    let after = ["/t/walls/a.jpg", "/t/walls/.quarantine/b.png"];
    let index = write_world_cache_index(&config, &environment(), &disk(&before)).unwrap();
    let manifest = StoredText::Content(index.manifest_text.clone());

    assert_eq!(
        world_cache_status(
            &config,
            &environment(),
            &disk(&before),
            &cache(manifest.clone(), &before),
        )
        .unwrap()
        .manifest_state,
        ManifestState::Current
    );
    let now = cache(manifest, &after);
    let status = world_cache_status(&config, &environment(), &disk(&after), &now).unwrap();
    let cell_entries = world_cell_cache_entries(
        &config,
        &environment(),
        &disk(&after),
        &now,
        DEFAULT_WORLD_CELL_THUMBNAIL_EDGE,
    )
    .unwrap();

    assert_eq!(status.library_count, 1);
    assert_eq!(status.manifest_state, ManifestState::Stale);
    assert!(!status.ready);
    assert!(cell_entries.iter().all(|entry| !entry.source_path.contains(".quarantine")));
}

#[test]
fn a_complete_cache_is_ready() {
    let config = test_config();
    let files = ["/t/walls/a.jpg", "/t/walls/b.png"];
    let index = write_world_cache_index(&config, &environment(), &disk(&files)).unwrap();
    let mut now = cache(StoredText::Content(index.manifest_text.clone()), &files);
    let tiles = world_tile_pyramid_cache_entries(
        &config,
        &environment(),
        &disk(&files),
        &now,
        DEFAULT_WORLD_CELL_THUMBNAIL_EDGE,
        8,
    )
    .unwrap();
    let cells = world_cell_cache_entries(
        &config,
        &environment(),
        &disk(&files),
        &now,
        DEFAULT_WORLD_CELL_THUMBNAIL_EDGE,
    )
    .unwrap();
    for path in tiles
        .iter()
        .map(|tile| &tile.image_path)
        .chain(cells.iter().map(|cell| &cell.image_path))
    {
        now.images.insert(path.clone(), 100);
    }

    let status = world_cache_status(&config, &environment(), &disk(&files), &now).unwrap();
    assert!(status.ready, "{}", status.message);
    assert_eq!(status.world_tile_missing, 0);
    assert_eq!(status.cell_ready, 2);
    let plan =
        plan_world_cache_compute(&config, &environment(), &disk(&files), &now, true).unwrap();
    assert!(plan.dry_run);
    assert_eq!(plan.world_tile_missing, 0);
    assert_eq!(
        plan.world_lods.iter().map(|lod| lod.tile_count).sum::<usize>(),
        plan.world_tile_count
    );
}

#[test]
fn a_manifest_is_read_back() {
    let manifest = WorldManifest {
        version: 1,
        order_policy: "path-snapshot-v1".to_owned(),
        library_count: 12,
        columns: 4,
        rows: 3,
        fingerprint: 0xfeed_0000_0000_0001,
    };

    assert_eq!(parse_manifest(&manifest_text(&manifest)), Some(manifest));
    assert_eq!(parse_manifest("nonsense"), None);
}

#[test]
fn a_manifest_that_cannot_be_understood_is_invalid() {
    let expected = parse_manifest(
        "version=1\nlibrary_count=2\ncolumns=2\nrows=1\nfingerprint=0000000000001234\n",
    )
    .unwrap();
    let state = |stored: StoredText| manifest_state(&stored, "/m", &expected);

    assert_eq!(state(StoredText::Missing).unwrap(), ManifestState::Missing);
    assert_eq!(state(StoredText::Content("x".to_owned())).unwrap(), ManifestState::Invalid);
    assert!(state(StoredText::Unreadable("denied".to_owned())).unwrap_err().contains("/m"));
}

#[test]
fn a_snapshot_is_found_by_its_fingerprint() {
    let config = test_config();
    let files = ["/t/walls/a.jpg", "/t/walls/b.png"];
    let index = write_world_cache_index(&config, &environment(), &disk(&files)).unwrap();
    let fingerprint = parse_manifest(&index.manifest_text).unwrap().fingerprint;

    let stored = read_world_cache_snapshot_by_fingerprint(
        &config,
        &environment(),
        fingerprint,
        &StoredText::Content(index.snapshot_text.clone()),
        &disk(&[]),
    )
    .unwrap()
    .unwrap();
    assert_eq!(stored.library, vec!["/t/walls/a.jpg".to_owned(), "/t/walls/b.png".to_owned()]);
    let scanned = read_world_cache_snapshot_by_fingerprint(
        &config,
        &environment(),
        fingerprint,
        &StoredText::Missing,
        &disk(&files),
    )
    .unwrap()
    .unwrap();
    assert_eq!(scanned.fingerprint, fingerprint);
}

#[test]
fn libraries_differ_in_their_fingerprints() {
    let one = vec!["/a".to_owned(), "/b".to_owned()];
    let other = vec!["/a".to_owned(), "/bc".to_owned()];

    assert_ne!(fingerprint_paths(&one), fingerprint_paths(&other));
    assert_eq!(
        world_cache_snapshot_for_library(one.clone()).fingerprint,
        fingerprint_paths(&one)
    );
    assert_eq!(HASH_START, 0xcbf2_9ce4_8422_2325);
    assert_ne!(hash_text(HASH_START, "a"), hash_text(HASH_START, "b"));
}

#[test]
fn tiles_that_are_there_are_noticed() {
    let config = test_config();
    let files = ["/t/walls/a.jpg"];
    let status = world_cache_status(
        &config,
        &environment(),
        &disk(&files),
        &cache(StoredText::Missing, &files),
    )
    .unwrap();
    let below = |path: &str| vec![format!("{}/{path}", status.cache_dir)];

    assert!(world_cache_has_existing_tile_cache(&status, &below("tiles-384/l0/x.png")));
    assert!(!world_cache_has_existing_tile_cache(&status, &below("cells-384/x.png")));
    assert!(!world_cache_has_existing_tile_cache(&status, &below("tiles-384/l0/x.jpg")));
}

#[test]
fn the_finest_tiles_come_first_in_the_pyramid() {
    let config = test_config();
    let names: Vec<String> = (0..70).map(|index| format!("/t/walls/{index:02}.jpg")).collect();
    let files: Vec<&str> = names.iter().map(String::as_str).collect();
    let now = cache(StoredText::Missing, &files);
    let finest =
        world_tile_cache_entries(&config, &environment(), &disk(&files), &now, 64, 4).unwrap();
    let pyramid =
        world_tile_pyramid_cache_entries(&config, &environment(), &disk(&files), &now, 64, 4)
            .unwrap();

    assert!(finest.iter().all(|tile| tile.lod == 0));
    assert!(pyramid.len() > finest.len());
    for (tile, same) in finest.iter().zip(&pyramid) {
        assert_eq!(tile.image_path, same.image_path);
    }
    assert_eq!(pyramid.iter().filter(|tile| tile.lod == 0).count(), finest.len());
}

#[test]
fn a_pyramid_is_found_by_its_fingerprint() {
    let config = test_config();
    let files = ["/t/walls/a.jpg", "/t/walls/b.png"];
    let index = write_world_cache_index(&config, &environment(), &disk(&files)).unwrap();
    let now = cache(StoredText::Content(index.manifest_text.clone()), &files);
    let stored = StoredText::Content(index.snapshot_text.clone());
    let snapshot =
        read_indexed_world_cache_snapshot(&config, &environment(), &now.manifest, &stored)
            .unwrap()
            .unwrap();
    let wanted = world_tile_pyramid_cache_entries_for_snapshot(
        &config,
        &environment(),
        &snapshot,
        &now,
        64,
        4,
    )
    .unwrap();

    let found = world_tile_pyramid_cache_entries_for_fingerprint(
        &config,
        &environment(),
        snapshot.fingerprint,
        &stored,
        &disk(&files),
        &now,
        64,
        4,
    )
    .unwrap();
    assert_eq!(found.len(), wanted.len());
    for (tile, same) in found.iter().zip(&wanted) {
        assert_eq!(tile.image_path, same.image_path);
    }

    let message = world_tile_pyramid_cache_entries_for_fingerprint(
        &config,
        &environment(),
        0x2a,
        &StoredText::Missing,
        &disk(&files),
        &now,
        64,
        4,
    )
    .unwrap_err();
    assert_eq!(
        message,
        "world cache snapshot 000000000000002a is missing; run `muralctl world cache index`"
    );
}
