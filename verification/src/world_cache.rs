//! The cache of the world of wallpapers: its index, what of it is there, and what is left
//! to make.

use crate::config::{ConfigView, MuralConfig};
use crate::control::{scan_top_level_library, Disk, DiskView, WallpaperPaths};
use crate::hashing::parse_hex;
use crate::library::configured_wallpaper_paths;
use crate::paths::{join, path_parts, split_extension};
use crate::text::{
    concat2, concat3, concat4, copy_text, decimal_u32, decimal_usize, hex_u64, lines, parse_u32,
    parse_usize, split_once, starts_with, text_eq,
};
use crate::textlist::text_of_lines;
use crate::textmap::TextMap;
use crate::tiles::{
    cell_cache_entries, tile_cache_entries, tile_pyramid_cache_entries,
    world_cache_snapshot_for_library, world_lod_cache_statuses, CellView, FileStat, SnapshotView,
    SourceStats, TileCacheSpec, TileView, WorldCacheSnapshot, WorldCellCacheEntry,
    WorldLodCacheStatus, WorldTileCacheEntry, DEFAULT_WORLD_CELL_THUMBNAIL_EDGE,
    DEFAULT_WORLD_TILE_CELLS,
};
use crate::error;
use crate::hashing;
use crate::text;
use crate::textlist;
use crate::control;
use crate::library;
use crate::paths;
use crate::textmap;
use crate::tiles;
use vstd::prelude::*;

verus! {

/// The version of the cache's layout on disk.
pub const WORLD_CACHE_VERSION: u32 = 1;

/// The name of the order in which wallpapers are laid out.
pub const WORLD_ORDER_POLICY: &'static str = "path-snapshot-v1";

// ---------------------------------------------------------------------------
// The manifest

/// What a file holds, if it is there and can be read.
#[derive(Clone, Debug, PartialEq, Eq)]
pub enum StoredText {
    /// There is no such file.
    Missing,
    /// It cannot be read, and why.
    Unreadable(String),
    /// It can.
    Content(String),
}

/// What a file holds, as a mathematical value.
pub enum StoredTextView {
    Missing,
    Unreadable(Seq<char>),
    Content(Seq<char>),
}

impl View for StoredText {
    type V = StoredTextView;

    open spec fn view(&self) -> StoredTextView {
        match self {
            StoredText::Missing => StoredTextView::Missing,
            StoredText::Unreadable(message) => StoredTextView::Unreadable(message@),
            StoredText::Content(text) => StoredTextView::Content(text@),
        }
    }
}

/// What the index of the cache says of the library it was made for.
#[derive(Clone, Debug, PartialEq, Eq)]
pub struct WorldManifest {
    pub version: u32,
    pub order_policy: String,
    pub library_count: usize,
    pub columns: usize,
    pub rows: usize,
    pub fingerprint: u64,
}

/// A manifest, as a mathematical value.
#[verifier::ext_equal]
pub struct ManifestView {
    pub version: u32,
    pub order_policy: Seq<char>,
    pub library_count: usize,
    pub columns: usize,
    pub rows: usize,
    pub fingerprint: u64,
}

impl View for WorldManifest {
    type V = ManifestView;

    open spec fn view(&self) -> ManifestView {
        ManifestView {
            version: self.version,
            order_policy: self.order_policy@,
            library_count: self.library_count,
            columns: self.columns,
            rows: self.rows,
            fingerprint: self.fingerprint,
        }
    }
}

/// What has been read of a manifest.
pub struct ManifestParts {
    pub version: Option<u32>,
    pub order_policy: Option<String>,
    pub library_count: Option<usize>,
    pub columns: Option<usize>,
    pub rows: Option<usize>,
    pub fingerprint: Option<u64>,
}

/// What has been read of a manifest, as a mathematical value.
pub struct PartsView {
    pub version: Option<u32>,
    pub order_policy: Option<Seq<char>>,
    pub library_count: Option<usize>,
    pub columns: Option<usize>,
    pub rows: Option<usize>,
    pub fingerprint: Option<u64>,
}

impl View for ManifestParts {
    type V = PartsView;

    open spec fn view(&self) -> PartsView {
        PartsView {
            version: self.version,
            order_policy: text::text_if(self.order_policy),
            library_count: self.library_count,
            columns: self.columns,
            rows: self.rows,
            fingerprint: self.fingerprint,
        }
    }
}

/// The number that a text gives, if it is one of 32 bits.
pub open spec fn u32_in(text: Seq<char>) -> Option<u32> {
    match text::unsigned_value(text, u32::MAX as nat) {
        Ok(number) => Some(number as u32),
        Err(_) => None,
    }
}

/// The number that a text gives, if it is one that can count.
pub open spec fn usize_in(text: Seq<char>) -> Option<usize> {
    match text::unsigned_value(text, usize::MAX as nat) {
        Ok(number) => Some(number as usize),
        Err(_) => None,
    }
}

/// The number that a hexadecimal text gives, if it is one of 64 bits.
pub open spec fn hex_in(text: Seq<char>) -> Option<u64> {
    match hashing::hex_number(text) {
        Some(number) => Some(number as u64),
        None => None,
    }
}

/// What has been read of a manifest after one more line, if that is a setting.
pub open spec fn with_line(parts: PartsView, line: Seq<char>) -> Option<PartsView> {
    match text::split_at_first(line, '=') {
        None => None,
        Some((key, value)) => Some(
            if key == "version"@ {
                PartsView { version: u32_in(value), ..parts }
            } else if key == "order_policy"@ {
                PartsView { order_policy: Some(value), ..parts }
            } else if key == "library_count"@ {
                PartsView { library_count: usize_in(value), ..parts }
            } else if key == "columns"@ {
                PartsView { columns: usize_in(value), ..parts }
            } else if key == "rows"@ {
                PartsView { rows: usize_in(value), ..parts }
            } else if key == "fingerprint"@ {
                PartsView { fingerprint: hex_in(value), ..parts }
            } else {
                parts
            },
        ),
    }
}

/// What lines say of a manifest, if each is a setting.
pub open spec fn parts_in(list: Seq<Seq<char>>) -> Option<PartsView>
    decreases list.len(),
{
    if list.len() == 0 {
        Some(
            PartsView {
                version: None,
                order_policy: None,
                library_count: None,
                columns: None,
                rows: None,
                fingerprint: None,
            },
        )
    } else {
        match parts_in(list.drop_last()) {
            None => None,
            Some(parts) => with_line(parts, list.last()),
        }
    }
}

/// The manifest that a text gives: one that names no order has the only order there was
/// when manifests named none.
pub open spec fn manifest_in(text: Seq<char>) -> Option<ManifestView> {
    match parts_in(text::lines_of(text)) {
        None => None,
        Some(parts) => match (
            parts.version,
            parts.library_count,
            parts.columns,
            parts.rows,
            parts.fingerprint,
        ) {
            (Some(version), Some(library_count), Some(columns), Some(rows), Some(fingerprint)) =>
                Some(
                ManifestView {
                    version,
                    order_policy: match parts.order_policy {
                        Some(name) => name,
                        None => WORLD_ORDER_POLICY@,
                    },
                    library_count,
                    columns,
                    rows,
                    fingerprint,
                },
            ),
            _ => None,
        },
    }
}

proof fn lemma_parts_error_stays(list: Seq<Seq<char>>, n: int)
    requires
        0 <= n <= list.len(),
        parts_in(list.take(n)) is None,
    ensures
        parts_in(list) is None,
    decreases list.len() - n,
{
    if n == list.len() {
        assert(list.take(n) =~= list);
    } else {
        assert(list.take(n + 1).drop_last() =~= list.take(n));
        lemma_parts_error_stays(list, n + 1);
    }
}

fn read_u32(text: &str) -> (number: Option<u32>)
    ensures
        number == u32_in(text@),
{
    match parse_u32(text) {
        Ok(number) => Some(number),
        Err(_) => None,
    }
}

fn read_count(text: &str) -> (number: Option<usize>)
    ensures
        number == usize_in(text@),
{
    match parse_usize(text) {
        Ok(number) => Some(number),
        Err(_) => None,
    }
}

impl ManifestParts {
    fn read_line(&mut self, line: &str) -> (is_setting: bool)
        ensures
            is_setting == with_line(old(self)@, line@) is Some,
            is_setting ==> Some(final(self)@) == with_line(old(self)@, line@),
    {
        match split_once(line, '=') {
            None => false,
            Some((key, value)) => {
                let key = key.as_str();
                if text_eq(key, "version") {
                    self.version = read_u32(value.as_str());
                } else if text_eq(key, "order_policy") {
                    self.order_policy = Some(value);
                } else if text_eq(key, "library_count") {
                    self.library_count = read_count(value.as_str());
                } else if text_eq(key, "columns") {
                    self.columns = read_count(value.as_str());
                } else if text_eq(key, "rows") {
                    self.rows = read_count(value.as_str());
                } else if text_eq(key, "fingerprint") {
                    self.fingerprint = parse_hex(value.as_str());
                }
                true
            },
        }
    }
}

/// The manifest that a text gives, if every line of it is a setting and the last word on
/// each number is one.
pub fn parse_manifest(content: &str) -> (manifest: Option<WorldManifest>)
    ensures
        match (manifest, manifest_in(content@)) {
            (Some(manifest), Some(expected)) => manifest@ == expected,
            (None, None) => true,
            _ => false,
        },
{
    let list = lines(content);
    let ghost all = text::lines_of(content@);
    let mut parts = ManifestParts {
        version: None,
        order_policy: None,
        library_count: None,
        columns: None,
        rows: None,
        fingerprint: None,
    };
    let mut i: usize = 0;
    assert(all.take(0) =~= Seq::<Seq<char>>::empty());
    while i < list.len()
        invariant
            i <= list@.len(),
            all == text::texts(list@),
            all == text::lines_of(content@),
            parts_in(all.take(i as int)) == Some(parts@),
        decreases list@.len() - i,
    {
        proof {
            assert(all.take(i + 1).drop_last() =~= all.take(i as int));
            assert(all.take(i + 1).last() == list@[i as int]@);
        }
        if !parts.read_line(list[i].as_str()) {
            proof {
                lemma_parts_error_stays(all, i + 1);
            }
            return None;
        }
        i = i + 1;
    }
    assert(all.take(i as int) =~= all);
    let order_policy = match parts.order_policy {
        Some(name) => name,
        None => copy_text(WORLD_ORDER_POLICY),
    };
    match (
        parts.version,
        parts.library_count,
        parts.columns,
        parts.rows,
        parts.fingerprint,
    ) {
        (Some(version), Some(library_count), Some(columns), Some(rows), Some(fingerprint)) => Some(
            WorldManifest { version, order_policy, library_count, columns, rows, fingerprint },
        ),
        _ => None,
    }
}

/// The lines of a manifest.
pub open spec fn manifest_lines(manifest: ManifestView) -> Seq<Seq<char>> {
    seq![
        "version="@ + text::decimal_text(manifest.version as nat),
        "order_policy="@ + manifest.order_policy,
        "library_count="@ + text::decimal_text(manifest.library_count as nat),
        "columns="@ + text::decimal_text(manifest.columns as nat),
        "rows="@ + text::decimal_text(manifest.rows as nat),
        "fingerprint="@ + text::hex_text(manifest.fingerprint as nat, 16),
    ]
}

/// The text of a manifest.
pub fn manifest_text(manifest: &WorldManifest) -> (text: String)
    ensures
        text@ == textlist::lines_text(manifest_lines(manifest@)),
{
    let mut list: Vec<String> = Vec::new();
    list.push(concat2("version=", decimal_u32(manifest.version).as_str()));
    list.push(concat2("order_policy=", manifest.order_policy.as_str()));
    list.push(concat2("library_count=", decimal_usize(manifest.library_count).as_str()));
    list.push(concat2("columns=", decimal_usize(manifest.columns).as_str()));
    list.push(concat2("rows=", decimal_usize(manifest.rows).as_str()));
    list.push(concat2("fingerprint=", hex_u64(manifest.fingerprint, 16).as_str()));
    assert(text::texts(list@) =~= manifest_lines(manifest@));
    text_of_lines(&list)
}

/// How the index of the cache stands to the library.
#[derive(Clone, Copy, Debug, PartialEq, Eq, Structural)]
pub enum ManifestState {
    Missing,
    Current,
    Stale,
    Invalid,
}

impl ManifestState {
    /// The name of a state.
    pub open spec fn spec_name(self) -> Seq<char> {
        match self {
            ManifestState::Missing => "missing"@,
            ManifestState::Current => "current"@,
            ManifestState::Stale => "stale"@,
            ManifestState::Invalid => "invalid"@,
        }
    }

    /// The name of a state.
    pub fn as_str(self) -> (name: &'static str)
        ensures
            name@ == self.spec_name(),
    {
        match self {
            ManifestState::Missing => "missing",
            ManifestState::Current => "current",
            ManifestState::Stale => "stale",
            ManifestState::Invalid => "invalid",
        }
    }
}

/// How what is stored of a manifest stands to the manifest that is expected.
pub open spec fn state_of(
    stored: StoredTextView,
    path: Seq<char>,
    expected: ManifestView,
) -> Result<ManifestState, Seq<char>> {
    match stored {
        StoredTextView::Missing => Ok(ManifestState::Missing),
        StoredTextView::Unreadable(error) => Err(
            "failed to read world cache manifest "@ + path + ": "@ + error,
        ),
        StoredTextView::Content(text) => match manifest_in(text) {
            None => Ok(ManifestState::Invalid),
            Some(actual) => Ok(
                if actual == expected {
                    ManifestState::Current
                } else {
                    ManifestState::Stale
                },
            ),
        },
    }
}

fn same_manifest(a: &WorldManifest, b: &WorldManifest) -> (same: bool)
    ensures
        same == (a@ == b@),
{
    a.version == b.version && text_eq(a.order_policy.as_str(), b.order_policy.as_str())
        && a.library_count == b.library_count && a.columns == b.columns && a.rows == b.rows
        && a.fingerprint == b.fingerprint
}

/// How what is stored of a manifest stands to the manifest that is expected.
pub fn manifest_state(stored: &StoredText, path: &str, expected: &WorldManifest) -> (result: Result<
    ManifestState,
    String,
>)
    ensures
        error::agrees(result, state_of(stored@, path@, expected@)),
{
    match stored {
        StoredText::Missing => Ok(ManifestState::Missing),
        StoredText::Unreadable(error) => Err(
            concat4("failed to read world cache manifest ", path, ": ", error.as_str()),
        ),
        StoredText::Content(text) => match parse_manifest(text.as_str()) {
            None => Ok(ManifestState::Invalid),
            Some(actual) => if same_manifest(&actual, expected) {
                Ok(ManifestState::Current)
            } else {
                Ok(ManifestState::Stale)
            },
        },
    }
}

// ---------------------------------------------------------------------------
// What of the cache is there

/// What the disk holds of the cache.
#[derive(Debug, PartialEq, Eq)]
pub struct CacheFiles {
    /// The manifest.
    pub manifest: StoredText,
    /// What the system says of the wallpapers.
    pub stats: SourceStats,
    /// The cached images that are files, with their sizes in bytes.
    pub images: TextMap<u64>,
}

/// What the disk holds of the cache, as a mathematical value.
pub struct CacheFilesView {
    pub manifest: StoredTextView,
    pub found: Seq<(Seq<char>, FileStat)>,
    pub error: Seq<char>,
    pub images: Seq<(Seq<char>, u64)>,
}

impl View for CacheFiles {
    type V = CacheFilesView;

    open spec fn view(&self) -> CacheFilesView {
        CacheFilesView {
            manifest: self.manifest@,
            found: self.stats.found.raw(),
            error: self.stats.error@,
            images: self.images.raw(),
        }
    }
}

/// How much of the cache is there.
#[derive(Clone, Debug, PartialEq, Eq)]
pub struct WorldCacheStatus {
    pub wall_dir: String,
    pub state_dir: String,
    pub cache_dir: String,
    pub manifest_path: String,
    pub library_count: usize,
    pub columns: usize,
    pub rows: usize,
    pub fingerprint: u64,
    pub order_policy: String,
    pub thumbnail_edge: u32,
    pub cell_ready: usize,
    pub cell_missing: usize,
    pub world_tile_ready: usize,
    pub world_tile_missing: usize,
    pub world_lods: Vec<WorldLodCacheStatus>,
    pub manifest_state: ManifestState,
    pub ready: bool,
    pub message: String,
}

/// How much of the cache is there, as a mathematical value.
#[verifier::ext_equal]
pub struct WorldStatusView {
    pub wall_dir: Seq<char>,
    pub state_dir: Seq<char>,
    pub cache_dir: Seq<char>,
    pub manifest_path: Seq<char>,
    pub library_count: nat,
    pub columns: usize,
    pub rows: usize,
    pub fingerprint: u64,
    pub order_policy: Seq<char>,
    pub thumbnail_edge: u32,
    pub cell_ready: nat,
    pub cell_missing: nat,
    pub world_tile_ready: nat,
    pub world_tile_missing: nat,
    pub world_lods: Seq<WorldLodCacheStatus>,
    pub manifest_state: ManifestState,
    pub ready: bool,
    pub message: Seq<char>,
}

impl View for WorldCacheStatus {
    type V = WorldStatusView;

    open spec fn view(&self) -> WorldStatusView {
        WorldStatusView {
            wall_dir: self.wall_dir@,
            state_dir: self.state_dir@,
            cache_dir: self.cache_dir@,
            manifest_path: self.manifest_path@,
            library_count: self.library_count as nat,
            columns: self.columns,
            rows: self.rows,
            fingerprint: self.fingerprint,
            order_policy: self.order_policy@,
            thumbnail_edge: self.thumbnail_edge,
            cell_ready: self.cell_ready as nat,
            cell_missing: self.cell_missing as nat,
            world_tile_ready: self.world_tile_ready as nat,
            world_tile_missing: self.world_tile_missing as nat,
            world_lods: self.world_lods@,
            manifest_state: self.manifest_state,
            ready: self.ready,
            message: self.message@,
        }
    }
}

/// Where wallpapers are kept, where their state is, and where those in quarantine are, if
/// there is a home directory.
pub open spec fn world_places(config: ConfigView, environment: Seq<(Seq<char>, Seq<char>)>) -> Result<
    (Seq<char>, Seq<char>, Seq<char>),
    Seq<char>,
> {
    match textmap::entries_get(environment, "HOME"@) {
        Some(home) => Ok(library::places(config, environment, home)),
        None => Err("HOME is not set"@),
    }
}

/// Where the cache is kept below the directory for state.
pub open spec fn world_dir(state_dir: Seq<char>) -> Seq<char> {
    paths::joined(state_dir, "cache/world-v1"@)
}

/// The manifest of a snapshot.
pub open spec fn manifest_for(snapshot: SnapshotView) -> ManifestView {
    ManifestView {
        version: WORLD_CACHE_VERSION,
        order_policy: WORLD_ORDER_POLICY@,
        library_count: snapshot.library.len() as usize,
        columns: snapshot.columns,
        rows: snapshot.rows,
        fingerprint: snapshot.fingerprint,
    }
}

/// What the tiles of a snapshot are named after.
pub open spec fn tiles_for(snapshot: SnapshotView, edge: u32, tile_cells: usize) -> TileCacheSpec {
    TileCacheSpec {
        thumbnail_edge: edge,
        tile_cells,
        columns: snapshot.columns,
        rows: snapshot.rows,
        fingerprint: snapshot.fingerprint,
    }
}

/// The paths of thumbnails.
pub open spec fn cell_images(cells: Seq<CellView>) -> Seq<Seq<char>> {
    Seq::new(cells.len(), |i: int| cells[i].image_path)
}

/// The keys of thumbnails.
pub open spec fn keys_of(cells: Seq<CellView>) -> Seq<Seq<char>> {
    Seq::new(cells.len(), |i: int| cells[i].cache_key)
}

/// The paths of the images of tiles.
pub open spec fn tile_images(tiles: Seq<TileView>) -> Seq<Seq<char>> {
    Seq::new(tiles.len(), |i: int| tiles[i].image_path)
}

/// What to tell of the cache.
pub open spec fn status_message(state: ManifestState, ready: bool) -> Seq<char> {
    match state {
        ManifestState::Missing => "world cache manifest is missing; run `muralctl world cache index`"@,
        ManifestState::Current => if ready {
            "world cache is ready for bounded world routes"@
        } else {
            "world cache index is current but image coverage is incomplete; run `muralctl world cache compute --scope all --background --progress`"@
        },
        ManifestState::Stale => "world cache manifest is stale; run `muralctl world cache index`"@,
        ManifestState::Invalid => "world cache manifest is invalid; run `muralctl world cache index`"@,
    }
}

/// How much of the cache is there for a library whose thumbnails are known.
pub open spec fn status_for(
    wall_dir: Seq<char>,
    state_dir: Seq<char>,
    snapshot: SnapshotView,
    state: ManifestState,
    cells: Seq<CellView>,
    images: Seq<(Seq<char>, u64)>,
    edge: u32,
) -> WorldStatusView {
    let cache_dir = world_dir(state_dir);
    let tiles = tiles::pyramid_from(
        cache_dir,
        tiles_for(snapshot, edge, DEFAULT_WORLD_TILE_CELLS),
        0,
        keys_of(cells),
    );
    let cell_ready = tiles::stored_count(cell_images(cells), images);
    let tile_ready = tiles::stored_count(tile_images(tiles), images);
    let ready = state == ManifestState::Current && cell_ready == cells.len() && tile_ready
        == tiles.len() && snapshot.library.len() > 0;
    WorldStatusView {
        wall_dir,
        state_dir,
        cache_dir,
        manifest_path: paths::joined(cache_dir, "manifest"@),
        library_count: snapshot.library.len(),
        columns: snapshot.columns,
        rows: snapshot.rows,
        fingerprint: snapshot.fingerprint,
        order_policy: WORLD_ORDER_POLICY@,
        thumbnail_edge: edge,
        cell_ready,
        cell_missing: (cells.len() - cell_ready) as nat,
        world_tile_ready: tile_ready,
        world_tile_missing: (tiles.len() - tile_ready) as nat,
        world_lods: tiles::lod_statuses(tiles, images),
        manifest_state: state,
        ready,
        message: status_message(state, ready),
    }
}

/// How much of the cache is there, or why that cannot be told.
pub open spec fn world_status(
    config: ConfigView,
    environment: Seq<(Seq<char>, Seq<char>)>,
    disk: DiskView,
    cache: CacheFilesView,
    edge: u32,
) -> Result<WorldStatusView, Seq<char>> {
    match world_places(config, environment) {
        Err(message) => Err(message),
        Ok((wall_dir, state_dir, quarantine_dir)) => match control::scanned(wall_dir, quarantine_dir, disk) {
            Err(message) => Err(message),
            Ok(library) => {
                let snapshot = tiles::snapshot_of(library);
                let cache_dir = world_dir(state_dir);
                match state_of(
                    cache.manifest,
                    paths::joined(cache_dir, "manifest"@),
                    manifest_for(snapshot),
                ) {
                    Err(message) => Err(message),
                    Ok(state) => match tiles::cells_of(
                        library,
                        cache_dir,
                        edge,
                        cache.found,
                        cache.error,
                    ) {
                        Err(message) => Err(message),
                        Ok(cells) => Ok(
                            status_for(
                                wall_dir,
                                state_dir,
                                snapshot,
                                state,
                                cells,
                                cache.images,
                                edge,
                            ),
                        ),
                    },
                }
            },
        },
    }
}

fn count_cells(cells: &Vec<WorldCellCacheEntry>, files: &TextMap<u64>) -> (ready: usize)
    ensures
        ready == tiles::stored_count(cell_images(tiles::cell_views(cells@)), files.raw()),
        ready <= cells@.len(),
{
    let ghost all = cell_images(tiles::cell_views(cells@));
    let mut ready: usize = 0;
    let mut i: usize = 0;
    assert(all.take(0) =~= Seq::<Seq<char>>::empty());
    while i < cells.len()
        invariant
            i <= cells@.len(),
            all == cell_images(tiles::cell_views(cells@)),
            ready == tiles::stored_count(all.take(i as int), files.raw()),
            ready <= i,
        decreases cells@.len() - i,
    {
        proof {
            assert(all.take(i + 1).drop_last() =~= all.take(i as int));
            assert(all.take(i + 1).last() == cells@[i as int].image_path@);
        }
        if files.contains_key(cells[i].image_path.as_str()) {
            ready = ready + 1;
        }
        i = i + 1;
    }
    assert(all.take(i as int) =~= all);
    ready
}

/// How many of the tiles have an image among the files.
pub(crate) fn count_tiles(tiles: &Vec<WorldTileCacheEntry>, files: &TextMap<u64>) -> (ready: usize)
    ensures
        ready == tiles::stored_count(tile_images(tiles::tile_views(tiles@)), files.raw()),
        ready <= tiles@.len(),
{
    let ghost all = tile_images(tiles::tile_views(tiles@));
    let mut ready: usize = 0;
    let mut i: usize = 0;
    assert(all.take(0) =~= Seq::<Seq<char>>::empty());
    while i < tiles.len()
        invariant
            i <= tiles@.len(),
            all == tile_images(tiles::tile_views(tiles@)),
            ready == tiles::stored_count(all.take(i as int), files.raw()),
            ready <= i,
        decreases tiles@.len() - i,
    {
        proof {
            assert(all.take(i + 1).drop_last() =~= all.take(i as int));
            assert(all.take(i + 1).last() == tiles@[i as int].image_path@);
        }
        if files.contains_key(tiles[i].image_path.as_str()) {
            ready = ready + 1;
        }
        i = i + 1;
    }
    assert(all.take(i as int) =~= all);
    ready
}

fn message_for(state: ManifestState, ready: bool) -> (message: &'static str)
    ensures
        message@ == status_message(state, ready),
{
    match state {
        ManifestState::Missing => "world cache manifest is missing; run `muralctl world cache index`",
        ManifestState::Current => if ready {
            "world cache is ready for bounded world routes"
        } else {
            "world cache index is current but image coverage is incomplete; run `muralctl world cache compute --scope all --background --progress`"
        },
        ManifestState::Stale => "world cache manifest is stale; run `muralctl world cache index`",
        ManifestState::Invalid => "world cache manifest is invalid; run `muralctl world cache index`",
    }
}

/// The manifest of a snapshot.
pub fn manifest_of(snapshot: &WorldCacheSnapshot) -> (manifest: WorldManifest)
    ensures
        manifest@ == manifest_for(snapshot@),
{
    assert(text::texts(snapshot.library@).len() == snapshot.library@.len());
    WorldManifest {
        version: WORLD_CACHE_VERSION,
        order_policy: copy_text(WORLD_ORDER_POLICY),
        library_count: snapshot.library.len(),
        columns: snapshot.columns,
        rows: snapshot.rows,
        fingerprint: snapshot.fingerprint,
    }
}

fn configured(config: &MuralConfig, environment: &TextMap<String>) -> (result: Result<
    WallpaperPaths,
    String,
>)
    ensures
        match (result, world_places(config@, textmap::text_entries(*environment))) {
            (Ok(found), Ok(expected)) => (
                found.wall_dir@,
                found.state_dir@,
                found.quarantine_dir@,
            ) == expected,
            (Err(message), Err(expected)) => message@ == expected,
            _ => false,
        },
{
    configured_wallpaper_paths(config, environment)
}

/// How much of the cache is there for thumbnails with an edge of some length.
pub fn world_cache_status_with_edge(
    config: &MuralConfig,
    environment: &TextMap<String>,
    disk: &Disk,
    cache: &CacheFiles,
    thumbnail_edge: u32,
) -> (result: Result<WorldCacheStatus, String>)
    ensures
        error::agrees_view(
            result,
            world_status(
                config@,
                textmap::text_entries(*environment),
                disk@,
                cache@,
                thumbnail_edge,
            ),
        ),
        result matches Ok(status) ==> status.world_tile_ready + status.world_tile_missing
            <= usize::MAX,
{
    let found = configured(config, environment)?;
    let library = scan_top_level_library(&found, disk)?;
    let snapshot = world_cache_snapshot_for_library(library);
    let cache_dir = join(found.state_dir.as_str(), "cache/world-v1");
    let manifest_path = join(cache_dir.as_str(), "manifest");
    let expected = manifest_of(&snapshot);
    let manifest_state = manifest_state(&cache.manifest, manifest_path.as_str(), &expected)?;
    let cells = cell_cache_entries(
        &snapshot.library,
        cache_dir.as_str(),
        thumbnail_edge,
        &cache.stats,
    )?;
    let cell_ready = count_cells(&cells, &cache.images);
    let cell_missing: usize = cells.len() - cell_ready;
    let spec = TileCacheSpec {
        thumbnail_edge,
        tile_cells: DEFAULT_WORLD_TILE_CELLS,
        columns: snapshot.columns,
        rows: snapshot.rows,
        fingerprint: snapshot.fingerprint,
    };
    assert(tiles::cell_keys(cells@) =~= keys_of(tiles::cell_views(cells@)));
    let tiles = tile_pyramid_cache_entries(cache_dir.as_str(), spec, &cells);
    let world_lods = world_lod_cache_statuses(&tiles, &cache.images);
    let world_tile_ready = count_tiles(&tiles, &cache.images);
    let world_tile_missing: usize = tiles.len() - world_tile_ready;
    let library_count = snapshot.library.len();
    let ready = matches!(manifest_state, ManifestState::Current) && cell_missing == 0
        && world_tile_missing == 0 && library_count > 0;
    let message = copy_text(message_for(manifest_state, ready));
    let status = WorldCacheStatus {
        wall_dir: found.wall_dir,
        state_dir: found.state_dir,
        cache_dir,
        manifest_path,
        library_count,
        columns: snapshot.columns,
        rows: snapshot.rows,
        fingerprint: snapshot.fingerprint,
        order_policy: copy_text(WORLD_ORDER_POLICY),
        thumbnail_edge,
        cell_ready,
        cell_missing,
        world_tile_ready,
        world_tile_missing,
        world_lods,
        manifest_state,
        ready,
        message,
    };
    proof {
        assert(tiles::cell_views(cells@).len() == cells@.len());
        assert(tiles::tile_views(tiles@).len() == tiles@.len());
        assert(snapshot@.library.len() == library_count);
    }
    Ok(status)
}

/// How much of the cache is there.
pub fn world_cache_status(
    config: &MuralConfig,
    environment: &TextMap<String>,
    disk: &Disk,
    cache: &CacheFiles,
) -> (result: Result<WorldCacheStatus, String>)
    ensures
        error::agrees_view(
            result,
            world_status(
                config@,
                textmap::text_entries(*environment),
                disk@,
                cache@,
                DEFAULT_WORLD_CELL_THUMBNAIL_EDGE,
            ),
        ),
{
    world_cache_status_with_edge(
        config,
        environment,
        disk,
        cache,
        DEFAULT_WORLD_CELL_THUMBNAIL_EDGE,
    )
}

// ---------------------------------------------------------------------------
// What is left to make

/// How much of a level is there, and how much it is.
#[derive(Clone, Copy, Debug, PartialEq, Eq, Structural)]
pub struct WorldLodPlan {
    pub lod: usize,
    pub tile_count: usize,
    pub tile_ready: usize,
    pub tile_missing: usize,
}

/// What making the cache would come to.
#[derive(Clone, Debug, PartialEq, Eq)]
pub struct WorldCachePlan {
    pub status: WorldCacheStatus,
    pub thumbnail_count: usize,
    pub thumbnail_ready: usize,
    pub thumbnail_missing: usize,
    pub world_tile_count: usize,
    pub world_tile_ready: usize,
    pub world_tile_missing: usize,
    pub world_lods: Vec<WorldLodPlan>,
    pub dry_run: bool,
}

/// What making the cache would come to, as a mathematical value.
pub struct PlanView {
    pub status: WorldStatusView,
    pub thumbnail_count: nat,
    pub thumbnail_ready: nat,
    pub thumbnail_missing: nat,
    pub world_tile_count: nat,
    pub world_tile_ready: nat,
    pub world_tile_missing: nat,
    pub world_lods: Seq<WorldLodPlan>,
    pub dry_run: bool,
}

impl View for WorldCachePlan {
    type V = PlanView;

    open spec fn view(&self) -> PlanView {
        PlanView {
            status: self.status@,
            thumbnail_count: self.thumbnail_count as nat,
            thumbnail_ready: self.thumbnail_ready as nat,
            thumbnail_missing: self.thumbnail_missing as nat,
            world_tile_count: self.world_tile_count as nat,
            world_tile_ready: self.world_tile_ready as nat,
            world_tile_missing: self.world_tile_missing as nat,
            world_lods: self.world_lods@,
            dry_run: self.dry_run,
        }
    }
}

/// The plan for a level.
pub open spec fn lod_plan(status: WorldLodCacheStatus) -> WorldLodPlan {
    WorldLodPlan {
        lod: status.lod,
        tile_count: (status.tile_ready + status.tile_missing) as usize,
        tile_ready: status.tile_ready,
        tile_missing: status.tile_missing,
    }
}

/// The number of tiles at all levels.
pub open spec fn lods_total(statuses: Seq<WorldLodCacheStatus>) -> nat
    decreases statuses.len(),
{
    if statuses.len() == 0 {
        0
    } else {
        lods_total(statuses.drop_last()) + (statuses.last().tile_ready
            + statuses.last().tile_missing) as nat
    }
}

/// What making the cache would come to.
pub open spec fn plan_for(status: WorldStatusView, dry_run: bool) -> PlanView {
    PlanView {
        status,
        thumbnail_count: status.library_count,
        thumbnail_ready: status.cell_ready,
        thumbnail_missing: status.cell_missing,
        world_tile_count: lods_total(status.world_lods),
        world_tile_ready: status.world_tile_ready,
        world_tile_missing: status.world_tile_missing,
        world_lods: Seq::new(status.world_lods.len(), |i: int| lod_plan(status.world_lods[i])),
        dry_run,
    }
}

/// How many of the tiles stand at one of the first levels.
pub open spec fn below_lod(tiles: Seq<TileView>, n: nat) -> nat
    decreases n,
{
    if n == 0 {
        0
    } else {
        below_lod(tiles, (n - 1) as nat) + tiles::lod_count(tiles, (n - 1) as nat)
    }
}

proof fn lemma_below_lod(tiles: Seq<TileView>, n: nat)
    requires
        tiles.len() > 0,
    ensures
        below_lod(tiles, n) == below_lod(tiles.drop_last(), n) + (if tiles.last().lod < n {
            1nat
        } else {
            0nat
        }),
    decreases n,
{
    if n > 0 {
        lemma_below_lod(tiles, (n - 1) as nat);
    }
}

proof fn lemma_below_top(tiles: Seq<TileView>, n: nat)
    requires
        n > tiles::top_lod(tiles),
    ensures
        below_lod(tiles, n) == tiles.len(),
    decreases tiles.len(),
{
    if tiles.len() > 0 {
        lemma_below_lod(tiles, n);
        lemma_below_top(tiles.drop_last(), n);
    } else {
        lemma_below_none(tiles, n);
    }
}

proof fn lemma_below_none(tiles: Seq<TileView>, n: nat)
    requires
        tiles.len() == 0,
    ensures
        below_lod(tiles, n) == 0,
    decreases n,
{
    if n > 0 {
        lemma_below_none(tiles, (n - 1) as nat);
    }
}

proof fn lemma_lods_total(tiles: Seq<TileView>, files: Seq<(Seq<char>, u64)>, n: int)
    requires
        0 <= n <= tiles::lod_statuses(tiles, files).len(),
        tiles.len() <= usize::MAX,
    ensures
        lods_total(tiles::lod_statuses(tiles, files).take(n)) == below_lod(tiles, n as nat),
    decreases n,
{
    let statuses = tiles::lod_statuses(tiles, files);
    if n > 0 {
        lemma_lods_total(tiles, files, n - 1);
        tiles::lemma_lod_ready(tiles, (n - 1) as nat, files);
        assert(statuses.take(n).drop_last() =~= statuses.take(n - 1));
    }
}

/// Each tile is counted at one level.
pub proof fn law_levels_count_every_tile(tiles: Seq<TileView>, files: Seq<(Seq<char>, u64)>)
    requires
        tiles.len() <= usize::MAX,
    ensures
        lods_total(tiles::lod_statuses(tiles, files)) == tiles.len(),
{
    let statuses = tiles::lod_statuses(tiles, files);
    if tiles.len() > 0 {
        lemma_lods_total(tiles, files, statuses.len() as int);
        assert(statuses.take(statuses.len() as int) =~= statuses);
        lemma_below_top(tiles, statuses.len());
    }
}

/// What making the cache would come to.
pub fn plan_world_cache_compute(
    config: &MuralConfig,
    environment: &TextMap<String>,
    disk: &Disk,
    cache: &CacheFiles,
    dry_run: bool,
) -> (result: Result<WorldCachePlan, String>)
    ensures
        match (
            result,
            world_status(
                config@,
                textmap::text_entries(*environment),
                disk@,
                cache@,
                DEFAULT_WORLD_CELL_THUMBNAIL_EDGE,
            ),
        ) {
            (Ok(plan), Ok(status)) => plan@ == plan_for(status, dry_run),
            (Err(message), Err(expected)) => message@ == expected,
            _ => false,
        },
{
    let ghost wanted = world_status(
        config@,
        textmap::text_entries(*environment),
        disk@,
        cache@,
        DEFAULT_WORLD_CELL_THUMBNAIL_EDGE,
    );
    let status = world_cache_status_with_edge(
        config,
        environment,
        disk,
        cache,
        DEFAULT_WORLD_CELL_THUMBNAIL_EDGE,
    )?;
    let ghost (tiles, files) = choose|tiles: Seq<TileView>, files: Seq<(Seq<char>, u64)>|
        {
            &&& #[trigger] tiles::lod_statuses(tiles, files) == status.world_lods@
            &&& tiles.len() == status.world_tile_ready + status.world_tile_missing
        };
    proof {
        lemma_status_tiles(
            config@,
            textmap::text_entries(*environment),
            disk@,
            cache@,
            DEFAULT_WORLD_CELL_THUMBNAIL_EDGE,
        );
        law_levels_count_every_tile(tiles, files);
    }
    let mut lods: Vec<WorldLodPlan> = Vec::new();
    let mut i: usize = 0;
    while i < status.world_lods.len()
        invariant
            i <= status.world_lods@.len(),
            lods@.len() == i,
            status.world_lods@ == tiles::lod_statuses(tiles, files),
            tiles.len() <= usize::MAX,
            forall|k: int| 0 <= k < i ==> #[trigger] lods@[k] == lod_plan(status.world_lods@[k]),
        decreases status.world_lods@.len() - i,
    {
        let lod = status.world_lods[i];
        proof {
            tiles::lemma_lod_ready(tiles, i as nat, files);
        }
        lods.push(
            WorldLodPlan {
                lod: lod.lod,
                tile_count: lod.tile_ready + lod.tile_missing,
                tile_ready: lod.tile_ready,
                tile_missing: lod.tile_missing,
            },
        );
        i = i + 1;
    }
    let plan = WorldCachePlan {
        thumbnail_count: status.library_count,
        thumbnail_ready: status.cell_ready,
        thumbnail_missing: status.cell_missing,
        world_tile_count: status.world_tile_ready + status.world_tile_missing,
        world_tile_ready: status.world_tile_ready,
        world_tile_missing: status.world_tile_missing,
        world_lods: lods,
        status,
        dry_run,
    };
    assert(plan@.world_lods =~= plan_for(status@, dry_run).world_lods);
    Ok(plan)
}

proof fn lemma_status_tiles(
    config: ConfigView,
    environment: Seq<(Seq<char>, Seq<char>)>,
    disk: DiskView,
    cache: CacheFilesView,
    edge: u32,
)
    ensures
        world_status(config, environment, disk, cache, edge) matches Ok(status) ==> exists|
            tiles: Seq<TileView>,
            files: Seq<(Seq<char>, u64)>,
        |
            {
                &&& #[trigger] tiles::lod_statuses(tiles, files) == status.world_lods
                &&& tiles.len() == status.world_tile_ready + status.world_tile_missing
            },
{
    if let Ok(status) = world_status(config, environment, disk, cache, edge) {
        let (wall_dir, state_dir, quarantine_dir) = world_places(config, environment)->Ok_0;
        let library = control::scanned(wall_dir, quarantine_dir, disk)->Ok_0;
        let cells = tiles::cells_of(
            library,
            world_dir(state_dir),
            edge,
            cache.found,
            cache.error,
        )->Ok_0;
        let tiles = tiles::pyramid_from(
            world_dir(state_dir),
            tiles_for(tiles::snapshot_of(library), edge, DEFAULT_WORLD_TILE_CELLS),
            0,
            keys_of(cells),
        );
        tiles::lemma_stored_count(tile_images(tiles), cache.images);
        assert(tiles::lod_statuses(tiles, cache.images) == status.world_lods);
    }
}

// ---------------------------------------------------------------------------
// The index

/// Where the paths of an indexed library are kept.
pub open spec fn snapshot_place(cache_dir: Seq<char>, fingerprint: u64) -> Seq<char> {
    paths::joined(cache_dir, "library-"@ + text::hex_text(fingerprint as nat, 16) + ".paths"@)
}

/// Where the paths of an indexed library are kept.
pub fn library_snapshot_path(cache_dir: &str, fingerprint: u64) -> (path: String)
    ensures
        path@ == snapshot_place(cache_dir@, fingerprint),
{
    join(cache_dir, concat3("library-", hex_u64(fingerprint, 16).as_str(), ".paths").as_str())
}

/// What an index of the cache consists of.
#[derive(Clone, Debug, PartialEq, Eq)]
pub struct WorldIndex {
    /// The directory of the cache.
    pub cache_dir: String,
    /// Where the paths of the library go.
    pub snapshot_path: String,
    /// The paths of the library.
    pub snapshot_text: String,
    /// Where the manifest goes.
    pub manifest_path: String,
    /// The manifest.
    pub manifest_text: String,
}

/// What an index of the cache consists of, as a mathematical value.
pub struct IndexView {
    pub cache_dir: Seq<char>,
    pub snapshot_path: Seq<char>,
    pub snapshot_text: Seq<char>,
    pub manifest_path: Seq<char>,
    pub manifest_text: Seq<char>,
}

impl View for WorldIndex {
    type V = IndexView;

    open spec fn view(&self) -> IndexView {
        IndexView {
            cache_dir: self.cache_dir@,
            snapshot_path: self.snapshot_path@,
            snapshot_text: self.snapshot_text@,
            manifest_path: self.manifest_path@,
            manifest_text: self.manifest_text@,
        }
    }
}

/// The index of a library.
pub open spec fn index_of(state_dir: Seq<char>, library: Seq<Seq<char>>) -> IndexView {
    let snapshot = tiles::snapshot_of(library);
    let cache_dir = world_dir(state_dir);
    IndexView {
        cache_dir,
        snapshot_path: snapshot_place(cache_dir, snapshot.fingerprint),
        snapshot_text: textlist::lines_text(library),
        manifest_path: paths::joined(cache_dir, "manifest"@),
        manifest_text: textlist::lines_text(manifest_lines(manifest_for(snapshot))),
    }
}

/// What to write for the library on disk to be indexed.
pub fn write_world_cache_index(config: &MuralConfig, environment: &TextMap<String>, disk: &Disk)
    -> (result: Result<WorldIndex, String>)
    ensures
        match (result, world_places(config@, textmap::text_entries(*environment))) {
            (Err(message), Err(expected)) => message@ == expected,
            (Ok(_), Err(_)) => false,
            (_, Ok((wall_dir, state_dir, quarantine_dir))) => match (
                result,
                control::scanned(wall_dir, quarantine_dir, disk@),
            ) {
                (Ok(index), Ok(library)) => index@ == index_of(state_dir, library),
                (Err(message), Err(expected)) => message@ == expected,
                _ => false,
            },
        },
{
    let found = configured(config, environment)?;
    let library = scan_top_level_library(&found, disk)?;
    let snapshot = world_cache_snapshot_for_library(library);
    let cache_dir = join(found.state_dir.as_str(), "cache/world-v1");
    let manifest = manifest_of(&snapshot);
    Ok(
        WorldIndex {
            snapshot_path: library_snapshot_path(cache_dir.as_str(), snapshot.fingerprint),
            snapshot_text: text_of_lines(&snapshot.library),
            manifest_path: join(cache_dir.as_str(), "manifest"),
            manifest_text: manifest_text(&manifest),
            cache_dir,
        },
    )
}

/// The snapshot that a file holds, if there is such a file.
pub open spec fn snapshot_in(stored: StoredTextView, path: Seq<char>) -> Result<
    Option<SnapshotView>,
    Seq<char>,
> {
    match stored {
        StoredTextView::Missing => Ok(None),
        StoredTextView::Unreadable(error) => Err(
            "failed to read world cache snapshot "@ + path + ": "@ + error,
        ),
        StoredTextView::Content(text) => Ok(Some(tiles::snapshot_of(text::lines_of(text)))),
    }
}

/// Whether a result stands for an expected snapshot, for none, or is an error with the
/// expected message.
pub open spec fn is_snapshot(
    result: Result<Option<WorldCacheSnapshot>, String>,
    expected: Result<Option<SnapshotView>, Seq<char>>,
) -> bool {
    match (result, expected) {
        (Ok(Some(snapshot)), Ok(Some(wanted))) => snapshot@ == wanted,
        (Ok(None), Ok(None)) => true,
        (Err(message), Err(wanted)) => message@ == wanted,
        _ => false,
    }
}

/// The snapshot that a file holds, if there is such a file.
pub fn read_library_snapshot(stored: &StoredText, path: &str) -> (result: Result<
    Option<WorldCacheSnapshot>,
    String,
>)
    ensures
        is_snapshot(result, snapshot_in(stored@, path@)),
{
    match stored {
        StoredText::Missing => Ok(None),
        StoredText::Unreadable(error) => Err(
            concat4("failed to read world cache snapshot ", path, ": ", error.as_str()),
        ),
        StoredText::Content(text) => Ok(Some(world_cache_snapshot_for_library(lines(text.as_str())))),
    }
}

/// The snapshot that a manifest speaks of, if the file for it holds that one.
pub open spec fn snapshot_by_manifest(
    cache_dir: Seq<char>,
    manifest: ManifestView,
    stored: StoredTextView,
) -> Result<Option<SnapshotView>, Seq<char>> {
    match snapshot_in(stored, snapshot_place(cache_dir, manifest.fingerprint)) {
        Err(message) => Err(message),
        Ok(None) => Ok(None),
        Ok(Some(snapshot)) => if snapshot.library.len() != manifest.library_count
            || snapshot.columns != manifest.columns || snapshot.rows != manifest.rows
            || snapshot.fingerprint != manifest.fingerprint {
            Err(
                "world cache snapshot "@ + text::hex_text(manifest.fingerprint as nat, 16)
                    + " does not match the indexed manifest"@,
            )
        } else {
            Ok(Some(snapshot))
        },
    }
}

/// The snapshot that a manifest speaks of, if the file for it holds that one.
pub fn read_world_cache_snapshot_by_manifest(
    cache_dir: &str,
    manifest: &WorldManifest,
    stored: &StoredText,
) -> (result: Result<Option<WorldCacheSnapshot>, String>)
    ensures
        is_snapshot(result, snapshot_by_manifest(cache_dir@, manifest@, stored@)),
{
    let path = library_snapshot_path(cache_dir, manifest.fingerprint);
    match read_library_snapshot(stored, path.as_str())? {
        None => Ok(None),
        Some(snapshot) => {
            if snapshot.library_count() != manifest.library_count || snapshot.columns
                != manifest.columns || snapshot.rows != manifest.rows || snapshot.fingerprint
                != manifest.fingerprint {
                Err(
                    concat3(
                        "world cache snapshot ",
                        hex_u64(manifest.fingerprint, 16).as_str(),
                        " does not match the indexed manifest",
                    ),
                )
            } else {
                Ok(Some(snapshot))
            }
        },
    }
}

/// The snapshot that was indexed last, if there is one.
pub open spec fn indexed_snapshot(
    config: ConfigView,
    environment: Seq<(Seq<char>, Seq<char>)>,
    manifest: StoredTextView,
    stored: StoredTextView,
) -> Result<Option<SnapshotView>, Seq<char>> {
    match world_places(config, environment) {
        Err(message) => Err(message),
        Ok((_, state_dir, _)) => {
            let cache_dir = world_dir(state_dir);
            match manifest {
                StoredTextView::Missing => Ok(None),
                StoredTextView::Unreadable(error) => Err(
                    "failed to read world cache manifest "@ + paths::joined(cache_dir, "manifest"@) + ": "@
                        + error,
                ),
                StoredTextView::Content(text) => match manifest_in(text) {
                    None => Ok(None),
                    Some(manifest) => snapshot_by_manifest(cache_dir, manifest, stored),
                },
            }
        },
    }
}

/// The snapshot that was indexed last, if there is one. What is stored of it lies where
/// the fingerprint in the manifest says.
pub fn read_indexed_world_cache_snapshot(
    config: &MuralConfig,
    environment: &TextMap<String>,
    manifest: &StoredText,
    stored: &StoredText,
) -> (result: Result<Option<WorldCacheSnapshot>, String>)
    ensures
        is_snapshot(
            result,
            indexed_snapshot(config@, textmap::text_entries(*environment), manifest@, stored@),
        ),
{
    let found = configured(config, environment)?;
    let cache_dir = join(found.state_dir.as_str(), "cache/world-v1");
    match manifest {
        StoredText::Missing => Ok(None),
        StoredText::Unreadable(error) => Err(
            concat4(
                "failed to read world cache manifest ",
                join(cache_dir.as_str(), "manifest").as_str(),
                ": ",
                error.as_str(),
            ),
        ),
        StoredText::Content(text) => match parse_manifest(text.as_str()) {
            None => Ok(None),
            Some(manifest) => read_world_cache_snapshot_by_manifest(
                cache_dir.as_str(),
                &manifest,
                stored,
            ),
        },
    }
}

/// The snapshot with a fingerprint: the one that was stored under it, or that of the
/// library on disk where that has the fingerprint.
pub open spec fn snapshot_by_fingerprint(
    config: ConfigView,
    environment: Seq<(Seq<char>, Seq<char>)>,
    fingerprint: u64,
    stored: StoredTextView,
    disk: DiskView,
) -> Result<Option<SnapshotView>, Seq<char>> {
    match world_places(config, environment) {
        Err(message) => Err(message),
        Ok((wall_dir, state_dir, quarantine_dir)) => match snapshot_in(
            stored,
            snapshot_place(world_dir(state_dir), fingerprint),
        ) {
            Err(message) => Err(message),
            Ok(Some(snapshot)) => if snapshot.fingerprint == fingerprint {
                Ok(Some(snapshot))
            } else {
                Err(
                    "world cache snapshot "@ + text::hex_text(fingerprint as nat, 16)
                        + " has mismatched fingerprint "@ + text::hex_text(
                        snapshot.fingerprint as nat,
                        16,
                    ),
                )
            },
            Ok(None) => match control::scanned(wall_dir, quarantine_dir, disk) {
                Err(message) => Err(message),
                Ok(library) => if tiles::snapshot_of(library).fingerprint == fingerprint {
                    Ok(Some(tiles::snapshot_of(library)))
                } else {
                    Ok(None)
                },
            },
        },
    }
}

/// The snapshot with a fingerprint, if there is one.
pub fn read_world_cache_snapshot_by_fingerprint(
    config: &MuralConfig,
    environment: &TextMap<String>,
    fingerprint: u64,
    stored: &StoredText,
    disk: &Disk,
) -> (result: Result<Option<WorldCacheSnapshot>, String>)
    ensures
        is_snapshot(
            result,
            snapshot_by_fingerprint(
                config@,
                textmap::text_entries(*environment),
                fingerprint,
                stored@,
                disk@,
            ),
        ),
{
    let found = configured(config, environment)?;
    let cache_dir = join(found.state_dir.as_str(), "cache/world-v1");
    let path = library_snapshot_path(cache_dir.as_str(), fingerprint);
    if let Some(snapshot) = read_library_snapshot(stored, path.as_str())? {
        if snapshot.fingerprint == fingerprint {
            return Ok(Some(snapshot));
        }
        return Err(
            concat4(
                "world cache snapshot ",
                hex_u64(fingerprint, 16).as_str(),
                " has mismatched fingerprint ",
                hex_u64(snapshot.fingerprint, 16).as_str(),
            ),
        );
    }
    let library = scan_top_level_library(&found, disk)?;
    let current = world_cache_snapshot_for_library(library);
    if current.fingerprint == fingerprint {
        Ok(Some(current))
    } else {
        Ok(None)
    }
}

// ---------------------------------------------------------------------------
// Entries of the cache

/// Whether a result stands for the expected thumbnails, or is an error with the expected
/// message.
pub open spec fn is_cells(
    result: Result<Vec<WorldCellCacheEntry>, String>,
    expected: Result<Seq<CellView>, Seq<char>>,
) -> bool {
    match (result, expected) {
        (Ok(cells), Ok(wanted)) => tiles::cell_views(cells@) == wanted,
        (Err(message), Err(wanted)) => message@ == wanted,
        _ => false,
    }
}

/// Whether a result stands for the expected tiles, or is an error with the expected
/// message.
pub open spec fn is_tiles(
    result: Result<Vec<WorldTileCacheEntry>, String>,
    expected: Result<Seq<TileView>, Seq<char>>,
) -> bool {
    match (result, expected) {
        (Ok(tiles), Ok(wanted)) => tiles::tile_views(tiles@) == wanted,
        (Err(message), Err(wanted)) => message@ == wanted,
        _ => false,
    }
}

/// Where the thumbnails of the library on disk are cached.
pub open spec fn world_cells(
    config: ConfigView,
    environment: Seq<(Seq<char>, Seq<char>)>,
    disk: DiskView,
    cache: CacheFilesView,
    edge: u32,
) -> Result<Seq<CellView>, Seq<char>> {
    match world_places(config, environment) {
        Err(message) => Err(message),
        Ok((wall_dir, state_dir, quarantine_dir)) => match control::scanned(wall_dir, quarantine_dir, disk) {
            Err(message) => Err(message),
            Ok(library) => tiles::cells_of(
                library,
                world_dir(state_dir),
                edge,
                cache.found,
                cache.error,
            ),
        },
    }
}

/// Where the thumbnails of the library on disk are cached.
pub fn world_cell_cache_entries(
    config: &MuralConfig,
    environment: &TextMap<String>,
    disk: &Disk,
    cache: &CacheFiles,
    thumbnail_edge: u32,
) -> (result: Result<Vec<WorldCellCacheEntry>, String>)
    ensures
        is_cells(
            result,
            world_cells(
                config@,
                textmap::text_entries(*environment),
                disk@,
                cache@,
                thumbnail_edge,
            ),
        ),
{
    let found = configured(config, environment)?;
    let library = scan_top_level_library(&found, disk)?;
    let cache_dir = join(found.state_dir.as_str(), "cache/world-v1");
    cell_cache_entries(&library, cache_dir.as_str(), thumbnail_edge, &cache.stats)
}

/// Where the thumbnails of a snapshot are cached.
pub open spec fn snapshot_cells(
    config: ConfigView,
    environment: Seq<(Seq<char>, Seq<char>)>,
    snapshot: SnapshotView,
    cache: CacheFilesView,
    edge: u32,
) -> Result<Seq<CellView>, Seq<char>> {
    match world_places(config, environment) {
        Err(message) => Err(message),
        Ok((_, state_dir, _)) => tiles::cells_of(
            snapshot.library,
            world_dir(state_dir),
            edge,
            cache.found,
            cache.error,
        ),
    }
}

/// Where the thumbnails of a snapshot are cached.
pub fn world_cell_cache_entries_for_snapshot(
    config: &MuralConfig,
    environment: &TextMap<String>,
    snapshot: &WorldCacheSnapshot,
    cache: &CacheFiles,
    thumbnail_edge: u32,
) -> (result: Result<Vec<WorldCellCacheEntry>, String>)
    ensures
        is_cells(
            result,
            snapshot_cells(
                config@,
                textmap::text_entries(*environment),
                snapshot@,
                cache@,
                thumbnail_edge,
            ),
        ),
{
    let found = configured(config, environment)?;
    let cache_dir = join(found.state_dir.as_str(), "cache/world-v1");
    cell_cache_entries(&snapshot.library, cache_dir.as_str(), thumbnail_edge, &cache.stats)
}

/// What the tiles of the library on disk are named after, and the keys of its thumbnails.
pub open spec fn world_tile_base(
    config: ConfigView,
    environment: Seq<(Seq<char>, Seq<char>)>,
    disk: DiskView,
    cache: CacheFilesView,
    edge: u32,
    tile_cells: usize,
) -> Result<(Seq<char>, TileCacheSpec, Seq<Seq<char>>), Seq<char>> {
    match world_status(config, environment, disk, cache, edge) {
        Err(message) => Err(message),
        Ok(status) => match world_cells(config, environment, disk, cache, edge) {
            Err(message) => Err(message),
            Ok(cells) => Ok(
                (
                    status.cache_dir,
                    TileCacheSpec {
                        thumbnail_edge: edge,
                        tile_cells,
                        columns: status.columns,
                        rows: status.rows,
                        fingerprint: status.fingerprint,
                    },
                    keys_of(cells),
                ),
            ),
        },
    }
}

fn tile_base(
    config: &MuralConfig,
    environment: &TextMap<String>,
    disk: &Disk,
    cache: &CacheFiles,
    thumbnail_edge: u32,
    tile_cells: usize,
) -> (result: Result<(String, TileCacheSpec, Vec<WorldCellCacheEntry>), String>)
    ensures
        match (
            result,
            world_tile_base(
                config@,
                textmap::text_entries(*environment),
                disk@,
                cache@,
                thumbnail_edge,
                tile_cells,
            ),
        ) {
            (Ok(base), Ok(wanted)) => (base.0@, base.1, tiles::cell_keys(base.2@)) == wanted,
            (Err(message), Err(wanted)) => message@ == wanted,
            _ => false,
        },
{
    let status = world_cache_status_with_edge(config, environment, disk, cache, thumbnail_edge)?;
    let cells = world_cell_cache_entries(config, environment, disk, cache, thumbnail_edge)?;
    assert(tiles::cell_keys(cells@) =~= keys_of(tiles::cell_views(cells@)));
    let spec = TileCacheSpec {
        thumbnail_edge,
        tile_cells,
        columns: status.columns,
        rows: status.rows,
        fingerprint: status.fingerprint,
    };
    Ok((status.cache_dir, spec, cells))
}

/// The tiles of the finest level for the library on disk.
pub fn world_tile_cache_entries(
    config: &MuralConfig,
    environment: &TextMap<String>,
    disk: &Disk,
    cache: &CacheFiles,
    thumbnail_edge: u32,
    tile_cells: usize,
) -> (result: Result<Vec<WorldTileCacheEntry>, String>)
    ensures
        is_tiles(
            result,
            match world_tile_base(
                config@,
                textmap::text_entries(*environment),
                disk@,
                cache@,
                thumbnail_edge,
                tile_cells,
            ) {
                Err(message) => Err(message),
                Ok((dir, spec, keys)) => Ok(tiles::tiles_of_lod(dir, spec, 0, keys)),
            },
        ),
{
    let (dir, spec, cells) = tile_base(
        config,
        environment,
        disk,
        cache,
        thumbnail_edge,
        tile_cells,
    )?;
    Ok(tile_cache_entries(dir.as_str(), spec, &cells))
}

/// The tiles of every level for the library on disk.
pub fn world_tile_pyramid_cache_entries(
    config: &MuralConfig,
    environment: &TextMap<String>,
    disk: &Disk,
    cache: &CacheFiles,
    thumbnail_edge: u32,
    tile_cells: usize,
) -> (result: Result<Vec<WorldTileCacheEntry>, String>)
    ensures
        is_tiles(
            result,
            match world_tile_base(
                config@,
                textmap::text_entries(*environment),
                disk@,
                cache@,
                thumbnail_edge,
                tile_cells,
            ) {
                Err(message) => Err(message),
                Ok((dir, spec, keys)) => Ok(tiles::pyramid_from(dir, spec, 0, keys)),
            },
        ),
{
    let (dir, spec, cells) = tile_base(
        config,
        environment,
        disk,
        cache,
        thumbnail_edge,
        tile_cells,
    )?;
    Ok(tile_pyramid_cache_entries(dir.as_str(), spec, &cells))
}

/// The tiles of every level for a snapshot.
pub open spec fn snapshot_tiles(
    config: ConfigView,
    environment: Seq<(Seq<char>, Seq<char>)>,
    snapshot: SnapshotView,
    cache: CacheFilesView,
    edge: u32,
    tile_cells: usize,
) -> Result<Seq<TileView>, Seq<char>> {
    match snapshot_cells(config, environment, snapshot, cache, edge) {
        Err(message) => Err(message),
        Ok(cells) => Ok(
            tiles::pyramid_from(
                world_dir(world_places(config, environment)->Ok_0.1),
                tiles_for(snapshot, edge, tile_cells),
                0,
                keys_of(cells),
            ),
        ),
    }
}

/// The tiles of every level for a snapshot.
pub fn world_tile_pyramid_cache_entries_for_snapshot(
    config: &MuralConfig,
    environment: &TextMap<String>,
    snapshot: &WorldCacheSnapshot,
    cache: &CacheFiles,
    thumbnail_edge: u32,
    tile_cells: usize,
) -> (result: Result<Vec<WorldTileCacheEntry>, String>)
    ensures
        is_tiles(
            result,
            snapshot_tiles(
                config@,
                textmap::text_entries(*environment),
                snapshot@,
                cache@,
                thumbnail_edge,
                tile_cells,
            ),
        ),
{
    let found = configured(config, environment)?;
    let cache_dir = join(found.state_dir.as_str(), "cache/world-v1");
    let cells = world_cell_cache_entries_for_snapshot(
        config,
        environment,
        snapshot,
        cache,
        thumbnail_edge,
    )?;
    assert(tiles::cell_keys(cells@) =~= keys_of(tiles::cell_views(cells@)));
    let spec = TileCacheSpec {
        thumbnail_edge,
        tile_cells,
        columns: snapshot.columns,
        rows: snapshot.rows,
        fingerprint: snapshot.fingerprint,
    };
    Ok(tile_pyramid_cache_entries(cache_dir.as_str(), spec, &cells))
}

/// The tiles of every level for the snapshot with a fingerprint.
pub fn world_tile_pyramid_cache_entries_for_fingerprint(
    config: &MuralConfig,
    environment: &TextMap<String>,
    fingerprint: u64,
    stored: &StoredText,
    disk: &Disk,
    cache: &CacheFiles,
    thumbnail_edge: u32,
    tile_cells: usize,
) -> (result: Result<Vec<WorldTileCacheEntry>, String>)
    ensures
        is_tiles(
            result,
            match snapshot_by_fingerprint(
                config@,
                textmap::text_entries(*environment),
                fingerprint,
                stored@,
                disk@,
            ) {
                Err(message) => Err(message),
                Ok(None) => Err(
                    "world cache snapshot "@ + text::hex_text(fingerprint as nat, 16)
                        + " is missing; run `muralctl world cache index`"@,
                ),
                Ok(Some(snapshot)) => snapshot_tiles(
                    config@,
                    textmap::text_entries(*environment),
                    snapshot,
                    cache@,
                    thumbnail_edge,
                    tile_cells,
                ),
            },
        ),
{
    match read_world_cache_snapshot_by_fingerprint(
        config,
        environment,
        fingerprint,
        stored,
        disk,
    )? {
        None => Err(
            concat3(
                "world cache snapshot ",
                hex_u64(fingerprint, 16).as_str(),
                " is missing; run `muralctl world cache index`",
            ),
        ),
        Some(snapshot) => world_tile_pyramid_cache_entries_for_snapshot(
            config,
            environment,
            &snapshot,
            cache,
            thumbnail_edge,
            tile_cells,
        ),
    }
}

// ---------------------------------------------------------------------------
// Tiles of any age

/// Whether a file below the directory of the cache is the image of a tile: one that lies
/// in, or below, a directory for tiles.
pub open spec fn is_tile_image(cache_dir: Seq<char>, file: Seq<char>) -> bool {
    let dir = paths::parts_of(cache_dir);
    let parts = paths::parts_of(file);
    &&& parts.len() >= dir.len() + 2
    &&& parts.take(dir.len() as int) == dir
    &&& text::starts(parts[dir.len() as int], "tiles-"@)
    &&& paths::stem_and_extension(parts.last()).1 == Some("png"@)
}

fn is_world_tile(cache_dir: &str, file: &str) -> (result: bool)
    ensures
        result == is_tile_image(cache_dir@, file@),
{
    let dir = path_parts(cache_dir);
    let parts = path_parts(file);
    let ghost dir_parts = paths::parts_of(cache_dir@);
    let ghost file_parts = paths::parts_of(file@);
    assert(dir_parts.len() == dir@.len());
    assert(file_parts.len() == parts@.len());
    if parts.len() <= dir.len() || parts.len() - dir.len() < 2 {
        return false;
    }
    let mut i: usize = 0;
    while i < dir.len()
        invariant
            i <= dir@.len(),
            dir@.len() + 2 <= parts@.len(),
            dir_parts == text::texts(dir@),
            file_parts == text::texts(parts@),
            dir_parts == paths::parts_of(cache_dir@),
            file_parts == paths::parts_of(file@),
            forall|k: int| 0 <= k < i ==> file_parts[k] == dir_parts[k],
        decreases dir@.len() - i,
    {
        if !text_eq(dir[i].as_str(), parts[i].as_str()) {
            proof {
                assert(file_parts.take(dir_parts.len() as int)[i as int] != dir_parts[i as int]);
            }
            return false;
        }
        i = i + 1;
    }
    assert(file_parts.take(dir_parts.len() as int) =~= dir_parts);
    if !starts_with(parts[dir.len()].as_str(), "tiles-") {
        return false;
    }
    match split_extension(parts[parts.len() - 1].as_str()).1 {
        Some(extension) => text_eq(extension.as_str(), "png"),
        None => false,
    }
}

/// Whether any tile is cached: of the library on disk, or an older one among the files
/// below the directory of the cache.
pub fn world_cache_has_existing_tile_cache(status: &WorldCacheStatus, files: &Vec<String>)
    -> (result: bool)
    ensures
        result == (status.world_tile_ready > 0 || exists|i: int|
            0 <= i < files@.len() && #[trigger] is_tile_image(status.cache_dir@, files@[i]@)),
{
    if status.world_tile_ready > 0 {
        return true;
    }
    let mut i: usize = 0;
    while i < files.len()
        invariant
            i <= files@.len(),
            forall|k: int|
                0 <= k < i ==> !#[trigger] is_tile_image(status.cache_dir@, files@[k]@),
        decreases files@.len() - i,
    {
        if is_world_tile(status.cache_dir.as_str(), files[i].as_str()) {
            return true;
        }
        i = i + 1;
    }
    false
}

} // verus!
