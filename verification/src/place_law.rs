//! What is proved of places: those of wallpapers in the world, those on the way from one to
//! another, and those in the history of a layout.

use crate::config::ConfigView;
use crate::control::DiskView;
use crate::layout::{LayoutView, StoredView};
use crate::tiles::{CellView, FileStat, SnapshotView, TileCacheSpec, TileView};
use crate::world::{VisibleWorldRange, WorldLayout, WorldTile};
use crate::world_cache::{CacheFilesView, ManifestState, ManifestView, StoredTextView};
use crate::control;
use crate::layout;
use crate::paths;
use crate::text;
use crate::textmap;
use crate::tiles;
use crate::work_law;
use crate::world;
use crate::world_cache;
use vstd::prelude::*;

verus! {

// ---------------------------------------------------------------------------
// The grid

/// Wallpapers lie row by row, from left to right; a row is begun only where the rows before it
/// are full.
pub proof fn law_wallpapers_lie_row_by_row(entry_count: usize, columns: usize, index: usize)
    requires
        columns > 0,
    ensures
        match world::cell_at(world::layout_for(entry_count, columns), index) {
            Some(cell) => {
                &&& index < entry_count
                &&& cell.index == index
                &&& cell.row * columns + cell.column == index
                &&& cell.column < columns
            },
            None => index >= entry_count,
        },
        ({
            let rows = world::layout_for(entry_count, columns).rows;
            &&& rows * columns >= entry_count
            &&& entry_count > 0 ==> (rows - 1) * columns < entry_count
            &&& entry_count == 0 ==> rows == 0
        }),
{
    tiles::lemma_ceil_div(entry_count as nat, columns as nat);
    vstd::arithmetic::div_mod::lemma_fundamental_div_mod(index as int, columns as int);
    let q = index as int / columns as int;
    assert(columns * q == q * columns) by (nonlinear_arith);
}

/// One more column in view shows one more wallpaper where there is one, and one more row in view
/// those of that row.
pub proof fn law_view_counts_its_wallpapers(
    layout: WorldLayout,
    start_column: int,
    end_column: int,
    from: int,
    to: int,
)
    requires
        0 <= start_column <= end_column,
        from <= to,
    ensures
        world::row_cells(layout, to, start_column, start_column) == 0,
        world::row_cells(layout, to, start_column, end_column + 1) == world::row_cells(
            layout,
            to,
            start_column,
            end_column,
        ) + (if to * layout.columns + end_column < layout.entry_count {
            1int
        } else {
            0int
        }),
        world::cells_between(layout, start_column, end_column, from, from) == 0,
        world::cells_between(layout, start_column, end_column, from, to + 1)
            == world::cells_between(layout, start_column, end_column, from, to) + world::row_cells(
            layout,
            to,
            start_column,
            end_column,
        ),
{
}

/// The tiles of a view are those that a cell of the view lies in.
#[verifier::spinoff_prover]
pub proof fn law_tiles_of_a_view_meet_it(
    range: VisibleWorldRange,
    tile_cells: usize,
    tile: WorldTile,
)
    requires
        tile_cells > 0,
        range.start_column < range.end_column,
        range.start_row < range.end_row,
    ensures
        world::tiles_in(range, tile_cells).contains(tile) <==> {
            &&& tile.column * tile_cells < range.end_column
            &&& range.start_column < (tile.column + 1) * tile_cells
            &&& tile.row * tile_cells < range.end_row
            &&& range.start_row < (tile.row + 1) * tile_cells
        },
{
    let cells = tile_cells as nat;
    let list = world::tiles_in(range, tile_cells);
    let first_column = range.start_column as nat / cells;
    let first_row = range.start_row as nat / cells;
    let end_column = tiles::ceil_div(range.end_column as nat, cells);
    let end_row = tiles::ceil_div(range.end_row as nat, cells);
    let width = end_column - first_column;
    let height = end_row - first_row;
    lemma_meets(range.start_column as nat, range.end_column as nat, cells, tile.column as nat);
    lemma_meets(range.start_row as nat, range.end_row as nat, cells, tile.row as nat);
    tiles::lemma_ceil_div(range.end_column as nat, cells);
    tiles::lemma_ceil_div(range.end_row as nat, cells);
    if list.contains(tile) {
        let i = choose|i: int| 0 <= i < list.len() && list[i] == tile;
        assert(list[i] == world::block_tile(first_column as int, first_row as int, width, i));
        vstd::arithmetic::div_mod::lemma_fundamental_div_mod(i, width);
        vstd::arithmetic::div_mod::lemma_mod_bound(i, width);
        let q = i / width;
        assert(0 <= q < height) by (nonlinear_arith)
            requires
                0 <= i < height * width,
                width > 0,
                q == i / width,
        ;
    }
    if first_column <= tile.column < end_column && first_row <= tile.row < end_row {
        let r = tile.row - first_row;
        let c = tile.column - first_column;
        let i = r * width + c;
        assert(0 <= i < height * width) by (nonlinear_arith)
            requires
                0 <= r < height,
                0 <= c < width,
                i == r * width + c,
        ;
        vstd::arithmetic::div_mod::lemma_fundamental_div_mod_converse(i, width, r, c);
        assert(list[i] == world::block_tile(first_column as int, first_row as int, width, i));
        assert(list[i] == tile);
    }
}

proof fn lemma_meets(start: nat, end: nat, cells: nat, tile: nat)
    requires
        start < end,
        cells > 0,
    ensures
        start / cells <= tile < tiles::ceil_div(end, cells) <==> tile * cells < end && start < (tile
            + 1) * cells,
        start / cells < tiles::ceil_div(end, cells),
{
    tiles::lemma_ceil_div(end, cells);
    let q = start / cells;
    let last = tiles::ceil_div(end, cells);
    vstd::arithmetic::div_mod::lemma_fundamental_div_mod(start as int, cells as int);
    vstd::arithmetic::div_mod::lemma_mod_bound(start as int, cells as int);
    assert(cells * q == q * cells) by (nonlinear_arith);
    assert((tile + 1) * cells == tile * cells + cells) by (nonlinear_arith);
    if q <= tile {
        assert(q * cells <= tile * cells) by (nonlinear_arith)
            requires
                q <= tile,
        ;
    } else {
        assert(tile * cells + cells <= q * cells) by (nonlinear_arith)
            requires
                tile + 1 <= q,
        ;
    }
    if tile < last {
        assert(tile * cells <= (last - 1) * cells) by (nonlinear_arith)
            requires
                tile <= last - 1,
        ;
    } else {
        assert(tile * cells >= last * cells) by (nonlinear_arith)
            requires
                tile >= last,
        ;
    }
    assert(q < last) by (nonlinear_arith)
        requires
            q * cells <= start,
            start < end,
            end <= last * cells,
            cells > 0,
    ;
}

/// What is in view on a way are the cells of the world that lie between its two ends, or no
/// further from there than the margin.
pub proof fn law_ways_show_their_margin(
    entry_count: usize,
    columns: usize,
    start: usize,
    target: usize,
    margin: usize,
    column: usize,
    row: usize,
)
    requires
        columns > 0,
        start < entry_count,
        target < entry_count,
    ensures
        ({
            let layout = world::layout_for(entry_count, columns);
            let (a, b) = ((start % columns) as int, (target % columns) as int);
            let (c, d) = ((start / columns) as int, (target / columns) as int);
            world::route_cells(layout, start, target, margin) matches Some(edges) && {
                &&& edges.start_column <= column < edges.end_column <==> {
                    &&& column < columns
                    &&& column + margin >= a || column + margin >= b
                    &&& column <= a + margin || column <= b + margin
                }
                &&& edges.start_row <= row < edges.end_row <==> {
                    &&& row < layout.rows
                    &&& row + margin >= c || row + margin >= d
                    &&& row <= c + margin || row <= d + margin
                }
            }
        }),
{
    let layout = world::layout_for(entry_count, columns);
    tiles::lemma_ceil_div(entry_count as nat, columns as nat);
    assert(start / columns <= start && target / columns <= target) by (nonlinear_arith)
        requires
            columns > 0,
    ;
}

/// There is no way to or from a wallpaper that does not lie in the world.
pub proof fn law_no_way_leads_outside(
    layout: WorldLayout,
    start: usize,
    target: usize,
    margin: usize,
)
    ensures
        world::route_cells(layout, start, target, margin) is None <==> start >= layout.entry_count
            || target >= layout.entry_count,
{
}

// ---------------------------------------------------------------------------
// The cache

/// The index of the cache is missing where there is none, invalid where it cannot be
/// understood, current where it says what is expected, and stale where it says anything else.
pub proof fn law_index_is_told_by_what_it_says(
    stored: StoredTextView,
    path: Seq<char>,
    expected: ManifestView,
)
    ensures
        match world_cache::state_of(stored, path, expected) {
            Ok(ManifestState::Missing) => stored is Missing,
            Ok(ManifestState::Invalid) => stored matches StoredTextView::Content(text)
                && world_cache::manifest_in(text) is None,
            Ok(ManifestState::Current) => stored matches StoredTextView::Content(text)
                && world_cache::manifest_in(text) == Some(expected),
            Ok(ManifestState::Stale) => stored matches StoredTextView::Content(text) && (
            world_cache::manifest_in(text) matches Some(other) && other != expected),
            Err(_) => stored is Unreadable,
        },
{
}

/// A snapshot is taken only where it is the one that the index tells of.
pub proof fn law_only_the_indexed_snapshot_is_taken(
    cache_dir: Seq<char>,
    manifest: ManifestView,
    stored: StoredTextView,
)
    ensures
        match world_cache::snapshot_by_manifest(cache_dir, manifest, stored) {
            Ok(Some(snapshot)) => {
                &&& stored matches StoredTextView::Content(text) && snapshot.library
                    == text::lines_of(text)
                &&& snapshot.library.len() == manifest.library_count
                &&& snapshot.columns == manifest.columns
                &&& snapshot.rows == manifest.rows
                &&& snapshot.fingerprint == manifest.fingerprint
                &&& snapshot.fingerprint == tiles::paths_hash(snapshot.library)
            },
            Ok(None) => stored is Missing,
            Err(_) => stored !is Missing,
        },
{
}

/// The state of the cache counts the thumbnails and tiles of the library, those that are there
/// and those that are not, and tells where the cache is.
pub proof fn law_status_counts_what_is_there(
    wall_dir: Seq<char>,
    state_dir: Seq<char>,
    snapshot: SnapshotView,
    state: ManifestState,
    cells: Seq<CellView>,
    images: Seq<(Seq<char>, u64)>,
    edge: u32,
)
    ensures
        ({
            let status = world_cache::status_for(
                wall_dir,
                state_dir,
                snapshot,
                state,
                cells,
                images,
                edge,
            );
            let tiles = tiles::pyramid_from(
                status.cache_dir,
                world_cache::tiles_for(snapshot, edge, 8),
                0,
                world_cache::keys_of(cells),
            );
            &&& status.wall_dir == wall_dir
            &&& status.state_dir == state_dir
            &&& status.cache_dir == paths::joined(state_dir, "cache/world-v1"@)
            &&& status.manifest_path == paths::joined(status.cache_dir, "manifest"@)
            &&& status.library_count == snapshot.library.len()
            &&& status.columns == snapshot.columns
            &&& status.rows == snapshot.rows
            &&& status.fingerprint == snapshot.fingerprint
            &&& status.thumbnail_edge == edge
            &&& status.manifest_state == state
            &&& status.cell_ready == world_cache::cell_images(cells).filter(
                |image: Seq<char>| textmap::entries_get(images, image) is Some,
            ).len()
            &&& status.cell_ready + status.cell_missing == cells.len()
            &&& status.world_tile_ready == world_cache::tile_images(tiles).filter(
                |image: Seq<char>| textmap::entries_get(images, image) is Some,
            ).len()
            &&& status.world_tile_ready + status.world_tile_missing == tiles.len()
            &&& status.world_lods == tiles::lod_statuses(tiles, images)
        }),
{
    let tiles = tiles::pyramid_from(
        world_cache::world_dir(state_dir),
        world_cache::tiles_for(snapshot, edge, 8),
        0,
        world_cache::keys_of(cells),
    );
    work_law::law_counts_are_of_those_there(
        Seq::<TileView>::empty(),
        world_cache::cell_images(cells),
        0,
        images,
    );
    work_law::law_counts_are_of_those_there(
        Seq::<TileView>::empty(),
        world_cache::tile_images(tiles),
        0,
        images,
    );
    tiles::lemma_stored_count(world_cache::cell_images(cells), images);
    tiles::lemma_stored_count(world_cache::tile_images(tiles), images);
}

// ---------------------------------------------------------------------------
// Histories

/// A row that is added comes last. Where the history grows too long its first rows go, and the
/// row that is shown stays the one that is shown as long as it is there.
pub proof fn law_history_keeps_the_latest_rows(layout: LayoutView, row: Seq<Seq<char>>)
    requires
        layout.max_history > 0,
        layout.idx <= layout.history.len(),
        layout.history.len() < usize::MAX,
    ensures
        ({
            let after = layout.with_row(row);
            let all = layout.history.push(row);
            let dropped = all.len() - after.history.len();
            &&& after.history.len() == if all.len() <= layout.max_history {
                all.len()
            } else {
                layout.max_history as nat
            }
            &&& after.history == all.skip(dropped)
            &&& after.history.last() == row
            &&& layout.idx > dropped ==> after.idx == layout.idx - dropped && after.history[after.idx
                - 1] == layout.history[layout.idx - 1]
            &&& 0 < layout.idx <= dropped ==> after.idx == 1
            &&& layout.idx == 0 ==> after.idx == 0
            &&& after.offset == layout.offset
            &&& after.out_count == layout.out_count
            &&& after.max_history == layout.max_history
            &&& after.layout_dir == layout.layout_dir
        }),
{
    let all = layout.history.push(row);
    assert(all.skip(0) =~= all);
    let after = layout.with_row(row);
    assert(after.history =~= all.skip(all.len() - after.history.len()));
}

/// A layout that is read from its files starts at its first row where no other is told, and
/// never lies further to the side than it has outputs.
pub proof fn law_stored_layouts_start_within_their_rows(
    layout_dir: Seq<char>,
    out_count: usize,
    max_history: usize,
    stored: StoredView,
)
    ensures
        ({
            let read = layout::stored_layout(layout_dir, out_count, max_history, stored);
            &&& read.layout_dir == layout_dir
            &&& read.out_count == out_count
            &&& read.max_history == max_history
            &&& read.history.len() > 0 ==> read.idx >= 1
            &&& stored.index is None && read.history.len() > 0 ==> read.idx == 1
            &&& out_count > 0 ==> read.offset < out_count
            &&& stored.offset is None ==> read.offset == 0
            &&& stored.history is None ==> read.history.len() == 0
        }),
{
    if out_count > 0 {
        assert(0usize % out_count == 0) by (nonlinear_arith)
            requires
                out_count > 0,
        ;
    }
}

// ---------------------------------------------------------------------------
// Tiles

/// Under a square that is large enough there is a smallest one.
proof fn lemma_some_side(count: nat, side: nat)
    requires
        side >= 1,
        side * side >= count,
    ensures
        exists|smallest: nat| tiles::is_square_side(smallest, count),
    decreases side,
{
    if side == 1 || (side - 1) * (side - 1) < count {
        assert(tiles::is_square_side(side, count));
    } else {
        lemma_some_side(count, (side - 1) as nat);
    }
}

/// The world is as wide as the smallest square that holds the library, and has no row that it
/// does not need.
pub proof fn law_world_is_a_square(library: Seq<Seq<char>>)
    requires
        library.len() <= usize::MAX,
    ensures
        ({
            let snapshot = tiles::snapshot_of(library);
            let (columns, rows) = (snapshot.columns as int, snapshot.rows as int);
            &&& snapshot.library == library
            &&& columns >= 1
            &&& columns * columns >= library.len()
            &&& columns > 1 ==> (columns - 1) * (columns - 1) < library.len()
            &&& rows * columns >= library.len()
            &&& library.len() > 0 ==> (rows - 1) * columns < library.len()
        }),
{
    let count = library.len();
    assert(count * count >= count) by (nonlinear_arith)
        requires
            count >= 0,
    ;
    lemma_some_side(
        count,
        if count == 0 {
            1
        } else {
            count
        },
    );
    let side = tiles::side_for(count);
    tiles::lemma_ceil_div(count, side);
    assert(side <= usize::MAX) by {
        if side > 1 {
            assert(side - 1 <= (side - 1) * (side - 1)) by (nonlinear_arith)
                requires
                    side > 1,
            ;
        }
    }
}

/// The tiles of a level lie row by row; a tile starts where its column and its row say, in steps
/// of the cells of a tile, and ends where the next one starts or the world ends.
pub proof fn law_tiles_lie_row_by_row(
    cache_dir: Seq<char>,
    spec: TileCacheSpec,
    lod: nat,
    keys: Seq<Seq<char>>,
    i: int,
)
    requires
        0 <= i < tiles::tiles_of_lod(cache_dir, spec, lod, keys).len(),
        spec.columns > 0,
    ensures
        ({
            let tile = tiles::tiles_of_lod(cache_dir, spec, lod, keys)[i];
            let cells = tiles::cells_at(spec.tile_cells as nat, lod);
            let width = tiles::ceil_div(spec.columns as nat, cells);
            &&& tile.lod == lod
            &&& tile.tile_row * width + tile.tile_column == i
            &&& tile.tile_column < width
            &&& tile.start_column == tile.tile_column * cells
            &&& tile.start_row == tile.tile_row * cells
            &&& tile.end_column == if (tile.tile_column + 1) * cells <= spec.columns {
                (tile.tile_column + 1) * cells
            } else {
                spec.columns as nat
            }
            &&& tile.end_row == if (tile.tile_row + 1) * cells <= spec.rows {
                (tile.tile_row + 1) * cells
            } else {
                spec.rows as nat
            }
        }),
{
    let cells = tiles::cells_at(spec.tile_cells as nat, lod);
    tiles::lemma_cells_at(spec.tile_cells as nat, lod);
    tiles::lemma_ceil_div(spec.columns as nat, cells);
    let width = tiles::ceil_div(spec.columns as nat, cells) as int;
    let row = i / width;
    let column = i % width;
    vstd::arithmetic::div_mod::lemma_fundamental_div_mod(i, width);
    vstd::arithmetic::div_mod::lemma_mod_bound(i, width);
    assert(row >= 0) by (nonlinear_arith)
        requires
            i >= 0,
            width > 0,
            row == i / width,
    ;
    reveal(tiles::tile_at);
    let tile = tiles::tiles_of_lod(cache_dir, spec, lod, keys)[i];
    assert(tile == tiles::tile_at(cache_dir, spec, lod, keys, row, column));
    assert(width * row == row * width) by (nonlinear_arith);
    assert((column + 1) * cells == column * cells + cells) by (nonlinear_arith);
    assert((row + 1) * cells == row * cells + cells) by (nonlinear_arith);
    assert(column * cells >= 0 && row * cells >= 0) by (nonlinear_arith)
        requires
            column >= 0,
            row >= 0,
            cells >= 0,
    ;
}

/// There is one thumbnail for each wallpaper of a library, in its order, made of what is found of
/// it on disk; they are known where every wallpaper is found, and only there.
pub proof fn law_each_wallpaper_has_its_thumbnail(
    library: Seq<Seq<char>>,
    cache_dir: Seq<char>,
    edge: u32,
    found: Seq<(Seq<char>, FileStat)>,
    error: Seq<char>,
)
    ensures
        ({
            let cells = tiles::cells_of(library, cache_dir, edge, found, error);
            &&& cells is Ok <==> forall|i: int|
                0 <= i < library.len() ==> textmap::entries_get(found, #[trigger] library[i]) is Some
            &&& cells matches Ok(cells) ==> {
                &&& cells.len() == library.len()
                &&& forall|i: int|
                    0 <= i < library.len() ==> {
                        &&& (#[trigger] cells[i]).source_path == library[i]
                        &&& cells[i].cache_key == tiles::cell_key(
                            library[i],
                            textmap::entries_get(found, library[i])->0,
                            edge,
                        )
                    }
            }
        }),
    decreases library.len(),
{
    if library.len() > 0 {
        let rest = library.drop_last();
        law_each_wallpaper_has_its_thumbnail(rest, cache_dir, edge, found, error);
        let all = forall|i: int|
            0 <= i < library.len() ==> textmap::entries_get(found, #[trigger] library[i]) is Some;
        if all {
            assert forall|i: int| 0 <= i < rest.len() implies textmap::entries_get(
                found,
                #[trigger] rest[i],
            ) is Some by {
                assert(rest[i] == library[i]);
            }
            assert(textmap::entries_get(found, library[library.len() - 1]) is Some);
        }
        if tiles::cells_of(library, cache_dir, edge, found, error) is Ok {
            assert forall|i: int| 0 <= i < library.len() implies textmap::entries_get(
                found,
                #[trigger] library[i],
            ) is Some by {
                if i < rest.len() {
                    assert(rest[i] == library[i]);
                }
            }
            let cells = tiles::cells_of(library, cache_dir, edge, found, error)->Ok_0;
            assert forall|i: int| 0 <= i < library.len() implies {
                &&& (#[trigger] cells[i]).source_path == library[i]
                &&& cells[i].cache_key == tiles::cell_key(
                    library[i],
                    textmap::entries_get(found, library[i])->0,
                    edge,
                )
            } by {
                if i < rest.len() {
                    assert(rest[i] == library[i]);
                }
            }
        }
    }
}

/// A snapshot of what is on disk has the thumbnails that the library on disk has.
pub proof fn law_snapshots_keep_the_thumbnails(
    config: ConfigView,
    environment: Seq<(Seq<char>, Seq<char>)>,
    disk: DiskView,
    cache: CacheFilesView,
    edge: u32,
    library: Seq<Seq<char>>,
)
    requires
        world_cache::world_places(config, environment) matches Ok(places) && control::scanned(
            places.0,
            places.2,
            disk,
        ) == Ok::<Seq<Seq<char>>, Seq<char>>(library),
    ensures
        world_cache::snapshot_cells(
            config,
            environment,
            tiles::snapshot_of(library),
            cache,
            edge,
        ) == world_cache::world_cells(config, environment, disk, cache, edge),
{
}

} // verus!
