//! The work of making the world cache: what is selected for it, and how large it will be.

use crate::compute::{
    neighborhood_world_tile_entries, route_world_tile_entries, selected_world_cell_indices,
};
use crate::compute_options::{ScopeView, WorldCacheComputeScope};
use crate::config::{ConfigView, MuralConfig};
use crate::control::{Disk, DiskView};
use crate::textmap::TextMap;
use crate::tiles::{
    div_up, world_lod_tile_cells, CellView, TileView, WorldCellCacheEntry, WorldTileCacheEntry,
    DEFAULT_WORLD_CELL_THUMBNAIL_EDGE, DEFAULT_WORLD_TILE_CELLS,
};
use crate::world_cache::{
    count_tiles, world_cache_status, world_cell_cache_entries, world_tile_pyramid_cache_entries, CacheFiles,
    CacheFilesView, WorldCacheStatus, WorldLodPlan, WorldStatusView,
};
use crate::compute;
use crate::error;
use crate::textmap;
use crate::tiles;
use crate::world_cache;
use crate::world;
use vstd::prelude::*;

verus! {

// ---------------------------------------------------------------------------
// Selecting

/// The numbers of the thumbnails that a scope wants made by themselves.
pub open spec fn cells_in_scope(
    scope: ScopeView,
    cell_count: nat,
    columns: usize,
    limit: Option<usize>,
    tile_limit: Option<usize>,
    tiles: Seq<TileView>,
    files: Seq<(Seq<char>, u64)>,
) -> Seq<usize> {
    if scope !is All {
        Seq::empty()
    } else if limit is None && tile_limit is None {
        Seq::new(cell_count, |i: int| i as usize)
    } else {
        compute::wanted_cells(cell_count, columns, limit, tiles, files)
    }
}

/// The numbers of the thumbnails that a scope wants made by themselves: all of them where
/// nothing limits the work, and none for ways and surroundings, whose tiles are made from
/// the wallpapers.
pub fn selected_world_cell_indices_for_scope(
    scope: &WorldCacheComputeScope,
    cell_count: usize,
    columns: usize,
    limit: Option<usize>,
    tile_limit: Option<usize>,
    tiles: &Vec<WorldTileCacheEntry>,
    files: &TextMap<u64>,
) -> (indices: Vec<usize>)
    ensures
        indices@ == cells_in_scope(
            scope@,
            cell_count as nat,
            columns,
            limit,
            tile_limit,
            tiles::tile_views(tiles@),
            files.raw(),
        ),
{
    if !matches!(scope, WorldCacheComputeScope::All) {
        return Vec::new();
    }
    if limit.is_none() && tile_limit.is_none() {
        let ghost wanted = Seq::new(cell_count as nat, |i: int| i as usize);
        let mut indices: Vec<usize> = Vec::new();
        let mut i: usize = 0;
        while i < cell_count
            invariant
                i <= cell_count,
                wanted == Seq::new(cell_count as nat, |i: int| i as usize),
                indices@ == wanted.take(i as int),
            decreases cell_count - i,
        {
            indices.push(i);
            assert(indices@ =~= wanted.take(i + 1));
            i = i + 1;
        }
        assert(indices@ =~= wanted);
        return indices;
    }
    selected_world_cell_indices(cell_count, columns, limit, tiles, files)
}

/// What is selected to be made.
#[derive(Clone, Debug, PartialEq, Eq)]
pub struct WorldCacheSelection {
    pub status: WorldCacheStatus,
    pub cell_entries: Vec<WorldCellCacheEntry>,
    pub tile_entries: Vec<WorldTileCacheEntry>,
    pub cell_indices: Vec<usize>,
    pub limited: bool,
}

/// What is selected to be made, as a mathematical value.
pub struct SelectionView {
    pub status: WorldStatusView,
    pub cells: Seq<CellView>,
    pub tiles: Seq<TileView>,
    pub indices: Seq<usize>,
    pub limited: bool,
}

impl View for WorldCacheSelection {
    type V = SelectionView;

    open spec fn view(&self) -> SelectionView {
        SelectionView {
            status: self.status@,
            cells: tiles::cell_views(self.cell_entries@),
            tiles: tiles::tile_views(self.tile_entries@),
            indices: self.cell_indices@,
            limited: self.limited,
        }
    }
}

/// The wallpapers of thumbnails.
pub open spec fn cell_sources(cells: Seq<CellView>) -> Seq<Seq<char>> {
    Seq::new(cells.len(), |i: int| cells[i].source_path)
}

/// The tiles of a scope.
pub open spec fn tiles_in_scope(
    scope: ScopeView,
    status: WorldStatusView,
    cells: Seq<CellView>,
    tiles: Seq<TileView>,
) -> Result<Seq<TileView>, Seq<char>> {
    match scope {
        ScopeView::All => Ok(tiles),
        ScopeView::Route { routes } => match compute::keys_on_ways(
            cell_sources(cells),
            status.columns,
            status.world_lods,
            routes,
        ) {
            Err(message) => Err(message),
            Ok(keys) => Ok(compute::tiles_with(tiles, keys)),
        },
        ScopeView::Neighborhood { centers, radius, lod } => match compute::keys_nearby(
            cell_sources(cells),
            status.columns,
            status.rows,
            status.world_lods,
            centers,
            radius,
            lod,
        ) {
            Err(message) => Err(message),
            Ok(keys) => Ok(compute::tiles_with(tiles, keys)),
        },
    }
}

/// The tiles that are left of a scope's: a limit on tiles keeps the first ones, and a limit
/// on thumbnails alone keeps none.
pub open spec fn tiles_kept(
    tiles: Seq<TileView>,
    limit: Option<usize>,
    tile_limit: Option<usize>,
) -> Seq<TileView> {
    match tile_limit {
        Some(most) => if most < tiles.len() {
            tiles.take(most as int)
        } else {
            tiles
        },
        None => if limit is Some {
            Seq::empty()
        } else {
            tiles
        },
    }
}

/// What is selected of thumbnails and tiles that are known.
pub open spec fn selected(
    status: WorldStatusView,
    cells: Seq<CellView>,
    tiles: Seq<TileView>,
    files: Seq<(Seq<char>, u64)>,
    scope: ScopeView,
    limit: Option<usize>,
    tile_limit: Option<usize>,
) -> Result<SelectionView, Seq<char>> {
    match tiles_in_scope(scope, status, cells, tiles) {
        Err(message) => Err(message),
        Ok(scoped) => {
            let kept = tiles_kept(scoped, limit, tile_limit);
            Ok(
                SelectionView {
                    status,
                    cells,
                    tiles: kept,
                    indices: cells_in_scope(
                        scope,
                        cells.len(),
                        status.columns,
                        limit,
                        tile_limit,
                        kept,
                        files,
                    ),
                    limited: (scope is All && limit is Some && limit->Some_0 < cells.len()) || (
                    tile_limit is Some && tile_limit->Some_0 < scoped.len()),
                },
            )
        },
    }
}

/// What is selected to be made.
pub open spec fn selection_for(
    config: ConfigView,
    environment: Seq<(Seq<char>, Seq<char>)>,
    disk: DiskView,
    cache: CacheFilesView,
    scope: ScopeView,
    limit: Option<usize>,
    tile_limit: Option<usize>,
) -> Result<SelectionView, Seq<char>> {
    let edge = DEFAULT_WORLD_CELL_THUMBNAIL_EDGE;
    match world_cache::world_status(config, environment, disk, cache, edge) {
        Err(message) => Err(message),
        Ok(status) => match world_cache::world_cells(config, environment, disk, cache, edge) {
            Err(message) => Err(message),
            Ok(cells) => match world_cache::world_tile_base(
                config,
                environment,
                disk,
                cache,
                edge,
                DEFAULT_WORLD_TILE_CELLS,
            ) {
                Err(message) => Err(message),
                Ok((dir, spec, keys)) => selected(
                    status,
                    cells,
                    tiles::pyramid_from(dir, spec, 0, keys),
                    cache.images,
                    scope,
                    limit,
                    tile_limit,
                ),
            },
        },
    }
}

fn scope_tiles(
    scope: &WorldCacheComputeScope,
    status: &WorldCacheStatus,
    cells: &Vec<WorldCellCacheEntry>,
    tiles: Vec<WorldTileCacheEntry>,
) -> (result: Result<Vec<WorldTileCacheEntry>, String>)
    ensures
        world_cache::is_tiles(
            result,
            tiles_in_scope(scope@, status@, tiles::cell_views(cells@), tiles::tile_views(tiles@)),
        ),
{
    assert(compute::sources_of(cells@) =~= cell_sources(tiles::cell_views(cells@)));
    match scope {
        WorldCacheComputeScope::All => Ok(tiles),
        WorldCacheComputeScope::Route { routes } => route_world_tile_entries(
            cells,
            status.columns,
            &status.world_lods,
            &tiles,
            routes,
        ),
        WorldCacheComputeScope::Neighborhood { centers, radius, lod } =>
            neighborhood_world_tile_entries(
            cells,
            status.columns,
            status.rows,
            &status.world_lods,
            &tiles,
            centers,
            *radius,
            *lod,
        ),
    }
}

/// What is selected to be made of the cache of the library on disk. Where the work is to be
/// done, the index is written before.
pub fn world_cache_selection(
    config: &MuralConfig,
    environment: &TextMap<String>,
    disk: &Disk,
    cache: &CacheFiles,
    scope: &WorldCacheComputeScope,
    limit: Option<usize>,
    tile_limit: Option<usize>,
) -> (result: Result<WorldCacheSelection, String>)
    ensures
        error::agrees_view(
            result,
            selection_for(
                config@,
                textmap::text_entries(*environment),
                disk@,
                cache@,
                scope@,
                limit,
                tile_limit,
            ),
        ),
{
    let status = world_cache_status(config, environment, disk, cache)?;
    let cell_entries = world_cell_cache_entries(
        config,
        environment,
        disk,
        cache,
        DEFAULT_WORLD_CELL_THUMBNAIL_EDGE,
    )?;
    let tile_entries = world_tile_pyramid_cache_entries(
        config,
        environment,
        disk,
        cache,
        DEFAULT_WORLD_CELL_THUMBNAIL_EDGE,
        DEFAULT_WORLD_TILE_CELLS,
    )?;
    let mut tile_entries = scope_tiles(scope, &status, &cell_entries, tile_entries)?;
    let ghost scoped = tiles::tile_views(tile_entries@);
    assert(scoped.len() == tile_entries@.len());
    let mut limited = false;
    match tile_limit {
        Some(most) => {
            if most < tile_entries.len() {
                limited = true;
                tile_entries.truncate(most);
                assert(tiles::tile_views(tile_entries@) =~= scoped.take(most as int));
            }
        },
        None => {
            if limit.is_some() {
                tile_entries = Vec::new();
                assert(tiles::tile_views(tile_entries@) =~= Seq::<TileView>::empty());
            }
        },
    }
    let cell_indices = selected_world_cell_indices_for_scope(
        scope,
        cell_entries.len(),
        status.columns,
        limit,
        tile_limit,
        &tile_entries,
        &cache.images,
    );
    assert(tiles::cell_views(cell_entries@).len() == cell_entries@.len());
    if matches!(scope, WorldCacheComputeScope::All) {
        if let Some(most) = limit {
            if most < cell_entries.len() {
                limited = true;
            }
        }
    }
    Ok(WorldCacheSelection { status, cell_entries, tile_entries, cell_indices, limited })
}

// ---------------------------------------------------------------------------
// How large the work is

/// A number, or the greatest of 64 bits where it is greater.
pub open spec fn at_most_u64(n: nat) -> u64 {
    if n > u64::MAX {
        u64::MAX
    } else {
        n as u64
    }
}

fn product(a: u64, b: u64) -> (result: u64)
    ensures
        result == at_most_u64((a * b) as nat),
{
    proof {
        assert(a * b >= 0) by (nonlinear_arith);
    }
    match a.checked_mul(b) {
        Some(result) => result,
        None => u64::MAX,
    }
}

/// How many bytes an image takes that is not compressed.
pub open spec fn pixel_bytes(width: u64, height: u64) -> u64 {
    at_most_u64((at_most_u64((width * height) as nat) * 4) as nat)
}

/// How many bytes an image takes that is not compressed.
pub fn uncompressed_pixels_bytes(width: u64, height: u64) -> (bytes: u64)
    ensures
        bytes == pixel_bytes(width, height),
{
    product(product(width, height), 4)
}

/// The average of some sizes, rounded up and not zero, or another value where there are
/// none.
pub open spec fn average_size(bytes: u64, count: u64, fallback: u64) -> u64 {
    if count == 0 {
        fallback
    } else if bytes == 0 {
        1
    } else {
        tiles::ceil_div(bytes as nat, count as nat) as u64
    }
}

/// The average of some sizes, rounded up and not zero, or another value where there are
/// none.
pub fn average_or_fallback(bytes: u64, count: u64, fallback: u64) -> (average: u64)
    ensures
        average == average_size(bytes, count, fallback),
{
    if count == 0 {
        return fallback;
    }
    proof {
        tiles::lemma_ceil_div(bytes as nat, count as nat);
    }
    if bytes == 0 {
        return 1;
    }
    if bytes % count == 0 {
        bytes / count
    } else {
        bytes / count + 1
    }
}

/// How many of the selected thumbnails are there, and how many bytes they take.
pub open spec fn ready_cells(
    images: Seq<Seq<char>>,
    indices: Seq<usize>,
    files: Seq<(Seq<char>, u64)>,
) -> (nat, nat)
    decreases indices.len(),
{
    if indices.len() == 0 {
        (0, 0)
    } else {
        let (count, bytes) = ready_cells(images, indices.drop_last(), files);
        if indices.last() < images.len() {
            match textmap::entries_get(files, images[indices.last() as int]) {
                Some(size) => (count + 1, bytes + size as nat),
                None => (count, bytes),
            }
        } else {
            (count, bytes)
        }
    }
}

/// How many of the selected thumbnails are not there.
pub open spec fn missing_cells(
    images: Seq<Seq<char>>,
    indices: Seq<usize>,
    files: Seq<(Seq<char>, u64)>,
) -> nat
    decreases indices.len(),
{
    if indices.len() == 0 {
        0
    } else if indices.last() < images.len() && textmap::entries_get(files, images[indices.last() as int])
        is None {
        missing_cells(images, indices.drop_last(), files) + 1
    } else {
        missing_cells(images, indices.drop_last(), files)
    }
}

/// How many bytes the selected thumbnails that are not there will take, going by those
/// that are.
pub open spec fn cell_estimate(
    images: Seq<Seq<char>>,
    indices: Seq<usize>,
    files: Seq<(Seq<char>, u64)>,
) -> u64 {
    let (count, bytes) = ready_cells(images, indices, files);
    let edge = DEFAULT_WORLD_CELL_THUMBNAIL_EDGE as u64;
    let each = average_size(at_most_u64(bytes), count as u64, pixel_bytes(edge, edge));
    at_most_u64(missing_cells(images, indices, files) * each as nat)
}

/// How many bytes the selected thumbnails that are not there will take, going by those
/// that are.
pub fn estimate_missing_cell_bytes(
    cells: &Vec<WorldCellCacheEntry>,
    indices: &Vec<usize>,
    files: &TextMap<u64>,
) -> (bytes: u64)
    ensures
        bytes == cell_estimate(
            world_cache::cell_images(tiles::cell_views(cells@)),
            indices@,
            files.raw(),
        ),
{
    let ghost images = world_cache::cell_images(tiles::cell_views(cells@));
    let ghost sizes = files.raw();
    let mut ready_count: u64 = 0;
    let mut ready_bytes: u64 = 0;
    let mut missing_count: u64 = 0;
    let mut i: usize = 0;
    assert(indices@.take(0) =~= Seq::<usize>::empty());
    assert(images.len() == cells@.len());
    while i < indices.len()
        invariant
            i <= indices@.len(),
            images == world_cache::cell_images(tiles::cell_views(cells@)),
            images.len() == cells@.len(),
            sizes == files.raw(),
            ready_count == ready_cells(images, indices@.take(i as int), sizes).0,
            ready_bytes == at_most_u64(ready_cells(images, indices@.take(i as int), sizes).1),
            missing_count == missing_cells(images, indices@.take(i as int), sizes),
            ready_count <= i,
            missing_count <= i,
        decreases indices@.len() - i,
    {
        proof {
            assert(indices@.take(i + 1).drop_last() =~= indices@.take(i as int));
        }
        let index = indices[i];
        if index < cells.len() {
            assert(images[index as int] == cells@[index as int].image_path@);
            match files.get(cells[index].image_path.as_str()) {
                Some(size) => {
                    ready_count = ready_count + 1;
                    ready_bytes = ready_bytes.saturating_add(*size);
                },
                None => {
                    missing_count = missing_count + 1;
                },
            }
        }
        i = i + 1;
    }
    assert(indices@.take(i as int) =~= indices@);
    let edge: u64 = DEFAULT_WORLD_CELL_THUMBNAIL_EDGE as u64;
    let fallback = uncompressed_pixels_bytes(edge, edge);
    product(missing_count, average_or_fallback(ready_bytes, ready_count, fallback))
}

/// How many of the tiles of a level are there, and how many bytes they take.
pub open spec fn ready_tiles(tiles: Seq<TileView>, lod: nat, files: Seq<(Seq<char>, u64)>) -> (
    nat,
    nat,
)
    decreases tiles.len(),
{
    if tiles.len() == 0 {
        (0, 0)
    } else {
        let (count, bytes) = ready_tiles(tiles.drop_last(), lod, files);
        if tiles.last().lod == lod {
            match textmap::entries_get(files, tiles.last().image_path) {
                Some(size) => (count + 1, bytes + size as nat),
                None => (count, bytes),
            }
        } else {
            (count, bytes)
        }
    }
}

/// A count, but at least one.
pub open spec fn span(start: nat, end: nat) -> u64 {
    tiles::one_or_more(world::less(end, start) as nat) as u64
}

/// How wide and high a tile is, in the pieces that it is put together from: cells at the
/// first level, and tiles of the level before it at the others.
pub open spec fn tile_units(tile: TileView) -> (u64, u64) {
    if tile.lod == 0 {
        (span(tile.start_column, tile.end_column), span(tile.start_row, tile.end_row))
    } else {
        let child = tiles::cells_at(DEFAULT_WORLD_TILE_CELLS as nat, (tile.lod - 1) as nat);
        (
            span(tile.start_column / child, tiles::ceil_div(tile.end_column, child)),
            span(tile.start_row / child, tiles::ceil_div(tile.end_row, child)),
        )
    }
}

fn span_of(start: usize, end: usize) -> (result: u64)
    ensures
        result == span(start as nat, end as nat),
{
    let length = end.saturating_sub(start);
    if length == 0 {
        1
    } else {
        length as u64
    }
}

/// How wide and high a tile is, in the pieces that it is put together from.
pub fn estimated_world_tile_pixel_units(tile: &WorldTileCacheEntry) -> (units: (u64, u64))
    ensures
        units == tile_units(tile@),
{
    if tile.lod == 0 {
        return (
            span_of(tile.start_column, tile.end_column),
            span_of(tile.start_row, tile.end_row),
        );
    }
    let child = world_lod_tile_cells(DEFAULT_WORLD_TILE_CELLS, tile.lod - 1);
    proof {
        tiles::lemma_cells_at(DEFAULT_WORLD_TILE_CELLS as nat, (tile.lod - 1) as nat);
    }
    (
        span_of(tile.start_column / child, div_up(tile.end_column, child)),
        span_of(tile.start_row / child, div_up(tile.end_row, child)),
    )
}

/// How many bytes the image of a tile takes that is not compressed.
pub open spec fn tile_bytes(tile: TileView) -> u64 {
    let edge = DEFAULT_WORLD_CELL_THUMBNAIL_EDGE as u64;
    let (width, height) = tile_units(tile);
    pixel_bytes(at_most_u64((width * edge) as nat), at_most_u64((height * edge) as nat))
}

/// How many bytes the image of a tile takes that is not compressed.
pub fn estimated_world_tile_uncompressed_bytes(tile: &WorldTileCacheEntry) -> (bytes: u64)
    ensures
        bytes == tile_bytes(tile@),
{
    let edge: u64 = DEFAULT_WORLD_CELL_THUMBNAIL_EDGE as u64;
    let (width, height) = estimated_world_tile_pixel_units(tile);
    uncompressed_pixels_bytes(product(width, edge), product(height, edge))
}

/// How many bytes a tile that is not there will take, going by those of its level that
/// are.
pub open spec fn missing_tile_bytes(
    tiles: Seq<TileView>,
    tile: TileView,
    files: Seq<(Seq<char>, u64)>,
) -> u64 {
    let (count, bytes) = ready_tiles(tiles, tile.lod, files);
    average_size(at_most_u64(bytes), count as u64, tile_bytes(tile))
}

/// How many bytes those of the first tiles will take that are not there.
pub open spec fn missing_tiles_bytes(
    tiles: Seq<TileView>,
    files: Seq<(Seq<char>, u64)>,
    n: nat,
) -> nat
    decreases n,
{
    if n == 0 {
        0
    } else if textmap::entries_get(files, tiles[n - 1].image_path) is None {
        missing_tiles_bytes(tiles, files, (n - 1) as nat) + missing_tile_bytes(
            tiles,
            tiles[n - 1],
            files,
        ) as nat
    } else {
        missing_tiles_bytes(tiles, files, (n - 1) as nat)
    }
}

fn ready_tiles_of_lod(tiles: &Vec<WorldTileCacheEntry>, lod: usize, files: &TextMap<u64>)
    -> (found: (u64, u64))
    ensures
        found.0 == ready_tiles(tiles::tile_views(tiles@), lod as nat, files.raw()).0,
        found.1 == at_most_u64(ready_tiles(tiles::tile_views(tiles@), lod as nat, files.raw()).1),
{
    let ghost all = tiles::tile_views(tiles@);
    let ghost sizes = files.raw();
    let mut count: u64 = 0;
    let mut bytes: u64 = 0;
    let mut i: usize = 0;
    assert(all.take(0) =~= Seq::<TileView>::empty());
    while i < tiles.len()
        invariant
            i <= tiles@.len(),
            all == tiles::tile_views(tiles@),
            sizes == files.raw(),
            count == ready_tiles(all.take(i as int), lod as nat, sizes).0,
            bytes == at_most_u64(ready_tiles(all.take(i as int), lod as nat, sizes).1),
            count <= i,
        decreases tiles@.len() - i,
    {
        proof {
            assert(all.take(i + 1).drop_last() =~= all.take(i as int));
            assert(all.take(i + 1).last() == tiles@[i as int]@);
        }
        if tiles[i].lod == lod {
            if let Some(size) = files.get(tiles[i].image_path.as_str()) {
                count = count + 1;
                bytes = bytes.saturating_add(*size);
            }
        }
        i = i + 1;
    }
    assert(all.take(i as int) =~= all);
    (count, bytes)
}

/// How many bytes the tiles that are not there will take, going by those of the same level
/// that are.
pub fn estimate_missing_tile_bytes(tiles: &Vec<WorldTileCacheEntry>, files: &TextMap<u64>)
    -> (bytes: u64)
    ensures
        bytes == at_most_u64(
            missing_tiles_bytes(tiles::tile_views(tiles@), files.raw(), tiles@.len()),
        ),
{
    let ghost all = tiles::tile_views(tiles@);
    let ghost sizes = files.raw();
    let mut total: u64 = 0;
    let mut level: usize = 0;
    let mut known = ready_tiles_of_lod(tiles, level, files);
    let mut i: usize = 0;
    while i < tiles.len()
        invariant
            i <= tiles@.len(),
            all == tiles::tile_views(tiles@),
            sizes == files.raw(),
            total == at_most_u64(missing_tiles_bytes(all, sizes, i as nat)),
            known.0 == ready_tiles(all, level as nat, sizes).0,
            known.1 == at_most_u64(ready_tiles(all, level as nat, sizes).1),
        decreases tiles@.len() - i,
    {
        assert(all[i as int] == tiles@[i as int]@);
        if !files.contains_key(tiles[i].image_path.as_str()) {
            if tiles[i].lod != level {
                level = tiles[i].lod;
                known = ready_tiles_of_lod(tiles, level, files);
            }
            let fallback = estimated_world_tile_uncompressed_bytes(&tiles[i]);
            total = total.saturating_add(average_or_fallback(known.1, known.0, fallback));
        }
        i = i + 1;
    }
    total
}

/// How many bytes the selected work will take.
pub open spec fn work_estimate(selection: SelectionView, files: Seq<(Seq<char>, u64)>) -> u64 {
    at_most_u64(
        cell_estimate(world_cache::cell_images(selection.cells), selection.indices, files) as nat
            + at_most_u64(
            missing_tiles_bytes(selection.tiles, files, selection.tiles.len()),
        ) as nat,
    )
}

/// How many bytes the selected work will take.
pub fn estimated_world_cache_remaining_bytes(
    selection: &WorldCacheSelection,
    files: &TextMap<u64>,
) -> (bytes: u64)
    ensures
        bytes == work_estimate(selection@, files.raw()),
{
    assert(tiles::tile_views(selection.tile_entries@).len() == selection.tile_entries@.len());
    let cells = estimate_missing_cell_bytes(
        &selection.cell_entries,
        &selection.cell_indices,
        files,
    );
    let tiles = estimate_missing_tile_bytes(&selection.tile_entries, files);
    cells.saturating_add(tiles)
}

// ---------------------------------------------------------------------------
// The plan

/// The plans of the levels below one at which there is a tile.
pub open spec fn plans_below(
    tiles: Seq<TileView>,
    files: Seq<(Seq<char>, u64)>,
    lod: nat,
) -> Seq<WorldLodPlan>
    decreases lod,
{
    if lod == 0 {
        Seq::empty()
    } else {
        let before = plans_below(tiles, files, (lod - 1) as nat);
        let level = (lod - 1) as nat;
        if tiles::lod_count(tiles, level) > 0 {
            before.push(
                WorldLodPlan {
                    lod: level as usize,
                    tile_count: tiles::lod_count(tiles, level) as usize,
                    tile_ready: tiles::lod_ready(tiles, level, files) as usize,
                    tile_missing: (tiles::lod_count(tiles, level) - tiles::lod_ready(
                        tiles,
                        level,
                        files,
                    )) as usize,
                },
            )
        } else {
            before
        }
    }
}

/// The plan of each level at which there is a tile.
pub open spec fn lod_plans(tiles: Seq<TileView>, files: Seq<(Seq<char>, u64)>) -> Seq<
    WorldLodPlan,
> {
    plans_below(tiles, files, tiles::top_lod(tiles) + 1)
}

proof fn lemma_no_tiles(lod: nat, tiles: Seq<TileView>, files: Seq<(Seq<char>, u64)>)
    requires
        tiles.len() == 0,
    ensures
        plans_below(tiles, files, lod) == Seq::<WorldLodPlan>::empty(),
    decreases lod,
{
    if lod > 0 {
        lemma_no_tiles((lod - 1) as nat, tiles, files);
    }
}

/// The plan of each level at which there is a tile, the finest first.
pub fn world_lod_plan_counts(tiles: &Vec<WorldTileCacheEntry>, files: &TextMap<u64>) -> (plans: Vec<
    WorldLodPlan,
>)
    ensures
        plans@ == lod_plans(tiles::tile_views(tiles@), files.raw()),
{
    let ghost all = tiles::tile_views(tiles@);
    let statuses = crate::tiles::world_lod_cache_statuses(tiles, files);
    let mut plans: Vec<WorldLodPlan> = Vec::new();
    assert(all.len() == tiles@.len());
    proof {
        if all.len() == 0 {
            lemma_no_tiles(1, all, files.raw());
        }
    }
    let mut i: usize = 0;
    while i < statuses.len()
        invariant
            i <= statuses@.len(),
            all == tiles::tile_views(tiles@),
            all.len() == tiles@.len(),
            statuses@ == tiles::lod_statuses(all, files.raw()),
            plans@ == plans_below(all, files.raw(), i as nat),
        decreases statuses@.len() - i,
    {
        proof {
            tiles::lemma_lod_ready(all, i as nat, files.raw());
            assert(tiles.len() == all.len());
        }
        let status = statuses[i];
        let count: usize = status.tile_ready + status.tile_missing;
        if count > 0 {
            plans.push(
                WorldLodPlan {
                    lod: status.lod,
                    tile_count: count,
                    tile_ready: status.tile_ready,
                    tile_missing: status.tile_missing,
                },
            );
        }
        i = i + 1;
    }
    plans
}

/// What the selected work comes to.
#[derive(Clone, Debug, PartialEq, Eq)]
pub struct WorldWorkPlan {
    pub status: WorldCacheStatus,
    pub thumbnail_count: usize,
    pub thumbnail_ready: usize,
    pub thumbnail_missing: usize,
    pub world_tile_count: usize,
    pub world_tile_ready: usize,
    pub world_tile_missing: usize,
    pub world_lods: Vec<WorldLodPlan>,
    pub estimated_remaining_bytes: u64,
    pub dry_run: bool,
}

/// What the selected work comes to, as a mathematical value.
pub struct WorkPlanView {
    pub status: WorldStatusView,
    pub thumbnail_count: nat,
    pub thumbnail_ready: nat,
    pub thumbnail_missing: nat,
    pub world_tile_count: nat,
    pub world_tile_ready: nat,
    pub world_tile_missing: nat,
    pub world_lods: Seq<WorldLodPlan>,
    pub estimated_remaining_bytes: u64,
    pub dry_run: bool,
}

impl View for WorldWorkPlan {
    type V = WorkPlanView;

    open spec fn view(&self) -> WorkPlanView {
        WorkPlanView {
            status: self.status@,
            thumbnail_count: self.thumbnail_count as nat,
            thumbnail_ready: self.thumbnail_ready as nat,
            thumbnail_missing: self.thumbnail_missing as nat,
            world_tile_count: self.world_tile_count as nat,
            world_tile_ready: self.world_tile_ready as nat,
            world_tile_missing: self.world_tile_missing as nat,
            world_lods: self.world_lods@,
            estimated_remaining_bytes: self.estimated_remaining_bytes,
            dry_run: self.dry_run,
        }
    }
}

/// What selected work comes to.
pub open spec fn work_plan(
    selection: SelectionView,
    files: Seq<(Seq<char>, u64)>,
    dry_run: bool,
) -> WorkPlanView {
    let ready = ready_cells(world_cache::cell_images(selection.cells), selection.indices, files).0;
    let tiles_ready = tiles::stored_count(world_cache::tile_images(selection.tiles), files);
    WorkPlanView {
        status: selection.status,
        thumbnail_count: selection.indices.len(),
        thumbnail_ready: ready,
        thumbnail_missing: (selection.indices.len() - ready) as nat,
        world_tile_count: selection.tiles.len(),
        world_tile_ready: tiles_ready,
        world_tile_missing: (selection.tiles.len() - tiles_ready) as nat,
        world_lods: lod_plans(selection.tiles, files),
        estimated_remaining_bytes: work_estimate(selection, files),
        dry_run,
    }
}

/// How many of the selected thumbnails are there.
pub fn selected_world_cell_ready_count(selection: &WorldCacheSelection, files: &TextMap<u64>)
    -> (ready: usize)
    ensures
        ready == ready_cells(
            world_cache::cell_images(tiles::cell_views(selection.cell_entries@)),
            selection.cell_indices@,
            files.raw(),
        ).0,
        ready <= selection.cell_indices@.len(),
{
    let cells = &selection.cell_entries;
    let indices = &selection.cell_indices;
    let ghost images = world_cache::cell_images(tiles::cell_views(cells@));
    let mut ready: usize = 0;
    let mut i: usize = 0;
    assert(indices@.take(0) =~= Seq::<usize>::empty());
    assert(images.len() == cells@.len());
    while i < indices.len()
        invariant
            i <= indices@.len(),
            images == world_cache::cell_images(tiles::cell_views(cells@)),
            images.len() == cells@.len(),
            ready == ready_cells(images, indices@.take(i as int), files.raw()).0,
            ready <= i,
        decreases indices@.len() - i,
    {
        proof {
            assert(indices@.take(i + 1).drop_last() =~= indices@.take(i as int));
        }
        let index = indices[i];
        if index < cells.len() {
            assert(images[index as int] == cells@[index as int].image_path@);
            if files.contains_key(cells[index].image_path.as_str()) {
                ready = ready + 1;
            }
        }
        i = i + 1;
    }
    assert(indices@.take(i as int) =~= indices@);
    ready
}

/// What the selected work comes to.
pub fn plan_world_cache_compute_for_scope(
    config: &MuralConfig,
    environment: &TextMap<String>,
    disk: &Disk,
    cache: &CacheFiles,
    scope: &WorldCacheComputeScope,
    limit: Option<usize>,
    tile_limit: Option<usize>,
    dry_run: bool,
) -> (result: Result<WorldWorkPlan, String>)
    ensures
        match (
            result,
            selection_for(
                config@,
                textmap::text_entries(*environment),
                disk@,
                cache@,
                scope@,
                limit,
                tile_limit,
            ),
        ) {
            (Ok(plan), Ok(selection)) => plan@ == work_plan(selection, cache@.images, dry_run),
            (Err(message), Err(expected)) => message@ == expected,
            _ => false,
        },
{
    let selection = world_cache_selection(
        config,
        environment,
        disk,
        cache,
        scope,
        limit,
        tile_limit,
    )?;
    let files = &cache.images;
    let thumbnail_ready = selected_world_cell_ready_count(&selection, files);
    let thumbnail_count = selection.cell_indices.len();
    let world_tile_ready = count_tiles(&selection.tile_entries, files);
    let world_tile_count = selection.tile_entries.len();
    assert(selection@.tiles.len() == world_tile_count);
    let estimated_remaining_bytes = estimated_world_cache_remaining_bytes(&selection, files);
    let world_lods = world_lod_plan_counts(&selection.tile_entries, files);
    Ok(
        WorldWorkPlan {
            thumbnail_count,
            thumbnail_ready,
            thumbnail_missing: thumbnail_count - thumbnail_ready,
            world_tile_count,
            world_tile_ready,
            world_tile_missing: world_tile_count - world_tile_ready,
            world_lods,
            estimated_remaining_bytes,
            status: selection.status,
            dry_run,
        },
    )
}

} // verus!
