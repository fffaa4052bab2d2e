//! What is proved of the work on the cache of the world: which tiles and thumbnails are wanted,
//! how they are counted, and how large the work is.

use crate::compute_options::ScopeView;
use crate::run::{CellOutcome, RunView, TileOutcome};
use crate::selection::SelectionView;
use crate::tiles::{CellView, TileView, WorldLodCacheStatus};
use crate::world::{WorldEdges, WorldLayout};
use crate::world_cache::WorldStatusView;
use crate::compute;
use crate::library_law;
use crate::paths;
use crate::report;
use crate::run;
use crate::selection;
use crate::text;
use crate::textmap;
use crate::tiles;
use crate::world_cache;
use vstd::prelude::*;

verus! {

// ---------------------------------------------------------------------------
// Places

/// A wallpaper is found where it stands first, and nowhere if it does not stand in the list.
pub proof fn law_wallpapers_are_found_where_they_stand_first(
    list: Seq<Seq<char>>,
    path: Seq<char>,
)
    requires
        list.len() <= usize::MAX,
    ensures
        match compute::first_place(list, path) {
            Some(index) => {
                &&& index < list.len()
                &&& list[index as int] == path
                &&& forall|i: int| 0 <= i < index ==> list[i] != path
            },
            None => !list.contains(path),
        },
    decreases list.len(),
{
    if list.len() > 0 {
        let fewer = list.drop_last();
        law_wallpapers_are_found_where_they_stand_first(fewer, path);
        match compute::first_place(fewer, path) {
            Some(index) => {
                assert(fewer[index as int] == list[index as int]);
                assert forall|i: int| 0 <= i < index implies list[i] != path by {
                    assert(fewer[i] == list[i]);
                }
            },
            None => {
                assert forall|i: int| 0 <= i < fewer.len() implies list[i] != path by {
                    assert(fewer[i] == list[i]);
                    assert(fewer.contains(fewer[i]));
                }
            },
        }
    }
}

/// A tile is as many cells wide as eight to the power of its level and one, as far as a size
/// can tell.
pub proof fn law_levels_grow_eightfold(lod: nat)
    ensures
        tiles::cells_at(8, 0) == 8,
        tiles::cells_at(8, lod + 1) == if tiles::cells_at(8, lod) * 8 <= usize::MAX {
            tiles::cells_at(8, lod) * 8
        } else {
            usize::MAX as nat
        },
        tiles::DEFAULT_WORLD_TILE_CELLS == 8,
{
}

// ---------------------------------------------------------------------------
// Surroundings

proof fn lemma_block_contains(lod: usize, edges: WorldEdges, row: usize, column: usize)
    ensures
        compute::block_keys(lod, edges).contains((lod, row, column)) <==> (edges.start_row <= row
            < edges.end_row && edges.start_column <= column < edges.end_column),
{
    let keys = compute::block_keys(lod, edges);
    let width = edges.end_column - edges.start_column;
    let height = edges.end_row - edges.start_row;
    if keys.contains((lod, row, column)) {
        let i = choose|i: int| 0 <= i < keys.len() && keys[i] == (lod, row, column);
        assert(keys[i] == compute::block_key(lod, edges, i));
        vstd::arithmetic::div_mod::lemma_fundamental_div_mod(i, width);
        vstd::arithmetic::div_mod::lemma_mod_bound(i, width);
        let q = i / width;
        assert(0 <= q < height) by (nonlinear_arith)
            requires
                0 <= i < height * width,
                width > 0,
                q == i / width,
        ;
    }
    if edges.start_row <= row < edges.end_row && edges.start_column <= column < edges.end_column {
        let r = row - edges.start_row;
        let c = column - edges.start_column;
        let i = r * width + c;
        assert(0 <= i < height * width) by (nonlinear_arith)
            requires
                0 <= r < height,
                0 <= c < width,
                i == r * width + c,
        ;
        vstd::arithmetic::div_mod::lemma_fundamental_div_mod_converse(i, width, r, c);
        assert(keys[i] == compute::block_key(lod, edges, i));
        assert(keys[i] == (lod, row, column));
    }
}

/// The tiles around a wallpaper are those of the grid that lie no more tiles away from the tile
/// of the wallpaper than the radius, in rows and in columns.
#[verifier::spinoff_prover]
pub proof fn law_surroundings_are_the_tiles_within_the_radius(
    sources: Seq<Seq<char>>,
    columns: usize,
    rows: usize,
    index: usize,
    radius: usize,
    lod: usize,
    row: usize,
    column: usize,
)
    requires
        index < sources.len() <= usize::MAX,
        sources.no_duplicates(),
        columns > 0,
        index / columns < rows,
    ensures
        compute::keys_around(sources, columns, rows, sources[index as int], radius, lod) matches Ok(
            keys,
        ) && ({
            let cells = tiles::cells_at(8, lod as nat) as int;
            let home_row = (index / columns) as int / cells;
            let home_column = (index % columns) as int / cells;
            keys.contains((lod, row, column)) <==> {
                &&& row * cells < rows
                &&& column * cells < columns
                &&& -radius <= row - home_row <= radius
                &&& -radius <= column - home_column <= radius
            }
        }),
{
    law_wallpapers_are_found_where_they_stand_first(sources, sources[index as int]);
    let cells = tiles::cells_at(8, lod as nat);
    tiles::lemma_cells_at(8, lod as nat);
    tiles::lemma_ceil_div(columns as nat, cells);
    tiles::lemma_ceil_div(rows as nat, cells);
    let wide = tiles::ceil_div(columns as nat, cells);
    let high = tiles::ceil_div(rows as nat, cells);
    lemma_in_grid(row as nat, rows as nat, cells);
    lemma_in_grid(column as nat, columns as nat, cells);
    let edges = compute::surroundings(columns, rows, index, radius, lod);
    lemma_block_contains(lod, edges, row, column);
    let home_row = (index / columns) as nat / cells;
    let home_column = (index % columns) as nat / cells;
    assert(home_row <= index / columns) by (nonlinear_arith)
        requires
            home_row == (index / columns) as nat / cells,
            cells >= 1,
    ;
    assert(home_column <= index % columns) by (nonlinear_arith)
        requires
            home_column == (index % columns) as nat / cells,
            cells >= 1,
    ;
}

proof fn lemma_in_grid(tile: nat, length: nat, cells: nat)
    requires
        cells > 0,
    ensures
        tile < tiles::ceil_div(length, cells) <==> tile * cells < length,
{
    tiles::lemma_ceil_div(length, cells);
    let count = tiles::ceil_div(length, cells);
    if tile < count {
        assert(tile * cells <= (count - 1) * cells) by (nonlinear_arith)
            requires
                tile <= count - 1,
                cells > 0,
        ;
    } else {
        assert(tile * cells >= count * cells) by (nonlinear_arith)
            requires
                tile >= count,
                cells > 0,
        ;
    }
}

/// The tiles around several wallpapers are those around any of them.
pub proof fn law_surroundings_join(
    sources: Seq<Seq<char>>,
    columns: usize,
    rows: usize,
    centers: Seq<Seq<char>>,
    center: Seq<char>,
    radius: usize,
    lod: usize,
    key: (usize, usize, usize),
)
    ensures
        match (
            compute::keys_around_all(sources, columns, rows, centers, radius, lod),
            compute::keys_around(sources, columns, rows, center, radius, lod),
        ) {
            (Ok(keys), Ok(more)) => compute::keys_around_all(
                sources,
                columns,
                rows,
                centers.push(center),
                radius,
                lod,
            ) matches Ok(all) && (all.contains(key) <==> keys.contains(key) || more.contains(key)),
            _ => compute::keys_around_all(
                sources,
                columns,
                rows,
                centers.push(center),
                radius,
                lod,
            ) is Err,
        },
{
    assert(centers.push(center).drop_last() =~= centers);
}

// ---------------------------------------------------------------------------
// Ways

/// A way takes the first level at which it needs sixteen tiles at most, and is refused only
/// where there is no such level.
pub proof fn law_ways_take_the_first_level_that_does(
    lods: Seq<WorldLodCacheStatus>,
    layout: WorldLayout,
    from: usize,
    to: usize,
    start: int,
)
    requires
        0 <= start <= lods.len(),
    ensures
        match compute::way_lod(lods, layout, from, to, start) {
            Ok(lod) => exists|i: int|
                #![trigger lods[i]]
                {
                    &&& start <= i < lods.len()
                    &&& lods[i].lod == lod
                    &&& compute::way_tiles(layout, from, to, lod).len() <= 16
                    &&& forall|k: int|
                        start <= k < i ==> compute::way_tiles(
                            layout,
                            from,
                            to,
                            (#[trigger] lods[k]).lod,
                        ).len() > 16
                },
            Err(_) => forall|k: int|
                start <= k < lods.len() ==> compute::way_tiles(
                    layout,
                    from,
                    to,
                    (#[trigger] lods[k]).lod,
                ).len() > 16,
        },
    decreases lods.len() - start,
{
    if start < lods.len() {
        if compute::way_tiles(layout, from, to, lods[start].lod).len() > 16 {
            law_ways_take_the_first_level_that_does(lods, layout, from, to, start + 1);
            match compute::way_lod(lods, layout, from, to, start + 1) {
                Ok(lod) => {
                    let i = choose|i: int|
                        #![trigger lods[i]]
                        {
                            &&& start + 1 <= i < lods.len()
                            &&& lods[i].lod == lod
                            &&& compute::way_tiles(layout, from, to, lod).len() <= 16
                            &&& forall|k: int|
                                start + 1 <= k < i ==> compute::way_tiles(
                                    layout,
                                    from,
                                    to,
                                    (#[trigger] lods[k]).lod,
                                ).len() > 16
                        };
                    assert(lods[i].lod == lod);
                },
                Err(_) => {},
            }
        } else {
            assert(lods[start].lod == lods[start].lod);
        }
    }
}

/// The tiles that several ways need are those that any of them needs.
pub proof fn law_ways_join(
    sources: Seq<Seq<char>>,
    columns: usize,
    lods: Seq<WorldLodCacheStatus>,
    routes: Seq<(Seq<char>, Seq<char>)>,
    from: Seq<char>,
    to: Seq<char>,
    key: (usize, usize, usize),
)
    ensures
        match (
            compute::keys_on_ways(sources, columns, lods, routes),
            compute::keys_on_way(sources, columns, lods, from, to),
        ) {
            (Ok(keys), Ok(more)) => compute::keys_on_ways(
                sources,
                columns,
                lods,
                routes.push((from, to)),
            ) matches Ok(all) && (all.contains(key) <==> keys.contains(key) || more.contains(key)),
            _ => compute::keys_on_ways(sources, columns, lods, routes.push((from, to))) is Err,
        },
{
    assert(routes.push((from, to)).drop_last() =~= routes);
}

// ---------------------------------------------------------------------------
// Thumbnails

/// A tile that does not reach beyond the grid covers the cells whose row and column lie within
/// its edges.
pub proof fn law_tiles_cover_what_lies_within_their_edges(
    columns: usize,
    tile: TileView,
    index: nat,
)
    requires
        columns > 0,
        tile.end_column <= columns,
    ensures
        compute::tile_covers(columns, tile, index as int) <==> {
            &&& tile.start_row <= index / columns as nat
            &&& index / (columns as nat) < tile.end_row
            &&& tile.start_column <= index % columns as nat
            &&& index % (columns as nat) < tile.end_column
        },
{
    let row = index as int / columns as int;
    let column = index as int % columns as int;
    vstd::arithmetic::div_mod::lemma_fundamental_div_mod(index as int, columns as int);
    assert(columns * row == row * columns) by (nonlinear_arith);
    if compute::tile_covers(columns, tile, index as int) {
        let (r, c) = choose|r: int, c: int|
            {
                &&& tile.start_row as int <= r < tile.end_row as int
                &&& tile.start_column as int <= c < tile.end_column as int
                &&& #[trigger] compute::cell_number(columns, r, c) == index as int
            };
        vstd::arithmetic::div_mod::lemma_fundamental_div_mod_converse(
            index as int,
            columns as int,
            r,
            c,
        );
    }
    if tile.start_row <= row < tile.end_row && tile.start_column <= column < tile.end_column {
        assert(compute::cell_number(columns, row, column) == index as int);
    }
}

/// The wanted thumbnails are those below the limit and those behind a tile that is not there,
/// each once and in ascending order.
pub proof fn law_wanted_thumbnails(
    cell_count: nat,
    columns: usize,
    limit: Option<usize>,
    tiles: Seq<TileView>,
    files: Seq<(Seq<char>, u64)>,
    index: usize,
)
    requires
        cell_count <= usize::MAX,
    ensures
        ({
            let wanted = compute::wanted_cells(cell_count, columns, limit, tiles, files);
            &&& wanted.contains(index) <==> index < cell_count && (limit matches Some(most)
                && index < most || exists|k: int|
                {
                    &&& 0 <= k < tiles.len()
                    &&& textmap::entries_get(files, tiles[k].image_path) is None
                    &&& #[trigger] compute::tile_covers(columns, tiles[k], index as int)
                })
            &&& forall|i: int, j: int| 0 <= i < j < wanted.len() ==> wanted[i] < wanted[j]
            &&& forall|i: int| 0 <= i < wanted.len() ==> (#[trigger] wanted[i]) < cell_count
        }),
    decreases cell_count,
{
    if cell_count > 0 {
        law_wanted_thumbnails((cell_count - 1) as nat, columns, limit, tiles, files, index);
        let fewer = compute::wanted_cells((cell_count - 1) as nat, columns, limit, tiles, files);
        let wanted = compute::wanted_cells(cell_count, columns, limit, tiles, files);
        if compute::wants_cell(columns, limit, tiles, files, cell_count - 1) {
            assert(wanted[fewer.len() as int] == cell_count - 1);
            if fewer.contains(index) {
                let i = choose|i: int| 0 <= i < fewer.len() && fewer[i] == index;
                assert(wanted[i] == index);
            }
        }
    }
}

// ---------------------------------------------------------------------------
// Selections

/// What is selected where nothing limits the work: everything.
pub proof fn law_unlimited_work_is_all(
    status: WorldStatusView,
    cells: Seq<CellView>,
    tiles: Seq<TileView>,
    files: Seq<(Seq<char>, u64)>,
)
    requires
        cells.len() <= usize::MAX,
    ensures
        selection::selected(status, cells, tiles, files, ScopeView::All, None, None) matches Ok(
            selection,
        ) && {
            &&& selection.cells == cells
            &&& selection.tiles == tiles
            &&& selection.indices.len() == cells.len()
            &&& forall|i: int|
                0 <= i < cells.len() ==> #[trigger] selection.indices[i] == i
            &&& !selection.limited
            &&& selection.status == status
        },
{
}

/// A limit on tiles keeps the first ones, up to that number. A limit on thumbnails alone makes
/// no tiles, and the first thumbnails. Work is limited where something is left out.
pub proof fn law_limits_keep_the_first(
    status: WorldStatusView,
    cells: Seq<CellView>,
    tiles: Seq<TileView>,
    files: Seq<(Seq<char>, u64)>,
    limit: Option<usize>,
    tile_limit: Option<usize>,
    index: usize,
)
    requires
        limit is Some || tile_limit is Some,
        cells.len() <= usize::MAX,
    ensures
        selection::selected(status, cells, tiles, files, ScopeView::All, limit, tile_limit)
            matches Ok(selection) && {
            let kept = selection.tiles;
            &&& kept.len() <= tiles.len()
            &&& forall|i: int| 0 <= i < kept.len() ==> #[trigger] kept[i] == tiles[i]
            &&& tile_limit matches Some(most) ==> kept.len() <= most && (kept.len() < most ==> kept
                == tiles)
            &&& tile_limit is None ==> kept.len() == 0
            &&& tile_limit is None ==> (selection.indices.contains(index) <==> index
                < limit->Some_0 && index < cells.len())
            &&& selection.limited <==> (limit matches Some(most) && most < cells.len()) || (
            tile_limit matches Some(most) && most < tiles.len())
        },
{
    let selection = selection::selected(
        status,
        cells,
        tiles,
        files,
        ScopeView::All,
        limit,
        tile_limit,
    )->Ok_0;
    law_wanted_thumbnails(
        cells.len(),
        status.columns,
        limit,
        selection.tiles,
        files,
        index,
    );
}

/// Ways and surroundings make no thumbnails by themselves, and only tiles of theirs, in their
/// order.
pub proof fn law_scopes_keep_their_tiles(
    status: WorldStatusView,
    cells: Seq<CellView>,
    tiles: Seq<TileView>,
    files: Seq<(Seq<char>, u64)>,
    routes: Seq<(Seq<char>, Seq<char>)>,
    centers: Seq<Seq<char>>,
    radius: usize,
    lod: usize,
    tile: TileView,
)
    ensures
        match compute::keys_on_ways(
            selection::cell_sources(cells),
            status.columns,
            status.world_lods,
            routes,
        ) {
            Ok(keys) => selection::selected(
                status,
                cells,
                tiles,
                files,
                ScopeView::Route { routes },
                None,
                None,
            ) matches Ok(selection) && selection.indices.len() == 0 && (selection.tiles.contains(
                tile,
            ) <==> tiles.contains(tile) && keys.contains(
                (tile.lod as usize, tile.tile_row as usize, tile.tile_column as usize),
            )),
            Err(message) => selection::selected(
                status,
                cells,
                tiles,
                files,
                ScopeView::Route { routes },
                None,
                None,
            ) == Err::<SelectionView, Seq<char>>(message),
        },
        match compute::keys_nearby(
            selection::cell_sources(cells),
            status.columns,
            status.rows,
            status.world_lods,
            centers,
            radius,
            lod,
        ) {
            Ok(keys) => selection::selected(
                status,
                cells,
                tiles,
                files,
                ScopeView::Neighborhood { centers, radius, lod },
                None,
                None,
            ) matches Ok(selection) && selection.indices.len() == 0 && (selection.tiles.contains(
                tile,
            ) <==> tiles.contains(tile) && keys.contains(
                (tile.lod as usize, tile.tile_row as usize, tile.tile_column as usize),
            )),
            Err(message) => selection::selected(
                status,
                cells,
                tiles,
                files,
                ScopeView::Neighborhood { centers, radius, lod },
                None,
                None,
            ) == Err::<SelectionView, Seq<char>>(message),
        },
{
    broadcast use vstd::seq_lib::group_filter_ensures;

    if let Ok(keys) = compute::keys_on_ways(
        selection::cell_sources(cells),
        status.columns,
        status.world_lods,
        routes,
    ) {
        lemma_filtered(tiles, keys, tile);
    }
    if let Ok(keys) = compute::keys_nearby(
        selection::cell_sources(cells),
        status.columns,
        status.rows,
        status.world_lods,
        centers,
        radius,
        lod,
    ) {
        lemma_filtered(tiles, keys, tile);
    }
}

proof fn lemma_filtered(tiles: Seq<TileView>, keys: Set<(usize, usize, usize)>, tile: TileView)
    ensures
        compute::tiles_with(tiles, keys).contains(tile) <==> tiles.contains(tile) && keys.contains(
            compute::key_of(tile),
        ),
    decreases tiles.len(),
{
    let keep = |tile: TileView| keys.contains(compute::key_of(tile));
    reveal(Seq::filter);
    if tiles.len() > 0 {
        let fewer = tiles.drop_last();
        lemma_filtered(fewer, keys, tile);
        let kept = compute::tiles_with(fewer, keys);
        if tiles.contains(tile) {
            let i = choose|i: int| 0 <= i < tiles.len() && tiles[i] == tile;
            if i < fewer.len() {
                assert(fewer[i] == tile);
            }
        }
        if fewer.contains(tile) {
            let i = choose|i: int| 0 <= i < fewer.len() && fewer[i] == tile;
            assert(tiles[i] == tile);
        }
        if keep(tiles.last()) {
            let more = kept.push(tiles.last());
            assert(more[kept.len() as int] == tiles.last());
            assert(tiles[tiles.len() - 1] == tiles.last());
            if kept.contains(tile) {
                let i = choose|i: int| 0 <= i < kept.len() && kept[i] == tile;
                assert(more[i] == tile);
            }
            if more.contains(tile) {
                let i = choose|i: int| 0 <= i < more.len() && more[i] == tile;
                if i < kept.len() {
                    assert(kept[i] == tile);
                }
            }
        }
    }
}

// ---------------------------------------------------------------------------
// Counts

/// The tiles of a level are counted, those that are there among them, and the images that are
/// there.
pub proof fn law_counts_are_of_those_there(
    tiles: Seq<TileView>,
    images: Seq<Seq<char>>,
    lod: nat,
    files: Seq<(Seq<char>, u64)>,
)
    ensures
        tiles::lod_count(tiles, lod) == tiles.filter(|tile: TileView| tile.lod == lod).len(),
        tiles::lod_ready(tiles, lod, files) == tiles.filter(
            |tile: TileView|
                tile.lod == lod && textmap::entries_get(files, tile.image_path) is Some,
        ).len(),
        tiles::stored_count(images, files) == images.filter(
            |image: Seq<char>| textmap::entries_get(files, image) is Some,
        ).len(),
    decreases tiles.len() + images.len(),
{
    reveal(Seq::filter);
    if tiles.len() > 0 {
        law_counts_are_of_those_there(tiles.drop_last(), Seq::empty(), lod, files);
    }
    if images.len() > 0 {
        law_counts_are_of_those_there(Seq::empty(), images.drop_last(), lod, files);
    }
}

/// The highest level is the level of a tile, and no tile stands higher.
pub proof fn law_top_is_the_highest_level(tiles: Seq<TileView>)
    requires
        tiles.len() > 0,
    ensures
        exists|i: int| 0 <= i < tiles.len() && (#[trigger] tiles[i]).lod == tiles::top_lod(tiles),
        forall|i: int| 0 <= i < tiles.len() ==> (#[trigger] tiles[i]).lod <= tiles::top_lod(tiles),
    decreases tiles.len(),
{
    let fewer = tiles.drop_last();
    if fewer.len() > 0 {
        law_top_is_the_highest_level(fewer);
        let i = choose|i: int|
            0 <= i < fewer.len() && (#[trigger] fewer[i]).lod == tiles::top_lod(fewer);
        assert(tiles[i] == fewer[i]);
        assert forall|i: int| 0 <= i < tiles.len() implies (#[trigger] tiles[i]).lod
            <= tiles::top_lod(tiles) by {
            if i < fewer.len() {
                assert(tiles[i] == fewer[i]);
            }
        }
    } else {
        assert(tiles::top_lod(fewer) == 0);
    }
    assert(tiles[tiles.len() - 1] == tiles.last());
}

/// The levels are told from the first to the highest, each with the tiles that are there and
/// those that are not.
pub proof fn law_levels_tell_their_tiles(
    tiles: Seq<TileView>,
    files: Seq<(Seq<char>, u64)>,
    lod: nat,
)
    requires
        0 < tiles.len() <= usize::MAX,
        tiles::top_lod(tiles) < usize::MAX,
        lod <= tiles::top_lod(tiles),
    ensures
        tiles::lod_statuses(tiles, files).len() == tiles::top_lod(tiles) + 1,
        ({
            let status = tiles::lod_statuses(tiles, files)[lod as int];
            &&& status.lod == lod
            &&& status.tile_ready == tiles.filter(
                |tile: TileView|
                    tile.lod == lod && textmap::entries_get(files, tile.image_path) is Some,
            ).len()
            &&& status.tile_ready + status.tile_missing == tiles.filter(
                |tile: TileView| tile.lod == lod,
            ).len()
        }),
{
    law_counts_are_of_those_there(tiles, Seq::empty(), lod, files);
    tiles::lemma_lod_ready(tiles, lod, files);
}

/// The plan of a level tells the tiles of the level, those that are there and those that are
/// not; levels without tiles have none.
pub proof fn law_plans_tell_the_levels_with_tiles(
    tiles: Seq<TileView>,
    files: Seq<(Seq<char>, u64)>,
    lods: nat,
    i: int,
)
    requires
        tiles.len() <= usize::MAX,
        lods <= usize::MAX,
        0 <= i < selection::plans_below(tiles, files, lods).len(),
    ensures
        ({
            let plan = selection::plans_below(tiles, files, lods)[i];
            &&& plan.lod < lods
            &&& plan.tile_count == tiles.filter(|tile: TileView| tile.lod == plan.lod).len()
            &&& plan.tile_count > 0
            &&& plan.tile_ready == tiles.filter(
                |tile: TileView|
                    tile.lod == plan.lod && textmap::entries_get(files, tile.image_path) is Some,
            ).len()
            &&& plan.tile_missing == plan.tile_count - plan.tile_ready
            &&& i > 0 ==> selection::plans_below(tiles, files, lods)[i - 1].lod < plan.lod
        }),
    decreases lods,
{
    if lods > 0 {
        let level = (lods - 1) as nat;
        let before = selection::plans_below(tiles, files, level);
        law_counts_are_of_those_there(tiles, Seq::empty(), level, files);
        tiles::lemma_lod_ready(tiles, level, files);
        if i < before.len() {
            law_plans_tell_the_levels_with_tiles(tiles, files, level, i);
        } else if i > 0 {
            law_plans_tell_the_levels_with_tiles(tiles, files, level, i - 1);
        }
    }
}

/// The plan of the work counts what is selected, and parts it into what is there and what is
/// not.
pub proof fn law_plan_counts_what_is_selected(
    selection: SelectionView,
    files: Seq<(Seq<char>, u64)>,
    dry_run: bool,
)
    ensures
        ({
            let plan = selection::work_plan(selection, files, dry_run);
            let stored = |image: Seq<char>| textmap::entries_get(files, image) is Some;
            &&& plan.thumbnail_count == selection.indices.len()
            &&& plan.thumbnail_ready == selection.indices.filter(
                |index: usize|
                    index < selection.cells.len() && textmap::entries_get(
                        files,
                        selection.cells[index as int].image_path,
                    ) is Some,
            ).len()
            &&& plan.thumbnail_ready + plan.thumbnail_missing == plan.thumbnail_count
            &&& plan.world_tile_count == selection.tiles.len()
            &&& plan.world_tile_ready == selection.tiles.filter(
                |tile: TileView| textmap::entries_get(files, tile.image_path) is Some,
            ).len()
            &&& plan.world_tile_ready + plan.world_tile_missing == plan.world_tile_count
            &&& plan.status == selection.status
            &&& plan.dry_run == dry_run
        }),
{
    lemma_ready_cells(selection.cells, selection.indices, files);
    lemma_ready_tiles(selection.tiles, files);
}

proof fn lemma_ready_cells(
    cells: Seq<CellView>,
    indices: Seq<usize>,
    files: Seq<(Seq<char>, u64)>,
)
    ensures
        selection::ready_cells(world_cache::cell_images(cells), indices, files).0 == indices.filter(
            |index: usize|
                index < cells.len() && textmap::entries_get(
                    files,
                    cells[index as int].image_path,
                ) is Some,
        ).len(),
        selection::ready_cells(world_cache::cell_images(cells), indices, files).0 <= indices.len(),
        selection::missing_cells(world_cache::cell_images(cells), indices, files)
            == indices.filter(
            |index: usize|
                index < cells.len() && textmap::entries_get(
                    files,
                    cells[index as int].image_path,
                ) is None,
        ).len(),
    decreases indices.len(),
{
    reveal(Seq::filter);
    if indices.len() > 0 {
        lemma_ready_cells(cells, indices.drop_last(), files);
    }
}

proof fn lemma_ready_tiles(tiles: Seq<TileView>, files: Seq<(Seq<char>, u64)>)
    ensures
        tiles::stored_count(world_cache::tile_images(tiles), files) == tiles.filter(
            |tile: TileView| textmap::entries_get(files, tile.image_path) is Some,
        ).len(),
        tiles::stored_count(world_cache::tile_images(tiles), files) <= tiles.len(),
    decreases tiles.len(),
{
    reveal(Seq::filter);
    if tiles.len() > 0 {
        lemma_ready_tiles(tiles.drop_last(), files);
        assert(world_cache::tile_images(tiles).drop_last() =~= world_cache::tile_images(
            tiles.drop_last(),
        ));
    }
}

// ---------------------------------------------------------------------------
// Sizes

/// An average is the least size that, so many times over, makes up the bytes; and at least one.
pub proof fn law_average_is_the_least_that_does(bytes: u64, count: u64, fallback: u64)
    ensures
        ({
            let average = selection::average_size(bytes, count, fallback);
            if count == 0 {
                average == fallback
            } else {
                average >= 1 && average * count >= bytes && (average > 1 ==> (average - 1) * count
                    < bytes)
            }
        }),
{
    if count > 0 {
        tiles::lemma_ceil_div(bytes as nat, count as nat);
    }
}

/// An image takes four bytes for each pixel, as far as 64 bits can tell.
pub proof fn law_pixels_take_four_bytes(width: u64, height: u64)
    ensures
        selection::pixel_bytes(width, height) == if width * height * 4 <= u64::MAX {
            width * height * 4
        } else {
            u64::MAX as int
        },
{
    assert(width * height >= 0) by (nonlinear_arith);
}

/// A thumbnail that is made later is estimated by those that are there: by their average, or
/// where there are none by the 589824 bytes of a square of 384 pixels.
pub proof fn law_thumbnails_are_estimated_by_those_there(
    cells: Seq<CellView>,
    indices: Seq<usize>,
    files: Seq<(Seq<char>, u64)>,
)
    requires
        indices.len() <= u64::MAX,
    ensures
        ({
            let images = world_cache::cell_images(cells);
            let (count, bytes) = selection::ready_cells(images, indices, files);
            let missing = indices.filter(
                |index: usize|
                    index < cells.len() && textmap::entries_get(
                        files,
                        cells[index as int].image_path,
                    ) is None,
            ).len();
            let estimate = selection::cell_estimate(images, indices, files);
            &&& missing == 0 ==> estimate == 0
            &&& count == 0 && missing * 589824 <= u64::MAX ==> estimate == missing * 589824
            &&& count > 0 && missing == 1 && bytes <= u64::MAX ==> estimate * count >= bytes
            &&& count > 0 && missing == 1 && 0 < bytes <= u64::MAX ==> (estimate - 1) * count
                < bytes
        }),
{
    let images = world_cache::cell_images(cells);
    lemma_ready_cells(cells, indices, files);
    let (count, bytes) = selection::ready_cells(images, indices, files);
    law_average_is_the_least_that_does(
        selection::at_most_u64(bytes),
        count as u64,
        selection::pixel_bytes(384, 384),
    );
    law_pixels_take_four_bytes(384, 384);
    let each = selection::average_size(
        selection::at_most_u64(bytes),
        count as u64,
        selection::pixel_bytes(384, 384),
    );
    let missing = selection::missing_cells(images, indices, files);
    if missing == 0 {
        assert(missing * each as nat == 0) by (nonlinear_arith)
            requires
                missing == 0,
        ;
    }
    if missing == 1 {
        assert(missing * each as nat == each) by (nonlinear_arith)
            requires
                missing == 1,
        ;
    }
    if count > 0 && bytes > 0 && bytes <= u64::MAX {
        assert(each == 1 ==> (each - 1) * count < bytes) by (nonlinear_arith)
            requires
                bytes > 0,
        ;
    }
}

/// A tile that is made later is estimated by the tiles of its level that are there: by their
/// average, or where there are none by the bytes of its pixels.
pub proof fn law_tiles_are_estimated_by_their_level(
    tiles: Seq<TileView>,
    tile: TileView,
    files: Seq<(Seq<char>, u64)>,
)
    requires
        tiles.len() <= u64::MAX,
    ensures
        ({
            let (count, bytes) = selection::ready_tiles(tiles, tile.lod, files);
            let estimate = selection::missing_tile_bytes(tiles, tile, files);
            &&& count == tiles.filter(
                |other: TileView|
                    other.lod == tile.lod && textmap::entries_get(files, other.image_path) is Some,
            ).len()
            &&& count == 0 ==> estimate == selection::tile_bytes(tile)
            &&& count > 0 && bytes <= u64::MAX ==> estimate * count >= bytes
            &&& count > 0 && bytes <= u64::MAX && estimate > 1 ==> (estimate - 1) * count < bytes
        }),
{
    let (count, bytes) = selection::ready_tiles(tiles, tile.lod, files);
    lemma_ready_level(tiles, tile.lod, files);
    law_average_is_the_least_that_does(
        selection::at_most_u64(bytes),
        count as u64,
        selection::tile_bytes(tile),
    );
}

proof fn lemma_ready_level(tiles: Seq<TileView>, lod: nat, files: Seq<(Seq<char>, u64)>)
    ensures
        selection::ready_tiles(tiles, lod, files).0 == tiles.filter(
            |other: TileView|
                other.lod == lod && textmap::entries_get(files, other.image_path) is Some,
        ).len(),
        selection::ready_tiles(tiles, lod, files).0 <= tiles.len(),
    decreases tiles.len(),
{
    reveal(Seq::filter);
    if tiles.len() > 0 {
        lemma_ready_level(tiles.drop_last(), lod, files);
    }
}

/// A tile of the first level has as many pixels as its cells, each a square of 384; a tile of a
/// higher level has that square for each tile of the level below that it touches.
pub proof fn law_tiles_are_as_large_as_their_pieces(tile: TileView)
    requires
        tile.start_column < tile.end_column <= usize::MAX,
        tile.start_row < tile.end_row <= usize::MAX,
        usize::MAX <= u64::MAX,
    ensures
        tile.lod == 0 ==> selection::tile_units(tile) == (
            (tile.end_column - tile.start_column) as u64,
            (tile.end_row - tile.start_row) as u64,
        ),
        tile.lod > 0 ==> ({
            let child = tiles::cells_at(8, (tile.lod - 1) as nat);
            let (wide, high) = selection::tile_units(tile);
            let first = tile.start_column / child;
            let top = tile.start_row / child;
            &&& (first + wide - 1) * child < tile.end_column <= (first + wide) * child
            &&& (top + high - 1) * child < tile.end_row <= (top + high) * child
        }),
{
    if tile.lod > 0 {
        let child = tiles::cells_at(8, (tile.lod - 1) as nat);
        tiles::lemma_cells_at(8, (tile.lod - 1) as nat);
        lemma_touched(tile.start_column, tile.end_column, child);
        lemma_touched(tile.start_row, tile.end_row, child);
    }
}

proof fn lemma_touched(start: nat, end: nat, child: nat)
    requires
        start < end <= usize::MAX,
        child > 0,
    ensures
        ({
            let first = start / child;
            let length = selection::span(first, tiles::ceil_div(end, child));
            (first + length - 1) * child < end <= (first + length) * child
        }),
{
    tiles::lemma_ceil_div(end, child);
    let first = start / child;
    let last = tiles::ceil_div(end, child);
    vstd::arithmetic::div_mod::lemma_fundamental_div_mod(start as int, child as int);
    assert(first < last) by (nonlinear_arith)
        requires
            child * first <= start,
            start < end,
            end <= last * child,
            child > 0,
    ;
}

// ---------------------------------------------------------------------------
// The running work

/// Each thumbnail counts once: as there, as made or as failed. A failure is told of with the
/// wallpaper and the reason.
pub proof fn law_each_thumbnail_counts_once(run: RunView, source: Seq<char>, outcome: CellOutcome)
    requires
        run.counts_failures(),
        run.failures.len() < usize::MAX,
        run.result.cell_skipped < usize::MAX,
        run.result.cell_generated < usize::MAX,
    ensures
        ({
            let after = run::after_cell(run, source, outcome);
            let (skipped, generated, failed): (int, int, int) = match outcome {
                CellOutcome::Ready => (1, 0, 0),
                CellOutcome::Made => (0, 1, 0),
                CellOutcome::Failed(_) => (0, 0, 1),
            };
            &&& after.result.cell_skipped == run.result.cell_skipped + skipped
            &&& after.result.cell_generated == run.result.cell_generated + generated
            &&& after.result.failed == run.result.failed + failed
            &&& after.result.tile_skipped == run.result.tile_skipped
            &&& after.result.tile_generated == run.result.tile_generated
            &&& after.result.limited == run.result.limited
            &&& after.counts_failures()
            &&& after.failures.take(run.failures.len() as int) == run.failures
            &&& outcome matches CellOutcome::Failed(message) ==> {
                &&& after.failures.last().kind == "cell"@
                &&& after.failures.last().item == source
                &&& after.failures.last().message == message@
            }
        }),
{
    let after = run::after_cell(run, source, outcome);
    assert(after.failures.take(run.failures.len() as int) =~= run.failures);
}

/// Each tile counts once: as there, as made or as failed. A tile that was made without some of
/// its wallpapers passes their failures on.
pub proof fn law_each_tile_counts_once(run: RunView, tile: TileView, outcome: TileOutcome)
    requires
        run.counts_failures(),
        run.failures.len() < usize::MAX,
        outcome matches TileOutcome::Made(more) ==> run.failures.len() + more@.len() <= usize::MAX,
        run.result.tile_skipped < usize::MAX,
        run.result.tile_generated < usize::MAX,
    ensures
        ({
            let after = run::after_tile(run, tile, outcome);
            let (skipped, generated, failed): (int, int, int) = match outcome {
                TileOutcome::Ready => (1, 0, 0),
                TileOutcome::Made(more) => (0, 1, more@.len() as int),
                TileOutcome::Failed(_) => (0, 0, 1),
            };
            &&& after.result.tile_skipped == run.result.tile_skipped + skipped
            &&& after.result.tile_generated == run.result.tile_generated + generated
            &&& after.result.failed == run.result.failed + failed
            &&& after.result.cell_skipped == run.result.cell_skipped
            &&& after.result.cell_generated == run.result.cell_generated
            &&& after.result.limited == run.result.limited
            &&& after.counts_failures()
            &&& after.failures.take(run.failures.len() as int) == run.failures
            &&& outcome matches TileOutcome::Made(more) ==> after.failures.skip(
                run.failures.len() as int,
            ) == report::failure_views(more@)
            &&& outcome matches TileOutcome::Failed(message) ==> {
                &&& after.failures.last().kind == "tile"@
                &&& after.failures.last().message == message@
            }
        }),
{
    let after = run::after_tile(run, tile, outcome);
    assert(after.failures.take(run.failures.len() as int) =~= run.failures);
    if let TileOutcome::Made(more) = outcome {
        assert(after.failures.skip(run.failures.len() as int) =~= report::failure_views(more@));
    }
}

// ---------------------------------------------------------------------------
// The work as a whole

/// The size of the work is the sum of its parts: of the thumbnails, and of each tile that is not
/// there.
pub proof fn law_work_adds_up(
    selection: SelectionView,
    files: Seq<(Seq<char>, u64)>,
    tiles: Seq<TileView>,
    n: nat,
)
    requires
        n < tiles.len(),
    ensures
        selection::missing_tiles_bytes(tiles, files, 0) == 0,
        selection::missing_tiles_bytes(tiles, files, n + 1) == selection::missing_tiles_bytes(
            tiles,
            files,
            n,
        ) + (if textmap::entries_get(files, tiles[n as int].image_path) is None {
            selection::missing_tile_bytes(tiles, tiles[n as int], files) as nat
        } else {
            0nat
        }),
        ({
            let cells = selection::cell_estimate(
                world_cache::cell_images(selection.cells),
                selection.indices,
                files,
            );
            let rest = selection::missing_tiles_bytes(
                selection.tiles,
                files,
                selection.tiles.len(),
            );
            cells + rest <= u64::MAX ==> selection::work_estimate(selection, files) == cells + rest
        }),
{
}

/// Surroundings are refused at a level that the cache does not have.
pub proof fn law_only_levels_that_are_there(
    sources: Seq<Seq<char>>,
    columns: usize,
    rows: usize,
    lods: Seq<WorldLodCacheStatus>,
    centers: Seq<Seq<char>>,
    radius: usize,
    lod: usize,
)
    ensures
        (forall|i: int| 0 <= i < lods.len() ==> (#[trigger] lods[i]).lod != lod)
            ==> compute::keys_nearby(sources, columns, rows, lods, centers, radius, lod) is Err,
        (exists|i: int| 0 <= i < lods.len() && (#[trigger] lods[i]).lod == lod)
            ==> compute::keys_nearby(sources, columns, rows, lods, centers, radius, lod)
            == compute::keys_around_all(sources, columns, rows, centers, radius, lod),
{
}

/// The plan for a whole library tells of it what the state of the cache tells.
pub proof fn law_plan_tells_the_state(status: WorldStatusView, dry_run: bool, i: int)
    requires
        0 <= i < status.world_lods.len(),
        status.world_lods[i].tile_ready + status.world_lods[i].tile_missing <= usize::MAX,
    ensures
        ({
            let plan = world_cache::plan_for(status, dry_run);
            &&& plan.thumbnail_count == status.library_count
            &&& plan.thumbnail_ready == status.cell_ready
            &&& plan.thumbnail_missing == status.cell_missing
            &&& plan.world_tile_ready == status.world_tile_ready
            &&& plan.world_tile_missing == status.world_tile_missing
            &&& plan.dry_run == dry_run
            &&& plan.world_lods.len() == status.world_lods.len()
            &&& plan.world_lods[i].lod == status.world_lods[i].lod
            &&& plan.world_lods[i].tile_ready == status.world_lods[i].tile_ready
            &&& plan.world_lods[i].tile_missing == status.world_lods[i].tile_missing
            &&& plan.world_lods[i].tile_count == status.world_lods[i].tile_ready
                + status.world_lods[i].tile_missing
        }),
{
}

/// A file is an image of a tile where it is a PNG in a directory of tiles of the cache.
#[verifier::spinoff_prover]
pub proof fn law_tile_images_are_told_by_their_place(
    cache_dir: Seq<char>,
    below: Seq<char>,
    stem: Seq<char>,
    extension: Seq<char>,
)
    requires
        cache_dir.len() > 0,
        library_law::is_file_name(below),
        stem.len() > 0,
        !stem.contains('/'),
        extension.len() > 0,
        !extension.contains('.'),
        !extension.contains('/'),
        library_law::is_file_name(stem + "."@ + extension),
    ensures
        world_cache::is_tile_image(
            cache_dir,
            cache_dir + "/"@ + below + "/"@ + (stem + "."@ + extension),
        ) <==> text::starts(below, "tiles-"@) && extension == "png"@,
{
    let name = stem + "."@ + extension;
    let inner = cache_dir + "/"@ + below;
    library_law::law_files_stand_in_their_directory(cache_dir, below, cache_dir);
    library_law::law_files_stand_in_their_directory(inner, name, cache_dir);
    library_law::lemma_last_dot(stem, extension);
    let dir = paths::parts_of(cache_dir);
    let parts = paths::parts_of(inner + "/"@ + name);
    assert(parts =~= dir.push(below).push(name));
    assert(parts.take(dir.len() as int) =~= dir);
    reveal_strlit(".");
    reveal_strlit("..");
    assert("."@.len() == 1 && ".."@.len() == 2);
    assert(name.skip(stem.len() as int + 1) =~= extension);
}

/// What fails is said with its name and the reason; what is there or is made is not spoken of, but
/// for the thumbnails that a tile had to do without.
pub proof fn law_failures_are_said(
    source: Seq<char>,
    tile: TileView,
    cell: CellOutcome,
    made: TileOutcome,
    i: int,
)
    ensures
        run::cell_notes(source, cell).len() == if cell is Failed {
            1int
        } else {
            0
        },
        cell matches CellOutcome::Failed(message) ==> run::cell_notes(source, cell)[0]
            == "muralctl: failed world cell thumbnail "@ + source + ": "@ + message@,
        made is Ready ==> run::tile_notes(tile, made).len() == 0,
        made matches TileOutcome::Made(failures) ==> {
            &&& run::tile_notes(tile, made).len() == failures@.len()
            &&& 0 <= i < failures@.len() ==> run::tile_notes(tile, made)[i]
                == "muralctl: skipped world cell thumbnail "@ + failures@[i].item@ + ": "@
                + failures@[i].message@
        },
        made matches TileOutcome::Failed(message) ==> {
            &&& run::tile_notes(tile, made).len() == 1
            &&& run::tile_notes(tile, made)[0] == "muralctl: failed world tile "@ + run::tile_name(tile)
                + ": "@ + message@
        },
{
}

} // verus!
