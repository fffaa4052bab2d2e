//! What of the world cache is to be made: the tiles that ways and surroundings need, and
//! the thumbnails behind them.

use crate::compute_options::WorldCacheRoute;
use crate::text::{concat2, concat3, copy_text, decimal_usize, text_eq};
use crate::textmap::TextMap;
use crate::tiles::{
    div_up, world_lod_tile_cells, TileView, WorldCellCacheEntry, WorldLodCacheStatus,
    WorldTileCacheEntry, DEFAULT_WORLD_TILE_CELLS,
};
use crate::world::{route_edges, world_tiles_for_route, WorldEdges, WorldLayout, WorldTile};
use vstd::arithmetic::div_mod::lemma_fundamental_div_mod_converse;
use crate::error;
use crate::text;
use crate::tiles;
use crate::world;
use crate::compute_options;
use crate::textmap;
use crate::world_cache;
use vstd::prelude::*;

verus! {

/// How many tiles a way may need.
pub const MAX_WORLD_ROUTE_TILES: usize = 16;

/// How many cells beside a way are in view.
pub const WORLD_ROUTE_MARGIN: usize = 1;

// ---------------------------------------------------------------------------
// Keys of tiles

/// The key of a tile: its level, row and column.
pub open spec fn key_of(tile: TileView) -> (usize, usize, usize) {
    (tile.lod as usize, tile.tile_row as usize, tile.tile_column as usize)
}

fn holds_key(keys: &Vec<(usize, usize, usize)>, key: (usize, usize, usize)) -> (found: bool)
    ensures
        found == keys@.contains(key),
{
    let mut i: usize = 0;
    while i < keys.len()
        invariant
            i <= keys@.len(),
            forall|k: int| 0 <= k < i ==> #[trigger] keys@[k] != key,
        decreases keys@.len() - i,
    {
        if keys[i].0 == key.0 && keys[i].1 == key.1 && keys[i].2 == key.2 {
            assert(keys@[i as int] == key);
            return true;
        }
        i = i + 1;
    }
    false
}

fn add_keys(keys: &mut Vec<(usize, usize, usize)>, more: &Vec<(usize, usize, usize)>)
    requires
        old(keys)@.no_duplicates(),
    ensures
        final(keys)@.no_duplicates(),
        final(keys)@.to_set() == old(keys)@.to_set().union(more@.to_set()),
{
    let ghost start = keys@;
    let mut i: usize = 0;
    assert(start.to_set() =~= start.to_set().union(more@.take(0).to_set()));
    while i < more.len()
        invariant
            i <= more@.len(),
            keys@.no_duplicates(),
            keys@.to_set() == start.to_set().union(more@.take(i as int).to_set()),
        decreases more@.len() - i,
    {
        let ghost before = keys@;
        let key = more[i];
        if !holds_key(keys, key) {
            keys.push(key);
        }
        proof {
            let now = keys@;
            assert forall|k: (usize, usize, usize)|
                #![auto]
                now.to_set().contains(k) == (before.to_set().contains(k) || k == key) by {
                if before.contains(key) {
                    assert(now == before);
                } else {
                    assert(now == before.push(key));
                    if before.contains(k) {
                        let n = choose|n: int| 0 <= n < before.len() && before[n] == k;
                        assert(now[n] == k);
                    }
                    assert(now[before.len() as int] == key);
                    if now.contains(k) && k != key {
                        let n = choose|n: int| 0 <= n < now.len() && now[n] == k;
                        assert(before[n] == k);
                    }
                }
            }
            let shorter = more@.take(i as int);
            let longer = more@.take(i + 1);
            assert(longer == shorter.push(key));
            assert forall|k: (usize, usize, usize)|
                #![auto]
                longer.to_set().contains(k) == (shorter.to_set().contains(k) || k == key) by {
                if shorter.contains(k) {
                    let n = choose|n: int| 0 <= n < shorter.len() && shorter[n] == k;
                    assert(longer[n] == k);
                }
                assert(longer[i as int] == key);
                if longer.contains(k) && k != key {
                    let n = choose|n: int| 0 <= n < longer.len() && longer[n] == k;
                    assert(shorter[n] == k);
                }
            }
            assert(now.to_set() =~= start.to_set().union(longer.to_set()));
        }
        i = i + 1;
    }
    assert(more@.take(i as int) =~= more@);
}

/// How many tiles a block of tiles has.
pub open spec fn block_len(edges: WorldEdges) -> nat {
    if edges.start_column >= edges.end_column || edges.start_row >= edges.end_row {
        0
    } else {
        ((edges.end_row - edges.start_row) * (edges.end_column - edges.start_column)) as nat
    }
}

/// The key of a tile in a block of tiles that is read row by row.
pub open spec fn block_key(lod: usize, edges: WorldEdges, i: int) -> (usize, usize, usize) {
    let width = edges.end_column - edges.start_column;
    (lod, (edges.start_row + i / width) as usize, (edges.start_column + i % width) as usize)
}

/// The keys of a block of tiles, row by row.
pub open spec fn block_keys(lod: usize, edges: WorldEdges) -> Seq<(usize, usize, usize)> {
    Seq::new(block_len(edges), |i: int| block_key(lod, edges, i))
}

fn keys_of_block(lod: usize, edges: WorldEdges) -> (keys: Vec<(usize, usize, usize)>)
    ensures
        keys@ == block_keys(lod, edges),
{
    let mut keys: Vec<(usize, usize, usize)> = Vec::new();
    if edges.start_column >= edges.end_column || edges.start_row >= edges.end_row {
        assert(keys@ =~= block_keys(lod, edges));
        return keys;
    }
    let ghost width = edges.end_column - edges.start_column;
    let mut row: usize = edges.start_row;
    while row < edges.end_row
        invariant
            edges.start_row <= row <= edges.end_row,
            width == edges.end_column - edges.start_column,
            width > 0,
            keys@.len() == (row - edges.start_row) * width,
            forall|i: int| 0 <= i < keys@.len() ==> #[trigger] keys@[i] == block_key(lod, edges, i),
        decreases edges.end_row - row,
    {
        let mut column: usize = edges.start_column;
        while column < edges.end_column
            invariant
                edges.start_row <= row < edges.end_row,
                edges.start_column <= column <= edges.end_column,
                width == edges.end_column - edges.start_column,
                width > 0,
                keys@.len() == (row - edges.start_row) * width + (column - edges.start_column),
                forall|i: int|
                    0 <= i < keys@.len() ==> #[trigger] keys@[i] == block_key(lod, edges, i),
            decreases edges.end_column - column,
        {
            proof {
                lemma_fundamental_div_mod_converse(
                    keys@.len() as int,
                    width,
                    row - edges.start_row,
                    column - edges.start_column,
                );
            }
            keys.push((lod, row, column));
            column = column + 1;
        }
        proof {
            assert((row - edges.start_row) * width + width == (row + 1 - edges.start_row) * width)
                by (nonlinear_arith);
        }
        row = row + 1;
    }
    assert(keys@ =~= block_keys(lod, edges));
    keys
}

// ---------------------------------------------------------------------------
// Wallpapers in the library

/// The wallpapers of thumbnails.
pub open spec fn sources_of(cells: Seq<WorldCellCacheEntry>) -> Seq<Seq<char>> {
    Seq::new(cells.len(), |i: int| cells[i].source_path@)
}

/// Where a path stands first in a list.
pub open spec fn first_place(list: Seq<Seq<char>>, path: Seq<char>) -> Option<usize>
    decreases list.len(),
{
    if list.len() == 0 {
        None
    } else {
        match first_place(list.drop_last(), path) {
            Some(index) => Some(index),
            None => if list.last() == path {
                Some((list.len() - 1) as usize)
            } else {
                None
            },
        }
    }
}

proof fn lemma_first_place_stays(list: Seq<Seq<char>>, path: Seq<char>, n: int)
    requires
        0 <= n <= list.len(),
        first_place(list.take(n), path) is Some,
    ensures
        first_place(list, path) == first_place(list.take(n), path),
    decreases list.len() - n,
{
    if n == list.len() {
        assert(list.take(n) =~= list);
    } else {
        assert(list.take(n + 1).drop_last() =~= list.take(n));
        lemma_first_place_stays(list, path, n + 1);
    }
}

/// Where a wallpaper stands in the library.
pub fn world_cell_index(cells: &Vec<WorldCellCacheEntry>, source_path: &str) -> (index: Option<
    usize,
>)
    ensures
        index == first_place(sources_of(cells@), source_path@),
        index matches Some(index) ==> index < cells@.len(),
{
    let ghost all = sources_of(cells@);
    let mut i: usize = 0;
    assert(all.take(0) =~= Seq::<Seq<char>>::empty());
    while i < cells.len()
        invariant
            i <= cells@.len(),
            all == sources_of(cells@),
            first_place(all.take(i as int), source_path@) is None,
        decreases cells@.len() - i,
    {
        proof {
            assert(all.take(i + 1).drop_last() =~= all.take(i as int));
            assert(all.take(i + 1).last() == cells@[i as int].source_path@);
        }
        if text_eq(cells[i].source_path.as_str(), source_path) {
            proof {
                lemma_first_place_stays(all, source_path@, i + 1);
            }
            return Some(i);
        }
        i = i + 1;
    }
    assert(all.take(i as int) =~= all);
    None
}

// ---------------------------------------------------------------------------
// Surroundings

/// The tiles of a level around the tile with a wallpaper, in columns and rows of tiles.
pub open spec fn surroundings(columns: usize, rows: usize, index: usize, radius: usize, lod: usize)
    -> WorldEdges {
    let cells = tiles::cells_at(DEFAULT_WORLD_TILE_CELLS as nat, lod as nat);
    let wide = tiles::ceil_div(columns as nat, cells);
    let high = tiles::ceil_div(rows as nat, cells);
    if wide == 0 || high == 0 {
        WorldEdges { start_column: 0, end_column: 0, start_row: 0, end_row: 0 }
    } else {
        let column = (index % columns) as nat / cells;
        let row = (index / columns) as nat / cells;
        WorldEdges {
            start_column: world::less(column, radius as nat),
            end_column: tiles::lesser(column + radius as nat + 1, wide) as usize,
            start_row: world::less(row, radius as nat),
            end_row: tiles::lesser(row + radius as nat + 1, high) as usize,
        }
    }
}

/// The keys of the tiles of a level around a wallpaper.
pub open spec fn keys_around(
    sources: Seq<Seq<char>>,
    columns: usize,
    rows: usize,
    center: Seq<char>,
    radius: usize,
    lod: usize,
) -> Result<Seq<(usize, usize, usize)>, Seq<char>> {
    match first_place(sources, center) {
        None => Err(
            "world cache neighborhood --center path is not in the library: "@ + center,
        ),
        Some(index) => Ok(block_keys(lod, surroundings(columns, rows, index, radius, lod))),
    }
}

fn end_of_reach(middle: usize, radius: usize, end: usize) -> (result: usize)
    ensures
        result == tiles::lesser(middle as nat + radius as nat + 1, end as nat),
{
    if middle >= end || end - middle <= radius {
        end
    } else {
        middle + radius + 1
    }
}

/// The keys of the tiles of a level around a wallpaper.
pub fn neighborhood_world_tile_keys_for_center(
    cells: &Vec<WorldCellCacheEntry>,
    columns: usize,
    rows: usize,
    center: &str,
    radius: usize,
    lod: usize,
) -> (result: Result<Vec<(usize, usize, usize)>, String>)
    ensures
        error::agrees_view(
            result,
            keys_around(sources_of(cells@), columns, rows, center@, radius, lod),
        ),
{
    let index = match world_cell_index(cells, center) {
        None => {
            return Err(
                concat2("world cache neighborhood --center path is not in the library: ", center),
            );
        },
        Some(index) => index,
    };
    proof {
        tiles::lemma_cells_at(DEFAULT_WORLD_TILE_CELLS as nat, lod as nat);
    }
    let tile_cells = world_lod_tile_cells(DEFAULT_WORLD_TILE_CELLS, lod);
    let wide = div_up(columns, tile_cells);
    let high = div_up(rows, tile_cells);
    proof {
        tiles::lemma_ceil_div(columns as nat, tile_cells as nat);
    }
    if wide == 0 || high == 0 {
        let edges = WorldEdges { start_column: 0, end_column: 0, start_row: 0, end_row: 0 };
        return Ok(keys_of_block(lod, edges));
    }
    let column: usize = (index % columns) / tile_cells;
    let row: usize = (index / columns) / tile_cells;
    let edges = WorldEdges {
        start_column: column.saturating_sub(radius),
        end_column: end_of_reach(column, radius, wide),
        start_row: row.saturating_sub(radius),
        end_row: end_of_reach(row, radius, high),
    };
    Ok(keys_of_block(lod, edges))
}

/// The keys of the tiles of a level around some wallpapers.
pub open spec fn keys_around_all(
    sources: Seq<Seq<char>>,
    columns: usize,
    rows: usize,
    centers: Seq<Seq<char>>,
    radius: usize,
    lod: usize,
) -> Result<Set<(usize, usize, usize)>, Seq<char>>
    decreases centers.len(),
{
    if centers.len() == 0 {
        Ok(Set::empty())
    } else {
        match keys_around_all(sources, columns, rows, centers.drop_last(), radius, lod) {
            Err(message) => Err(message),
            Ok(keys) => match keys_around(sources, columns, rows, centers.last(), radius, lod) {
                Err(message) => Err(message),
                Ok(more) => Ok(keys.union(more.to_set())),
            },
        }
    }
}

proof fn lemma_around_error_stays(
    sources: Seq<Seq<char>>,
    columns: usize,
    rows: usize,
    centers: Seq<Seq<char>>,
    radius: usize,
    lod: usize,
    n: int,
)
    requires
        0 <= n <= centers.len(),
        keys_around_all(sources, columns, rows, centers.take(n), radius, lod) is Err,
    ensures
        keys_around_all(sources, columns, rows, centers, radius, lod) == keys_around_all(
            sources,
            columns,
            rows,
            centers.take(n),
            radius,
            lod,
        ),
    decreases centers.len() - n,
{
    if n == centers.len() {
        assert(centers.take(n) =~= centers);
    } else {
        assert(centers.take(n + 1).drop_last() =~= centers.take(n));
        lemma_around_error_stays(sources, columns, rows, centers, radius, lod, n + 1);
    }
}

/// Whether a level is among those of the cache.
pub open spec fn has_lod(lods: Seq<WorldLodCacheStatus>, lod: usize) -> bool {
    exists|i: int| 0 <= i < lods.len() && (#[trigger] lods[i]).lod == lod
}

/// The keys of the tiles of a level around some wallpapers, if the cache has the level.
pub open spec fn keys_nearby(
    sources: Seq<Seq<char>>,
    columns: usize,
    rows: usize,
    lods: Seq<WorldLodCacheStatus>,
    centers: Seq<Seq<char>>,
    radius: usize,
    lod: usize,
) -> Result<Set<(usize, usize, usize)>, Seq<char>> {
    if !has_lod(lods, lod) {
        Err(
            "world cache neighborhood LOD "@ + text::decimal_text(lod as nat) + " is not indexed"@,
        )
    } else {
        keys_around_all(sources, columns, rows, centers, radius, lod)
    }
}

/// Whether a result lists the expected keys, each once, or is an error with the expected
/// message.
pub open spec fn is_keys(
    result: Result<Vec<(usize, usize, usize)>, String>,
    expected: Result<Set<(usize, usize, usize)>, Seq<char>>,
) -> bool {
    match (result, expected) {
        (Ok(keys), Ok(wanted)) => keys@.no_duplicates() && keys@.to_set() == wanted,
        (Err(message), Err(wanted)) => message@ == wanted,
        _ => false,
    }
}

/// The keys of the tiles of a level around some wallpapers.
pub fn neighborhood_world_tile_keys(
    cells: &Vec<WorldCellCacheEntry>,
    columns: usize,
    rows: usize,
    lods: &Vec<WorldLodCacheStatus>,
    centers: &Vec<String>,
    radius: usize,
    lod: usize,
) -> (result: Result<Vec<(usize, usize, usize)>, String>)
    ensures
        is_keys(
            result,
            keys_nearby(
                sources_of(cells@),
                columns,
                rows,
                lods@,
                text::texts(centers@),
                radius,
                lod,
            ),
        ),
{
    let ghost sources = sources_of(cells@);
    let ghost all = text::texts(centers@);
    let mut known = false;
    let mut i: usize = 0;
    while i < lods.len()
        invariant
            i <= lods@.len(),
            known == exists|k: int| 0 <= k < i && (#[trigger] lods@[k]).lod == lod,
        decreases lods@.len() - i,
    {
        if lods[i].lod == lod {
            assert(lods@[i as int].lod == lod);
            known = true;
        }
        i = i + 1;
    }
    if !known {
        return Err(
            concat3(
                "world cache neighborhood LOD ",
                decimal_usize(lod).as_str(),
                " is not indexed",
            ),
        );
    }
    let mut keys: Vec<(usize, usize, usize)> = Vec::new();
    let mut n: usize = 0;
    assert(all.take(0) =~= Seq::<Seq<char>>::empty());
    assert(keys@.to_set() =~= Set::<(usize, usize, usize)>::empty());
    while n < centers.len()
        invariant
            n <= centers@.len(),
            sources == sources_of(cells@),
            all == text::texts(centers@),
            has_lod(lods@, lod),
            keys@.no_duplicates(),
            keys_around_all(sources, columns, rows, all.take(n as int), radius, lod) == Ok::<
                Set<(usize, usize, usize)>,
                Seq<char>,
            >(keys@.to_set()),
        decreases centers@.len() - n,
    {
        proof {
            assert(all.take(n + 1).drop_last() =~= all.take(n as int));
            assert(all.take(n + 1).last() == centers@[n as int]@);
        }
        match neighborhood_world_tile_keys_for_center(
            cells,
            columns,
            rows,
            centers[n].as_str(),
            radius,
            lod,
        ) {
            Err(message) => {
                proof {
                    lemma_around_error_stays(sources, columns, rows, all, radius, lod, n + 1);
                }
                return Err(message);
            },
            Ok(more) => {
                add_keys(&mut keys, &more);
            },
        }
        n = n + 1;
    }
    assert(all.take(n as int) =~= all);
    Ok(keys)
}

// ---------------------------------------------------------------------------
// Ways

/// The tiles of a way at a level.
pub open spec fn way_tiles(layout: WorldLayout, from: usize, to: usize, lod: usize) -> Seq<
    WorldTile,
> {
    match world::route_cells(layout, from, to, WORLD_ROUTE_MARGIN) {
        None => Seq::empty(),
        Some(edges) => world::tiles_on_route(
            layout,
            from,
            to,
            tiles::cells_at(DEFAULT_WORLD_TILE_CELLS as nat, lod as nat) as usize,
            edges,
        ),
    }
}

fn tiles_of_way(layout: WorldLayout, from_index: usize, to_index: usize, lod: usize) -> (tiles: Vec<
    WorldTile,
>)
    requires
        from_index < layout.entry_count ==> layout.columns > 0,
    ensures
        tiles@ == way_tiles(layout, from_index, to_index, lod),
{
    match route_edges(layout, from_index, to_index, WORLD_ROUTE_MARGIN) {
        None => Vec::new(),
        Some(edges) => world_tiles_for_route(
            layout,
            from_index,
            to_index,
            world_lod_tile_cells(DEFAULT_WORLD_TILE_CELLS, lod),
            edges,
        ),
    }
}

/// The first level at which a way needs few enough tiles, from one level on.
pub open spec fn way_lod(
    lods: Seq<WorldLodCacheStatus>,
    layout: WorldLayout,
    from: usize,
    to: usize,
    index: int,
) -> Result<usize, Seq<char>>
    decreases lods.len() - index,
{
    if index >= lods.len() {
        Err(
            "world cache route exceeds "@ + text::decimal_text(MAX_WORLD_ROUTE_TILES as nat)
                + " tile(s) at every available LOD"@,
        )
    } else if way_tiles(layout, from, to, lods[index].lod).len() <= MAX_WORLD_ROUTE_TILES {
        Ok(lods[index].lod)
    } else {
        way_lod(lods, layout, from, to, index + 1)
    }
}

/// The first level at which a way needs few enough tiles.
pub fn select_world_route_lod(
    lods: &Vec<WorldLodCacheStatus>,
    layout: WorldLayout,
    from_index: usize,
    to_index: usize,
) -> (result: Result<usize, String>)
    requires
        from_index < layout.entry_count ==> layout.columns > 0,
    ensures
        error::agrees(result, way_lod(lods@, layout, from_index, to_index, 0)),
{
    let mut i: usize = 0;
    while i < lods.len()
        invariant
            i <= lods@.len(),
            from_index < layout.entry_count ==> layout.columns > 0,
            way_lod(lods@, layout, from_index, to_index, 0) == way_lod(
                lods@,
                layout,
                from_index,
                to_index,
                i as int,
            ),
        decreases lods@.len() - i,
    {
        let lod = lods[i].lod;
        if tiles_of_way(layout, from_index, to_index, lod).len() <= MAX_WORLD_ROUTE_TILES {
            return Ok(lod);
        }
        i = i + 1;
    }
    Err(
        concat3(
            "world cache route exceeds ",
            decimal_usize(MAX_WORLD_ROUTE_TILES).as_str(),
            " tile(s) at every available LOD",
        ),
    )
}

/// The keys of tiles of a level.
pub open spec fn keys_of_tiles(lod: usize, tiles: Seq<WorldTile>) -> Seq<(usize, usize, usize)> {
    Seq::new(tiles.len(), |i: int| (lod, tiles[i].row, tiles[i].column))
}

/// The keys of the tiles of a way at a level.
pub fn route_tile_keys(layout: WorldLayout, from_index: usize, to_index: usize, lod: usize) -> (keys:
    Vec<(usize, usize, usize)>)
    requires
        from_index < layout.entry_count ==> layout.columns > 0,
    ensures
        keys@ == keys_of_tiles(lod, way_tiles(layout, from_index, to_index, lod)),
{
    let tiles = tiles_of_way(layout, from_index, to_index, lod);
    let ghost wanted = keys_of_tiles(lod, tiles@);
    let mut keys: Vec<(usize, usize, usize)> = Vec::new();
    let mut i: usize = 0;
    while i < tiles.len()
        invariant
            i <= tiles@.len(),
            wanted == keys_of_tiles(lod, tiles@),
            keys@ == wanted.take(i as int),
        decreases tiles@.len() - i,
    {
        keys.push((lod, tiles[i].row, tiles[i].column));
        assert(keys@ =~= wanted.take(i + 1));
        i = i + 1;
    }
    assert(keys@ =~= wanted);
    keys
}

/// The keys of the tiles that a way needs.
pub open spec fn keys_on_way(
    sources: Seq<Seq<char>>,
    columns: usize,
    lods: Seq<WorldLodCacheStatus>,
    from: Seq<char>,
    to: Seq<char>,
) -> Result<Seq<(usize, usize, usize)>, Seq<char>> {
    match first_place(sources, from) {
        None => Err("world cache route --from path is not in the library: "@ + from),
        Some(start) => match first_place(sources, to) {
            None => Err("world cache route --to path is not in the library: "@ + to),
            Some(end) => {
                let layout = world::layout_for(sources.len() as usize, columns);
                match way_lod(lods, layout, start, end, 0) {
                    Err(message) => Err(message),
                    Ok(lod) => Ok(keys_of_tiles(lod, way_tiles(layout, start, end, lod))),
                }
            },
        },
    }
}

/// The keys of the tiles that a way needs, at the first level at which they are few
/// enough.
pub fn route_world_tile_keys_for_pair(
    cells: &Vec<WorldCellCacheEntry>,
    columns: usize,
    lods: &Vec<WorldLodCacheStatus>,
    from: &str,
    to: &str,
) -> (result: Result<Vec<(usize, usize, usize)>, String>)
    ensures
        error::agrees_view(result, keys_on_way(sources_of(cells@), columns, lods@, from@, to@)),
{
    assert(sources_of(cells@).len() == cells@.len());
    let from_index = match world_cell_index(cells, from) {
        None => {
            return Err(concat2("world cache route --from path is not in the library: ", from));
        },
        Some(index) => index,
    };
    let to_index = match world_cell_index(cells, to) {
        None => {
            return Err(concat2("world cache route --to path is not in the library: ", to));
        },
        Some(index) => index,
    };
    let layout = WorldLayout::new(cells.len(), columns);
    let lod = select_world_route_lod(lods, layout, from_index, to_index)?;
    Ok(route_tile_keys(layout, from_index, to_index, lod))
}

/// The keys of the tiles that some ways need.
pub open spec fn keys_on_ways(
    sources: Seq<Seq<char>>,
    columns: usize,
    lods: Seq<WorldLodCacheStatus>,
    routes: Seq<(Seq<char>, Seq<char>)>,
) -> Result<Set<(usize, usize, usize)>, Seq<char>>
    decreases routes.len(),
{
    if routes.len() == 0 {
        Ok(Set::empty())
    } else {
        match keys_on_ways(sources, columns, lods, routes.drop_last()) {
            Err(message) => Err(message),
            Ok(keys) => match keys_on_way(
                sources,
                columns,
                lods,
                routes.last().0,
                routes.last().1,
            ) {
                Err(message) => Err(message),
                Ok(more) => Ok(keys.union(more.to_set())),
            },
        }
    }
}

proof fn lemma_ways_error_stays(
    sources: Seq<Seq<char>>,
    columns: usize,
    lods: Seq<WorldLodCacheStatus>,
    routes: Seq<(Seq<char>, Seq<char>)>,
    n: int,
)
    requires
        0 <= n <= routes.len(),
        keys_on_ways(sources, columns, lods, routes.take(n)) is Err,
    ensures
        keys_on_ways(sources, columns, lods, routes) == keys_on_ways(
            sources,
            columns,
            lods,
            routes.take(n),
        ),
    decreases routes.len() - n,
{
    if n == routes.len() {
        assert(routes.take(n) =~= routes);
    } else {
        assert(routes.take(n + 1).drop_last() =~= routes.take(n));
        lemma_ways_error_stays(sources, columns, lods, routes, n + 1);
    }
}

/// The keys of the tiles that some ways need.
pub fn route_world_tile_keys(
    cells: &Vec<WorldCellCacheEntry>,
    columns: usize,
    lods: &Vec<WorldLodCacheStatus>,
    routes: &Vec<WorldCacheRoute>,
) -> (result: Result<Vec<(usize, usize, usize)>, String>)
    ensures
        is_keys(
            result,
            keys_on_ways(sources_of(cells@), columns, lods@, compute_options::route_views(routes@)),
        ),
{
    let ghost sources = sources_of(cells@);
    let ghost all = compute_options::route_views(routes@);
    let mut keys: Vec<(usize, usize, usize)> = Vec::new();
    let mut n: usize = 0;
    assert(all.take(0) =~= Seq::<(Seq<char>, Seq<char>)>::empty());
    assert(keys@.to_set() =~= Set::<(usize, usize, usize)>::empty());
    while n < routes.len()
        invariant
            n <= routes@.len(),
            sources == sources_of(cells@),
            all == compute_options::route_views(routes@),
            keys@.no_duplicates(),
            keys_on_ways(sources, columns, lods@, all.take(n as int)) == Ok::<
                Set<(usize, usize, usize)>,
                Seq<char>,
            >(keys@.to_set()),
        decreases routes@.len() - n,
    {
        proof {
            assert(all.take(n + 1).drop_last() =~= all.take(n as int));
            assert(all.take(n + 1).last() == (routes@[n as int].from@, routes@[n as int].to@));
        }
        match route_world_tile_keys_for_pair(
            cells,
            columns,
            lods,
            routes[n].from.as_str(),
            routes[n].to.as_str(),
        ) {
            Err(message) => {
                proof {
                    lemma_ways_error_stays(sources, columns, lods@, all, n + 1);
                }
                return Err(message);
            },
            Ok(more) => {
                add_keys(&mut keys, &more);
            },
        }
        n = n + 1;
    }
    assert(all.take(n as int) =~= all);
    Ok(keys)
}

// ---------------------------------------------------------------------------
// Tiles with keys

/// The tiles with some keys, in their order.
pub open spec fn tiles_with(tiles: Seq<TileView>, keys: Set<(usize, usize, usize)>) -> Seq<
    TileView,
> {
    tiles.filter(|tile: TileView| keys.contains(key_of(tile)))
}

fn copy_tile(tile: &WorldTileCacheEntry) -> (copy: WorldTileCacheEntry)
    ensures
        copy@ == tile@,
{
    WorldTileCacheEntry {
        lod: tile.lod,
        tile_column: tile.tile_column,
        tile_row: tile.tile_row,
        start_column: tile.start_column,
        end_column: tile.end_column,
        start_row: tile.start_row,
        end_row: tile.end_row,
        image_path: copy_text(tile.image_path.as_str()),
    }
}

fn keep_tiles(tiles: &Vec<WorldTileCacheEntry>, keys: &Vec<(usize, usize, usize)>) -> (kept: Vec<
    WorldTileCacheEntry,
>)
    ensures
        tiles::tile_views(kept@) == tiles_with(tiles::tile_views(tiles@), keys@.to_set()),
{
    let ghost all = tiles::tile_views(tiles@);
    let ghost wanted = keys@.to_set();
    let ghost keep = |tile: TileView| wanted.contains(key_of(tile));
    let mut kept: Vec<WorldTileCacheEntry> = Vec::new();
    let mut i: usize = 0;
    proof {
        reveal(Seq::filter);
        assert(all.take(0) =~= Seq::<TileView>::empty());
        assert(tiles::tile_views(kept@) =~= all.take(0).filter(keep));
    }
    while i < tiles.len()
        invariant
            i <= tiles@.len(),
            all == tiles::tile_views(tiles@),
            wanted == keys@.to_set(),
            keep == (|tile: TileView| wanted.contains(key_of(tile))),
            tiles::tile_views(kept@) == all.take(i as int).filter(keep),
        decreases tiles@.len() - i,
    {
        proof {
            reveal(Seq::filter);
            assert(all.take(i + 1).drop_last() =~= all.take(i as int));
            assert(all.take(i + 1).last() == tiles@[i as int]@);
        }
        let key = (tiles[i].lod, tiles[i].tile_row, tiles[i].tile_column);
        assert(key == key_of(tiles@[i as int]@));
        if holds_key(keys, key) {
            let ghost before = tiles::tile_views(kept@);
            kept.push(copy_tile(&tiles[i]));
            assert(tiles::tile_views(kept@) =~= before.push(tiles@[i as int]@));
        }
        i = i + 1;
    }
    assert(all.take(i as int) =~= all);
    kept
}

/// The tiles that some ways need.
pub fn route_world_tile_entries(
    cells: &Vec<WorldCellCacheEntry>,
    columns: usize,
    lods: &Vec<WorldLodCacheStatus>,
    tiles: &Vec<WorldTileCacheEntry>,
    routes: &Vec<WorldCacheRoute>,
) -> (result: Result<Vec<WorldTileCacheEntry>, String>)
    ensures
        world_cache::is_tiles(
            result,
            match keys_on_ways(sources_of(cells@), columns, lods@, compute_options::route_views(routes@)) {
                Err(message) => Err(message),
                Ok(keys) => Ok(tiles_with(tiles::tile_views(tiles@), keys)),
            },
        ),
{
    let needed = route_world_tile_keys(cells, columns, lods, routes)?;
    Ok(keep_tiles(tiles, &needed))
}

/// The tiles of a level around some wallpapers.
pub fn neighborhood_world_tile_entries(
    cells: &Vec<WorldCellCacheEntry>,
    columns: usize,
    rows: usize,
    lods: &Vec<WorldLodCacheStatus>,
    tiles: &Vec<WorldTileCacheEntry>,
    centers: &Vec<String>,
    radius: usize,
    lod: usize,
) -> (result: Result<Vec<WorldTileCacheEntry>, String>)
    ensures
        world_cache::is_tiles(
            result,
            match keys_nearby(
                sources_of(cells@),
                columns,
                rows,
                lods@,
                text::texts(centers@),
                radius,
                lod,
            ) {
                Err(message) => Err(message),
                Ok(keys) => Ok(tiles_with(tiles::tile_views(tiles@), keys)),
            },
        ),
{
    let needed = neighborhood_world_tile_keys(cells, columns, rows, lods, centers, radius, lod)?;
    Ok(keep_tiles(tiles, &needed))
}

// ---------------------------------------------------------------------------
// Thumbnails behind tiles

/// The number of a cell that lies in a row and a column.
pub open spec fn cell_number(columns: usize, row: int, column: int) -> int {
    row * columns + column
}

/// Whether a cell is one of those between two rows and two columns.
pub open spec fn in_cells(
    columns: usize,
    start_row: int,
    end_row: int,
    start_column: int,
    end_column: int,
    index: int,
) -> bool {
    exists|row: int, column: int|
        {
            &&& start_row <= row < end_row
            &&& start_column <= column < end_column
            &&& #[trigger] cell_number(columns, row, column) == index
        }
}

/// Whether a tile covers a cell.
pub open spec fn tile_covers(columns: usize, tile: TileView, index: int) -> bool {
    in_cells(
        columns,
        tile.start_row as int,
        tile.end_row as int,
        tile.start_column as int,
        tile.end_column as int,
        index,
    )
}

/// Whether the thumbnail of a cell is wanted: it is one of the first, or behind a tile
/// that is not there yet.
pub open spec fn wants_cell(
    columns: usize,
    limit: Option<usize>,
    tiles: Seq<TileView>,
    files: Seq<(Seq<char>, u64)>,
    index: int,
) -> bool {
    ||| limit is Some && index < limit->Some_0
    ||| exists|k: int|
        {
            &&& 0 <= k < tiles.len()
            &&& textmap::entries_get(files, tiles[k].image_path) is None
            &&& #[trigger] tile_covers(columns, tiles[k], index)
        }
}

/// The numbers of the wanted thumbnails, in ascending order.
pub open spec fn wanted_cells(
    cell_count: nat,
    columns: usize,
    limit: Option<usize>,
    tiles: Seq<TileView>,
    files: Seq<(Seq<char>, u64)>,
) -> Seq<usize>
    decreases cell_count,
{
    if cell_count == 0 {
        Seq::empty()
    } else {
        let fewer = wanted_cells((cell_count - 1) as nat, columns, limit, tiles, files);
        if wants_cell(columns, limit, tiles, files, cell_count - 1) {
            fewer.push((cell_count - 1) as usize)
        } else {
            fewer
        }
    }
}

fn mark_tile(marks: &mut Vec<bool>, columns: usize, tile: &WorldTileCacheEntry)
    ensures
        final(marks)@.len() == old(marks)@.len(),
        forall|i: int|
            0 <= i < old(marks)@.len() ==> (#[trigger] final(marks)@[i] <==> old(marks)@[i]
                || tile_covers(columns, tile@, i)),
{
    let ghost start = marks@;
    let ghost r0 = tile.start_row as int;
    let ghost c0 = tile.start_column as int;
    let ghost c1 = tile.end_column as int;
    let mut row: usize = tile.start_row;
    while row < tile.end_row
        invariant
            r0 == tile.start_row,
            c0 == tile.start_column,
            c1 == tile.end_column,
            r0 <= row,
            r0 <= tile.end_row ==> row <= tile.end_row,
            r0 > tile.end_row ==> row == r0,
            marks@.len() == start.len(),
            forall|i: int|
                0 <= i < start.len() ==> (#[trigger] marks@[i] <==> start[i] || in_cells(
                    columns,
                    r0,
                    row as int,
                    c0,
                    c1,
                    i,
                )),
        decreases tile.end_row - row,
    {
        let ghost before = marks@;
        let mut column: usize = tile.start_column;
        while column < tile.end_column
            invariant
                r0 == tile.start_row,
                c0 == tile.start_column,
                c1 == tile.end_column,
                r0 <= row < tile.end_row,
                c0 <= column,
                c0 <= c1 ==> column <= c1,
                c0 > c1 ==> column == c0,
                marks@.len() == before.len(),
                forall|i: int|
                    0 <= i < before.len() ==> (#[trigger] marks@[i] <==> before[i] || in_cells(
                        columns,
                        row as int,
                        row + 1,
                        c0,
                        column as int,
                        i,
                    )),
            decreases tile.end_column - column,
        {
            let ghost last = marks@;
            let number = match row.checked_mul(columns) {
                Some(first) => first.checked_add(column),
                None => None,
            };
            if let Some(number) = number {
                if number < marks.len() {
                    marks.set(number, true);
                }
            }
            proof {
                let here = cell_number(columns, row as int, column as int);
                assert(row * columns >= 0) by (nonlinear_arith);
                assert(marks.len() == before.len());
                assert forall|i: int| 0 <= i < before.len() implies (#[trigger] marks@[i] <==> before[i]
                    || in_cells(columns, row as int, row + 1, c0, column + 1, i)) by {
                    assert(last[i] <==> before[i] || in_cells(
                        columns,
                        row as int,
                        row + 1,
                        c0,
                        column as int,
                        i,
                    ));
                    assert(marks@[i] <==> last[i] || i == here);
                    if i == here {
                        assert(cell_number(columns, row as int, column as int) == i);
                        assert(in_cells(columns, row as int, row + 1, c0, column + 1, i));
                    }
                    if in_cells(columns, row as int, row + 1, c0, column + 1, i) && !in_cells(
                        columns,
                        row as int,
                        row + 1,
                        c0,
                        column as int,
                        i,
                    ) {
                        let (r, c) = choose|r: int, c: int|
                            {
                                &&& row <= r < row + 1
                                &&& c0 <= c < column + 1
                                &&& #[trigger] cell_number(columns, r, c) == i
                            };
                        assert(r == row && c == column);
                    }
                    if in_cells(columns, row as int, row + 1, c0, column as int, i) {
                        let (r, c) = choose|r: int, c: int|
                            {
                                &&& row <= r < row + 1
                                &&& c0 <= c < column
                                &&& #[trigger] cell_number(columns, r, c) == i
                            };
                        assert(cell_number(columns, r, c) == i);
                    }
                }
            }
            column = column + 1;
        }
        proof {
            assert forall|i: int| 0 <= i < start.len() implies (#[trigger] marks@[i] <==> start[i]
                || in_cells(columns, r0, row + 1, c0, c1, i)) by {
                assert(before[i] <==> start[i] || in_cells(columns, r0, row as int, c0, c1, i));
                if in_cells(columns, r0, row + 1, c0, c1, i) {
                    let (r, c) = choose|r: int, c: int|
                        {
                            &&& r0 <= r < row + 1
                            &&& c0 <= c < c1
                            &&& #[trigger] cell_number(columns, r, c) == i
                        };
                    assert(cell_number(columns, r, c) == i);
                }
                if in_cells(columns, row as int, row + 1, c0, c1, i) {
                    let (r, c) = choose|r: int, c: int|
                        {
                            &&& row <= r < row + 1
                            &&& c0 <= c < c1
                            &&& #[trigger] cell_number(columns, r, c) == i
                        };
                    assert(cell_number(columns, r, c) == i);
                }
                if in_cells(columns, r0, row as int, c0, c1, i) {
                    let (r, c) = choose|r: int, c: int|
                        {
                            &&& r0 <= r < row
                            &&& c0 <= c < c1
                            &&& #[trigger] cell_number(columns, r, c) == i
                        };
                    assert(cell_number(columns, r, c) == i);
                }
            }
        }
        row = row + 1;
    }
}

/// The numbers of the thumbnails that are wanted, in ascending order: the first ones up to
/// a limit, and those behind tiles that are not there yet.
pub fn selected_world_cell_indices(
    cell_count: usize,
    columns: usize,
    limit: Option<usize>,
    tiles: &Vec<WorldTileCacheEntry>,
    files: &TextMap<u64>,
) -> (indices: Vec<usize>)
    ensures
        indices@ == wanted_cells(
            cell_count as nat,
            columns,
            limit,
            tiles::tile_views(tiles@),
            files.raw(),
        ),
{
    let ghost all = tiles::tile_views(tiles@);
    let ghost names = files.raw();
    let mut marks: Vec<bool> = Vec::new();
    let mut i: usize = 0;
    while i < cell_count
        invariant
            i <= cell_count,
            marks@.len() == i,
            forall|k: int| 0 <= k < i ==> (#[trigger] marks@[k] <==> limit is Some && k < limit->Some_0),
        decreases cell_count - i,
    {
        marks.push(
            match limit {
                Some(limit) => i < limit,
                None => false,
            },
        );
        i = i + 1;
    }
    assert(all.take(0) =~= Seq::<TileView>::empty());
    let mut n: usize = 0;
    while n < tiles.len()
        invariant
            n <= tiles@.len(),
            all == tiles::tile_views(tiles@),
            names == files.raw(),
            marks@.len() == cell_count,
            forall|k: int|
                0 <= k < cell_count ==> (#[trigger] marks@[k] <==> wants_cell(
                    columns,
                    limit,
                    all.take(n as int),
                    names,
                    k,
                )),
        decreases tiles@.len() - n,
    {
        let ghost before = marks@;
        let ready = files.contains_key(tiles[n].image_path.as_str());
        if !ready {
            mark_tile(&mut marks, columns, &tiles[n]);
        }
        proof {
            let shorter = all.take(n as int);
            let longer = all.take(n + 1);
            assert(longer[n as int] == tiles@[n as int]@);
            assert forall|k: int| 0 <= k < cell_count implies (#[trigger] marks@[k] <==> wants_cell(
                columns,
                limit,
                longer,
                names,
                k,
            )) by {
                assert(before[k] <==> wants_cell(columns, limit, shorter, names, k));
                if wants_cell(columns, limit, shorter, names, k) && !(limit is Some && k
                    < limit->Some_0) {
                    let j = choose|j: int|
                        {
                            &&& 0 <= j < shorter.len()
                            &&& textmap::entries_get(names, shorter[j].image_path) is None
                            &&& #[trigger] tile_covers(columns, shorter[j], k)
                        };
                    assert(longer[j] == shorter[j]);
                    assert(tile_covers(columns, longer[j], k));
                }
                if wants_cell(columns, limit, longer, names, k) && !(limit is Some && k
                    < limit->Some_0) {
                    let j = choose|j: int|
                        {
                            &&& 0 <= j < longer.len()
                            &&& textmap::entries_get(names, longer[j].image_path) is None
                            &&& #[trigger] tile_covers(columns, longer[j], k)
                        };
                    if j < n {
                        assert(longer[j] == shorter[j]);
                        assert(tile_covers(columns, shorter[j], k));
                    }
                }
                if !ready && tile_covers(columns, longer[n as int], k) {
                    assert(wants_cell(columns, limit, longer, names, k));
                }
            }
        }
        n = n + 1;
    }
    assert(all.take(n as int) =~= all);
    let mut indices: Vec<usize> = Vec::new();
    let mut k: usize = 0;
    while k < cell_count
        invariant
            k <= cell_count,
            marks@.len() == cell_count,
            forall|k: int|
                0 <= k < cell_count ==> (#[trigger] marks@[k] <==> wants_cell(
                    columns,
                    limit,
                    all,
                    names,
                    k,
                )),
            indices@ == wanted_cells(k as nat, columns, limit, all, names),
        decreases cell_count - k,
    {
        if marks[k] {
            indices.push(k);
        }
        k = k + 1;
    }
    indices
}

} // verus!
