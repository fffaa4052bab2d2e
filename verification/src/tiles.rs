//! The world of wallpapers as a grid of cells, the tiles that cover it at each level of
//! detail, and the names of the images that are cached for both.

use crate::hashing::{hash_number, hash_text, padded_usize, HASH_START};
use crate::paths::join;
use crate::text::{
    concat2, concat3, copy_text, decimal_u32, decimal_usize, hex_u64,
};
use crate::textmap::TextMap;
use vstd::arithmetic::div_mod::lemma_fundamental_div_mod_converse;
use crate::hashing;
use crate::paths;
use crate::text;
use crate::textmap;
use vstd::prelude::*;
use vstd::utf8;

verus! {

/// The length of the longer edge of a cached thumbnail.
pub const DEFAULT_WORLD_CELL_THUMBNAIL_EDGE: u32 = 384;

/// How many cells a tile of the finest level spans in each direction.
pub const DEFAULT_WORLD_TILE_CELLS: usize = 8;

/// How many tiles of one level a tile of the next spans in each direction.
pub const WORLD_TILE_LOD_BRANCHING: usize = 8;

/// The version of the way in which thumbnails are made.
pub const WORLD_CELL_CACHE_ALGORITHM: u32 = 2;

// ---------------------------------------------------------------------------
// The grid

/// Whether a square with this side is the smallest that holds a number of cells.
pub open spec fn is_square_side(side: nat, count: nat) -> bool {
    &&& side >= 1
    &&& side * side >= count
    &&& side == 1 || (side - 1) * (side - 1) < count
}

/// The side of the smallest square that holds a number of cells.
pub open spec fn side_for(count: nat) -> nat {
    choose|side: nat| is_square_side(side, count)
}

/// There is one smallest square.
pub proof fn lemma_side_unique(a: nat, b: nat, count: nat)
    requires
        is_square_side(a, count),
        is_square_side(b, count),
    ensures
        a == b,
{
    if a < b {
        assert(a * a <= (b - 1) * (b - 1)) by (nonlinear_arith)
            requires
                a <= b - 1,
        ;
    } else if b < a {
        assert(b * b <= (a - 1) * (a - 1)) by (nonlinear_arith)
            requires
                b <= a - 1,
        ;
    }
}

fn holds(side: usize, count: usize) -> (result: bool)
    ensures
        result == (side * side >= count),
{
    match side.checked_mul(side) {
        Some(square) => square >= count,
        None => true,
    }
}

/// How many columns a grid has for a number of wallpapers: the side of the smallest
/// square that holds them.
pub fn auto_world_columns(entry_count: usize) -> (columns: usize)
    ensures
        is_square_side(columns as nat, entry_count as nat),
        columns == side_for(entry_count as nat),
{
    let mut columns: usize = 1;
    while !holds(columns, entry_count)
        invariant
            columns >= 1,
            columns == 1 || (columns - 1) * (columns - 1) < entry_count,
        decreases entry_count - columns,
    {
        proof {
            assert(columns * columns >= columns) by (nonlinear_arith)
                requires
                    columns >= 1,
            ;
        }
        columns = columns + 1;
    }
    proof {
        assert(is_square_side(columns as nat, entry_count as nat));
        lemma_side_unique(columns as nat, side_for(entry_count as nat), entry_count as nat);
    }
    columns
}

/// A quotient, rounded up.
pub open spec fn ceil_div(a: nat, b: nat) -> nat {
    if a % b == 0 {
        a / b
    } else {
        a / b + 1
    }
}

/// A quotient, rounded up.
pub fn div_up(a: usize, b: usize) -> (quotient: usize)
    requires
        b > 0,
    ensures
        quotient == ceil_div(a as nat, b as nat),
{
    if a % b == 0 {
        a / b
    } else {
        proof {
            lemma_ceil_div(a as nat, b as nat);
        }
        a / b + 1
    }
}

/// A quotient that is rounded up counts the pieces that cover a length.
pub proof fn lemma_ceil_div(a: nat, b: nat)
    requires
        b > 0,
    ensures
        ceil_div(a, b) * b >= a,
        a > 0 ==> (ceil_div(a, b) - 1) * b < a,
        a > 0 ==> ceil_div(a, b) >= 1,
        a == 0 ==> ceil_div(a, b) == 0,
        a <= b ==> ceil_div(a, b) <= 1,
        ceil_div(a, b) <= a,
{
    let q = a / b;
    let r = a % b;
    vstd::arithmetic::div_mod::lemma_fundamental_div_mod(a as int, b as int);
    assert(b * q == q * b) by (nonlinear_arith);
    assert((q + 1) * b == q * b + b) by (nonlinear_arith);
    assert((q - 1) * b == q * b - b) by (nonlinear_arith);
    assert(q <= q * b) by (nonlinear_arith)
        requires
            b >= 1,
    ;
    if a == 0 {
        assert(q == 0) by (nonlinear_arith)
            requires
                q * b == 0,
                b > 0,
        ;
    }
    if a > 0 && r == 0 {
        assert(q >= 1) by (nonlinear_arith)
            requires
                q * b > 0,
                b > 0,
        ;
    }
    if a <= b {
        assert(r == 0 ==> q <= 1) by (nonlinear_arith)
            requires
                q * b <= b,
                b > 0,
        ;
        assert(r > 0 ==> q <= 0) by (nonlinear_arith)
            requires
                q * b + r <= b,
                b > 0,
        ;
    }
    if r > 0 && b == 1 {
        assert(false);
    }
    if r > 0 && q > 0 {
        assert(q + 1 <= q * b) by (nonlinear_arith)
            requires
                b >= 2,
                q >= 1,
        ;
    }
}

// ---------------------------------------------------------------------------
// Snapshots of the library

/// A library of wallpapers, and the grid on which it is laid out.
#[derive(Clone, Debug, PartialEq, Eq)]
pub struct WorldCacheSnapshot {
    pub library: Vec<String>,
    pub columns: usize,
    pub rows: usize,
    pub fingerprint: u64,
}

/// A snapshot, as a mathematical value.
#[verifier::ext_equal]
pub struct SnapshotView {
    pub library: Seq<Seq<char>>,
    pub columns: usize,
    pub rows: usize,
    pub fingerprint: u64,
}

impl View for WorldCacheSnapshot {
    type V = SnapshotView;

    open spec fn view(&self) -> SnapshotView {
        SnapshotView {
            library: text::texts(self.library@),
            columns: self.columns,
            rows: self.rows,
            fingerprint: self.fingerprint,
        }
    }
}

impl WorldCacheSnapshot {
    /// The number of wallpapers.
    pub fn library_count(&self) -> (count: usize)
        ensures
            count == self@.library.len(),
    {
        self.library.len()
    }
}

/// The hash of a list of paths.
pub open spec fn paths_hash(list: Seq<Seq<char>>) -> u64
    decreases list.len(),
{
    if list.len() == 0 {
        HASH_START
    } else {
        hashing::hash_field(paths_hash(list.drop_last()), utf8::encode_utf8(list.last()))
    }
}

/// The hash of a list of paths, by which a library is told from another.
pub fn fingerprint_paths(list: &Vec<String>) -> (hash: u64)
    ensures
        hash == paths_hash(text::texts(list@)),
{
    let ghost all = text::texts(list@);
    let mut hash: u64 = HASH_START;
    let mut i: usize = 0;
    assert(all.take(0) =~= Seq::<Seq<char>>::empty());
    while i < list.len()
        invariant
            i <= list@.len(),
            all == text::texts(list@),
            hash == paths_hash(all.take(i as int)),
        decreases list@.len() - i,
    {
        assert(all.take(i + 1).drop_last() =~= all.take(i as int));
        assert(all.take(i + 1).last() == list@[i as int]@);
        hash = hash_text(hash, list[i].as_str());
        i = i + 1;
    }
    assert(all.take(i as int) =~= all);
    hash
}

/// The snapshot of a library.
pub open spec fn snapshot_of(library: Seq<Seq<char>>) -> SnapshotView {
    let columns = side_for(library.len());
    SnapshotView {
        library,
        columns: columns as usize,
        rows: ceil_div(library.len(), columns) as usize,
        fingerprint: paths_hash(library),
    }
}

/// The snapshot of a library: it is laid out, in its own order, on a grid that is nearly
/// square.
pub fn world_cache_snapshot_for_library(library: Vec<String>) -> (snapshot: WorldCacheSnapshot)
    ensures
        snapshot@ == snapshot_of(text::texts(library@)),
{
    let fingerprint = fingerprint_paths(&library);
    let columns = auto_world_columns(library.len());
    let rows = div_up(library.len(), columns);
    assert(text::texts(library@).len() == library@.len());
    WorldCacheSnapshot { library, columns, rows, fingerprint }
}

/// The grid of a library holds every wallpaper, no row of it stays empty, and it is at
/// least as wide as it is high.
pub proof fn law_grid_holds_the_library(count: nat, columns: nat)
    requires
        is_square_side(columns, count),
    ensures
        ceil_div(count, columns) * columns >= count,
        count > 0 ==> (ceil_div(count, columns) - 1) * columns < count,
        ceil_div(count, columns) <= columns,
{
    let rows = ceil_div(count, columns);
    lemma_ceil_div(count, columns);
    if rows > columns {
        if count > 0 {
            assert((rows - 1) * columns >= columns * columns) by (nonlinear_arith)
                requires
                    rows - 1 >= columns,
            ;
        }
    }
}

// ---------------------------------------------------------------------------
// Cells

/// What the system says of a source image.
#[derive(Clone, Copy, Debug, PartialEq, Eq, Structural)]
pub struct FileStat {
    /// Its size in bytes.
    pub len: u64,
    /// When it was changed, in nanoseconds since the epoch.
    pub mtime_ns: u128,
}

/// What the system says of source images.
#[derive(Debug, PartialEq, Eq)]
pub struct SourceStats {
    /// The images that could be looked up.
    pub found: TextMap<FileStat>,
    /// Why the first of the others could not be.
    pub error: String,
}

/// Where the thumbnail of a wallpaper is cached.
#[derive(Clone, Debug, PartialEq, Eq)]
pub struct WorldCellCacheEntry {
    pub source_path: String,
    pub cache_key: String,
    pub image_path: String,
}

/// Where a thumbnail is cached, as a mathematical value.
#[verifier::ext_equal]
pub struct CellView {
    pub source_path: Seq<char>,
    pub cache_key: Seq<char>,
    pub image_path: Seq<char>,
}

impl View for WorldCellCacheEntry {
    type V = CellView;

    open spec fn view(&self) -> CellView {
        CellView {
            source_path: self.source_path@,
            cache_key: self.cache_key@,
            image_path: self.image_path@,
        }
    }
}

/// Entries of the cache, taken by their views.
pub open spec fn cell_views(cells: Seq<WorldCellCacheEntry>) -> Seq<CellView> {
    Seq::new(cells.len(), |i: int| cells[i]@)
}

/// The keys of entries of the cache.
pub open spec fn cell_keys(cells: Seq<WorldCellCacheEntry>) -> Seq<Seq<char>> {
    Seq::new(cells.len(), |i: int| cells[i].cache_key@)
}

/// The key under which a thumbnail is cached.
pub open spec fn cell_key(path: Seq<char>, stat: FileStat, edge: u32) -> Seq<char> {
    let named = hashing::hash_field(HASH_START, utf8::encode_utf8(path));
    let sized = hashing::hash_field(named, hashing::low_bytes(stat.len as nat, 8));
    let dated = hashing::hash_field(sized, hashing::low_bytes(stat.mtime_ns as nat, 16));
    let scaled = hashing::hash_field(dated, hashing::low_bytes(edge as nat, 4));
    text::hex_text(
        hashing::hash_field(
            scaled,
            hashing::low_bytes(WORLD_CELL_CACHE_ALGORITHM as nat, 4),
        ) as nat,
        16,
    )
}

/// The key under which a thumbnail is cached: it changes with the image's path, size and
/// time, with the thumbnail's edge and with the way in which thumbnails are made.
pub fn cell_cache_key(path: &str, len: u64, mtime_ns: u128, thumbnail_edge: u32) -> (key: String)
    ensures
        key@ == cell_key(path@, (FileStat { len, mtime_ns }), thumbnail_edge),
{
    let named = hash_text(HASH_START, path);
    let sized = hash_number(named, len as u128, 8);
    let dated = hash_number(sized, mtime_ns, 16);
    let scaled = hash_number(dated, thumbnail_edge as u128, 4);
    hex_u64(hash_number(scaled, WORLD_CELL_CACHE_ALGORITHM as u128, 4), 16)
}

/// Where the thumbnail of a wallpaper is cached.
pub open spec fn cell_of(
    source: Seq<char>,
    cache_dir: Seq<char>,
    edge: u32,
    stat: FileStat,
) -> CellView {
    let key = cell_key(source, stat, edge);
    CellView {
        source_path: source,
        cache_key: key,
        image_path: paths::joined(
            paths::joined(cache_dir, "cells-"@ + text::decimal_text(edge as nat)),
            key + ".png"@,
        ),
    }
}

/// Where the thumbnails of a library are cached.
pub open spec fn cells_of(
    library: Seq<Seq<char>>,
    cache_dir: Seq<char>,
    edge: u32,
    found: Seq<(Seq<char>, FileStat)>,
    error: Seq<char>,
) -> Result<Seq<CellView>, Seq<char>>
    decreases library.len(),
{
    if library.len() == 0 {
        Ok(Seq::empty())
    } else {
        match cells_of(library.drop_last(), cache_dir, edge, found, error) {
            Err(message) => Err(message),
            Ok(cells) => match textmap::entries_get(found, library.last()) {
                None => Err("failed to stat wallpaper "@ + library.last() + ": "@ + error),
                Some(stat) => Ok(cells.push(cell_of(library.last(), cache_dir, edge, stat))),
            },
        }
    }
}

proof fn lemma_cells_error_stays(
    library: Seq<Seq<char>>,
    cache_dir: Seq<char>,
    edge: u32,
    found: Seq<(Seq<char>, FileStat)>,
    error: Seq<char>,
    n: int,
)
    requires
        0 <= n <= library.len(),
        cells_of(library.take(n), cache_dir, edge, found, error) is Err,
    ensures
        cells_of(library, cache_dir, edge, found, error) == cells_of(
            library.take(n),
            cache_dir,
            edge,
            found,
            error,
        ),
    decreases library.len() - n,
{
    if n == library.len() {
        assert(library.take(n) =~= library);
    } else {
        assert(library.take(n + 1).drop_last() =~= library.take(n));
        lemma_cells_error_stays(library, cache_dir, edge, found, error, n + 1);
    }
}

/// Where the thumbnails of a library are cached, or why the first image that cannot be
/// looked up could not be.
pub fn cell_cache_entries(
    library: &Vec<String>,
    cache_dir: &str,
    thumbnail_edge: u32,
    stats: &SourceStats,
) -> (result: Result<Vec<WorldCellCacheEntry>, String>)
    ensures
        match (
            result,
            cells_of(
                text::texts(library@),
                cache_dir@,
                thumbnail_edge,
                stats.found.raw(),
                stats.error@,
            ),
        ) {
            (Ok(cells), Ok(expected)) => cell_views(cells@) == expected,
            (Err(message), Err(expected)) => message@ == expected,
            _ => false,
        },
{
    let ghost all = text::texts(library@);
    let ghost found = stats.found.raw();
    let cell_dir = join(
        cache_dir,
        concat2("cells-", decimal_u32(thumbnail_edge).as_str()).as_str(),
    );
    let mut cells: Vec<WorldCellCacheEntry> = Vec::new();
    let mut i: usize = 0;
    assert(all.take(0) =~= Seq::<Seq<char>>::empty());
    assert(cell_views(cells@) =~= Seq::<CellView>::empty());
    while i < library.len()
        invariant
            i <= library@.len(),
            all == text::texts(library@),
            found == stats.found.raw(),
            cell_dir@ == paths::joined(
                cache_dir@,
                "cells-"@ + text::decimal_text(thumbnail_edge as nat),
            ),
            cells_of(all.take(i as int), cache_dir@, thumbnail_edge, found, stats.error@) == Ok::<
                Seq<CellView>,
                Seq<char>,
            >(cell_views(cells@)),
        decreases library@.len() - i,
    {
        proof {
            assert(all.take(i + 1).drop_last() =~= all.take(i as int));
            assert(all.take(i + 1).last() == library@[i as int]@);
        }
        let source = library[i].as_str();
        match stats.found.get(source) {
            None => {
                proof {
                    lemma_cells_error_stays(
                        all,
                        cache_dir@,
                        thumbnail_edge,
                        found,
                        stats.error@,
                        i + 1,
                    );
                }
                return Err(
                    concat2(
                        concat3("failed to stat wallpaper ", source, ": ").as_str(),
                        stats.error.as_str(),
                    ),
                );
            },
            Some(stat) => {
                let ghost before = cell_views(cells@);
                let cache_key = cell_cache_key(source, stat.len, stat.mtime_ns, thumbnail_edge);
                let image_path = join(
                    cell_dir.as_str(),
                    concat2(cache_key.as_str(), ".png").as_str(),
                );
                cells.push(
                    WorldCellCacheEntry { source_path: copy_text(source), cache_key, image_path },
                );
                proof {
                    assert(cell_views(cells@) =~= before.push(cells@.last()@));
                    assert(cells@.last()@ == cell_of(
                        source@,
                        cache_dir@,
                        thumbnail_edge,
                        *stat,
                    ));
                }
            },
        }
        i = i + 1;
    }
    assert(all.take(i as int) =~= all);
    Ok(cells)
}

// ---------------------------------------------------------------------------
// Tiles

/// What the tiles of a world are named after.
#[derive(Clone, Copy, Debug, PartialEq, Eq, Structural)]
pub struct TileCacheSpec {
    pub thumbnail_edge: u32,
    pub tile_cells: usize,
    pub columns: usize,
    pub rows: usize,
    pub fingerprint: u64,
}

/// A tile, the cells that it covers, and where its image is cached.
#[derive(Clone, Debug, PartialEq, Eq)]
pub struct WorldTileCacheEntry {
    pub lod: usize,
    pub tile_column: usize,
    pub tile_row: usize,
    pub start_column: usize,
    pub end_column: usize,
    pub start_row: usize,
    pub end_row: usize,
    pub image_path: String,
}

/// A tile, as a mathematical value.
#[verifier::ext_equal]
pub struct TileView {
    pub lod: nat,
    pub tile_column: nat,
    pub tile_row: nat,
    pub start_column: nat,
    pub end_column: nat,
    pub start_row: nat,
    pub end_row: nat,
    pub image_path: Seq<char>,
}

impl View for WorldTileCacheEntry {
    type V = TileView;

    open spec fn view(&self) -> TileView {
        TileView {
            lod: self.lod as nat,
            tile_column: self.tile_column as nat,
            tile_row: self.tile_row as nat,
            start_column: self.start_column as nat,
            end_column: self.end_column as nat,
            start_row: self.start_row as nat,
            end_row: self.end_row as nat,
            image_path: self.image_path@,
        }
    }
}

/// Tiles, taken by their views.
pub open spec fn tile_views(tiles: Seq<WorldTileCacheEntry>) -> Seq<TileView> {
    Seq::new(tiles.len(), |i: int| tiles[i]@)
}

/// The greater of one and a number.
pub open spec fn one_or_more(n: nat) -> nat {
    if n == 0 {
        1
    } else {
        n
    }
}

/// How many cells a tile spans in each direction at a level: eight times as many at each
/// level as at the one before, as far as such a number can be told.
pub open spec fn cells_at(tile_cells: nat, lod: nat) -> nat
    decreases lod,
{
    if lod == 0 {
        one_or_more(tile_cells)
    } else {
        let finer = cells_at(tile_cells, (lod - 1) as nat);
        if finer * WORLD_TILE_LOD_BRANCHING > usize::MAX {
            usize::MAX as nat
        } else {
            finer * WORLD_TILE_LOD_BRANCHING as nat
        }
    }
}

/// How many cells a tile spans in each direction at a level.
pub fn world_lod_tile_cells(tile_cells: usize, lod: usize) -> (cells: usize)
    ensures
        cells == cells_at(tile_cells as nat, lod as nat),
{
    let mut cells: usize = if tile_cells == 0 {
        1
    } else {
        tile_cells
    };
    let mut i: usize = 0;
    while i < lod
        invariant
            i <= lod,
            cells == cells_at(tile_cells as nat, i as nat),
        decreases lod - i,
    {
        cells = match cells.checked_mul(WORLD_TILE_LOD_BRANCHING) {
            Some(more) => more,
            None => usize::MAX,
        };
        i = i + 1;
    }
    cells
}

/// A tile spans more cells than its level counts, as far as such a number can be told.
pub proof fn lemma_cells_at(tile_cells: nat, lod: nat)
    requires
        tile_cells <= usize::MAX,
    ensures
        1 <= cells_at(tile_cells, lod) <= usize::MAX,
        cells_at(tile_cells, lod) > lod || cells_at(tile_cells, lod) == usize::MAX,
        cells_at(tile_cells, lod) < usize::MAX ==> cells_at(tile_cells, lod + 1) > cells_at(
            tile_cells,
            lod,
        ),
    decreases lod,
{
    if lod > 0 {
        lemma_cells_at(tile_cells, (lod - 1) as nat);
    }
}

/// A hash with the key of a cell added, if there is such a cell.
pub open spec fn cell_hash(keys: Seq<Seq<char>>, index: nat, hash: u64) -> u64 {
    if index < keys.len() {
        hashing::hash_field(hash, utf8::encode_utf8(keys[index as int]))
    } else {
        hash
    }
}

/// A hash with the keys of a stretch of a row of cells added.
pub open spec fn row_hash(
    keys: Seq<Seq<char>>,
    columns: nat,
    row: nat,
    from: nat,
    to: nat,
    hash: u64,
) -> u64
    decreases to - from,
{
    if from >= to {
        hash
    } else {
        row_hash(
            keys,
            columns,
            row,
            from + 1,
            to,
            cell_hash(keys, row * columns + from, hash),
        )
    }
}

/// A hash with the keys of a block of cells added, row by row.
pub open spec fn block_hash(
    keys: Seq<Seq<char>>,
    columns: nat,
    start_column: nat,
    end_column: nat,
    from: nat,
    to: nat,
    hash: u64,
) -> u64
    decreases to - from,
{
    if from >= to {
        hash
    } else {
        block_hash(
            keys,
            columns,
            start_column,
            end_column,
            from + 1,
            to,
            row_hash(keys, columns, from, start_column, end_column, hash),
        )
    }
}

fn add_cell(cells: &Vec<WorldCellCacheEntry>, row: usize, columns: usize, column: usize, hash: u64)
    -> (result: u64)
    ensures
        result == cell_hash(cell_keys(cells@), (row * columns + column) as nat, hash),
{
    let index = match row.checked_mul(columns) {
        Some(start) => start.checked_add(column),
        None => None,
    };
    assert(cell_keys(cells@).len() == cells.len());
    proof {
        assert(row * columns >= 0) by (nonlinear_arith);
    }
    match index {
        Some(index) => if index < cells.len() {
            hash_text(hash, cells[index].cache_key.as_str())
        } else {
            hash
        },
        None => hash,
    }
}

/// The key that tells what a tile shows: it changes with the key of any cell that the
/// tile covers.
pub fn tile_content_key(
    cells: &Vec<WorldCellCacheEntry>,
    columns: usize,
    start_column: usize,
    end_column: usize,
    start_row: usize,
    end_row: usize,
) -> (key: String)
    ensures
        key@ == text::hex_text(
            block_hash(
                cell_keys(cells@),
                columns as nat,
                start_column as nat,
                end_column as nat,
                start_row as nat,
                end_row as nat,
                HASH_START,
            ) as nat,
            16,
        ),
{
    let ghost keys = cell_keys(cells@);
    let ghost wanted = block_hash(
        keys,
        columns as nat,
        start_column as nat,
        end_column as nat,
        start_row as nat,
        end_row as nat,
        HASH_START,
    );
    let mut hash: u64 = HASH_START;
    let mut row: usize = start_row;
    while row < end_row
        invariant
            keys == cell_keys(cells@),
            wanted == block_hash(
                keys,
                columns as nat,
                start_column as nat,
                end_column as nat,
                row as nat,
                end_row as nat,
                hash,
            ),
        decreases end_row - row,
    {
        let ghost row_wanted = row_hash(
            keys,
            columns as nat,
            row as nat,
            start_column as nat,
            end_column as nat,
            hash,
        );
        let mut column: usize = start_column;
        while column < end_column
            invariant
                keys == cell_keys(cells@),
                row_wanted == row_hash(
                    keys,
                    columns as nat,
                    row as nat,
                    column as nat,
                    end_column as nat,
                    hash,
                ),
            decreases end_column - column,
        {
            hash = add_cell(cells, row, columns, column, hash);
            column = column + 1;
        }
        row = row + 1;
    }
    hex_u64(hash, 16)
}

/// The lesser of two numbers.
pub open spec fn lesser(a: nat, b: nat) -> nat {
    if a <= b {
        a
    } else {
        b
    }
}

/// The directory for the tiles of a level.
pub open spec fn tile_dir(cache_dir: Seq<char>, spec: TileCacheSpec, lod: nat) -> Seq<char> {
    paths::joined(
        cache_dir,
        "tiles-"@ + text::decimal_text(spec.thumbnail_edge as nat) + "-c"@ + text::decimal_text(
            one_or_more(spec.tile_cells as nat),
        ) + "-"@ + text::decimal_text(spec.columns as nat) + "x"@ + text::decimal_text(spec.rows as nat) + "-"@
            + text::hex_text(spec.fingerprint as nat, 16) + "/l"@ + text::decimal_text(lod),
    )
}

/// The tile in a row and a column of a level.
#[verifier::opaque]
pub open spec fn tile_at(
    cache_dir: Seq<char>,
    spec: TileCacheSpec,
    lod: nat,
    keys: Seq<Seq<char>>,
    row: int,
    column: int,
) -> TileView {
    let cells = cells_at(spec.tile_cells as nat, lod);
    let start_column = (column * cells) as nat;
    let start_row = (row * cells) as nat;
    let end_column = lesser(start_column + cells, spec.columns as nat);
    let end_row = lesser(start_row + cells, spec.rows as nat);
    let key = block_hash(
        keys,
        spec.columns as nat,
        start_column,
        end_column,
        start_row,
        end_row,
        HASH_START,
    );
    TileView {
        lod,
        tile_column: column as nat,
        tile_row: row as nat,
        start_column,
        end_column,
        start_row,
        end_row,
        image_path: paths::joined(
            tile_dir(cache_dir, spec, lod),
            hashing::padded(row as nat, 6) + "-"@ + hashing::padded(column as nat, 6) + "-"@ + text::hex_text(key as nat, 16) + ".png"@,
        ),
    }
}

/// How many columns of tiles a level has.
pub open spec fn tile_columns(spec: TileCacheSpec, lod: nat) -> nat {
    ceil_div(spec.columns as nat, cells_at(spec.tile_cells as nat, lod))
}

/// How many rows of tiles a level has.
pub open spec fn tile_rows(spec: TileCacheSpec, lod: nat) -> nat {
    ceil_div(spec.rows as nat, cells_at(spec.tile_cells as nat, lod))
}

/// How many tiles a level has.
pub open spec fn tile_count(spec: TileCacheSpec, lod: nat) -> nat {
    tile_rows(spec, lod) * tile_columns(spec, lod)
}

/// The tiles of a level, row by row.
pub open spec fn tiles_of_lod(
    cache_dir: Seq<char>,
    spec: TileCacheSpec,
    lod: nat,
    keys: Seq<Seq<char>>,
) -> Seq<TileView> {
    let width = tile_columns(spec, lod);
    Seq::new(
        tile_count(spec, lod),
        |i: int| tile_at(cache_dir, spec, lod, keys, i / (width as int), i % (width as int)),
    )
}

fn tile_entry(
    cache_dir: &str,
    spec: TileCacheSpec,
    lod: usize,
    cells: &Vec<WorldCellCacheEntry>,
    tile_cells: usize,
    dir: &str,
    tile_row: usize,
    tile_column: usize,
) -> (entry: WorldTileCacheEntry)
    requires
        tile_cells == cells_at(spec.tile_cells as nat, lod as nat),
        dir@ == tile_dir(cache_dir@, spec, lod as nat),
        tile_row < tile_rows(spec, lod as nat),
        tile_column < tile_columns(spec, lod as nat),
    ensures
        entry@ == tile_at(
            cache_dir@,
            spec,
            lod as nat,
            cell_keys(cells@),
            tile_row as int,
            tile_column as int,
        ),
{
    proof {
        reveal(tile_at);
        lemma_cells_at(spec.tile_cells as nat, lod as nat);
        lemma_ceil_div(spec.columns as nat, tile_cells as nat);
        lemma_ceil_div(spec.rows as nat, tile_cells as nat);
        let width = tile_columns(spec, lod as nat);
        let height = tile_rows(spec, lod as nat);
        assert(tile_column * tile_cells <= (width - 1) * tile_cells) by (nonlinear_arith)
            requires
                tile_column <= width - 1,
        ;
        assert(tile_row * tile_cells <= (height - 1) * tile_cells) by (nonlinear_arith)
            requires
                tile_row <= height - 1,
        ;
    }
    let start_column: usize = tile_column * tile_cells;
    let start_row: usize = tile_row * tile_cells;
    let end_column: usize = if spec.columns - start_column < tile_cells {
        spec.columns
    } else {
        start_column + tile_cells
    };
    let end_row: usize = if spec.rows - start_row < tile_cells {
        spec.rows
    } else {
        start_row + tile_cells
    };
    let key = tile_content_key(cells, spec.columns, start_column, end_column, start_row, end_row);
    let mut name = padded_usize(tile_row, 6);
    name.append("-");
    name.append(padded_usize(tile_column, 6).as_str());
    name.append("-");
    name.append(key.as_str());
    name.append(".png");
    WorldTileCacheEntry {
        lod,
        tile_column,
        tile_row,
        start_column,
        end_column,
        start_row,
        end_row,
        image_path: join(dir, name.as_str()),
    }
}

fn dir_of_tiles(cache_dir: &str, spec: TileCacheSpec, lod: usize) -> (dir: String)
    ensures
        dir@ == tile_dir(cache_dir@, spec, lod as nat),
{
    let base: usize = if spec.tile_cells == 0 {
        1
    } else {
        spec.tile_cells
    };
    let mut name = concat2("tiles-", decimal_u32(spec.thumbnail_edge).as_str());
    name.append("-c");
    name.append(decimal_usize(base).as_str());
    name.append("-");
    name.append(decimal_usize(spec.columns).as_str());
    name.append("x");
    name.append(decimal_usize(spec.rows).as_str());
    name.append("-");
    name.append(hex_u64(spec.fingerprint, 16).as_str());
    name.append("/l");
    name.append(decimal_usize(lod).as_str());
    join(cache_dir, name.as_str())
}

/// The tiles of a level, row by row.
pub fn tile_cache_entries_for_lod(
    cache_dir: &str,
    spec: TileCacheSpec,
    lod: usize,
    cells: &Vec<WorldCellCacheEntry>,
) -> (entries: Vec<WorldTileCacheEntry>)
    ensures
        tile_views(entries@) == tiles_of_lod(cache_dir@, spec, lod as nat, cell_keys(cells@)),
{
    proof {
        lemma_cells_at(spec.tile_cells as nat, lod as nat);
    }
    let ghost keys = cell_keys(cells@);
    let tile_cells = world_lod_tile_cells(spec.tile_cells, lod);
    let dir = dir_of_tiles(cache_dir, spec, lod);
    let width = div_up(spec.columns, tile_cells);
    let height = div_up(spec.rows, tile_cells);
    let mut entries: Vec<WorldTileCacheEntry> = Vec::new();
    let mut row: usize = 0;
    while row < height
        invariant
            row <= height,
            keys == cell_keys(cells@),
            tile_cells == cells_at(spec.tile_cells as nat, lod as nat),
            dir@ == tile_dir(cache_dir@, spec, lod as nat),
            width == tile_columns(spec, lod as nat),
            height == tile_rows(spec, lod as nat),
            entries@.len() == row * width,
            forall|i: int|
                0 <= i < entries@.len() ==> (#[trigger] entries@[i])@ == tile_at(
                    cache_dir@,
                    spec,
                    lod as nat,
                    keys,
                    i / (width as int),
                    i % (width as int),
                ),
        decreases height - row,
    {
        let mut column: usize = 0;
        while column < width
            invariant
                row < height,
                column <= width,
                keys == cell_keys(cells@),
                tile_cells == cells_at(spec.tile_cells as nat, lod as nat),
                dir@ == tile_dir(cache_dir@, spec, lod as nat),
                width == tile_columns(spec, lod as nat),
                height == tile_rows(spec, lod as nat),
                entries@.len() == row * width + column,
                forall|i: int|
                    0 <= i < entries@.len() ==> (#[trigger] entries@[i])@ == tile_at(
                        cache_dir@,
                        spec,
                        lod as nat,
                        keys,
                        i / (width as int),
                        i % (width as int),
                    ),
            decreases width - column,
        {
            let ghost index = entries@.len() as int;
            let entry = tile_entry(
                cache_dir,
                spec,
                lod,
                cells,
                tile_cells,
                dir.as_str(),
                row,
                column,
            );
            proof {
                lemma_fundamental_div_mod_converse(
                    index,
                    width as int,
                    row as int,
                    column as int,
                );
            }
            entries.push(entry);
            column = column + 1;
        }
        proof {
            assert(row * width + width == (row + 1) * width) by (nonlinear_arith);
        }
        row = row + 1;
    }
    proof {
        assert(tile_views(entries@) =~= tiles_of_lod(cache_dir@, spec, lod as nat, keys));
    }
    entries
}

/// The tiles of the finest level.
pub fn tile_cache_entries(cache_dir: &str, spec: TileCacheSpec, cells: &Vec<WorldCellCacheEntry>)
    -> (entries: Vec<WorldTileCacheEntry>)
    ensures
        tile_views(entries@) == tiles_of_lod(cache_dir@, spec, 0, cell_keys(cells@)),
{
    tile_cache_entries_for_lod(cache_dir, spec, 0, cells)
}

/// How far a level is from one whose tiles span the whole world.
pub open spec fn span_left(spec: TileCacheSpec, lod: nat) -> nat {
    let cells = cells_at(spec.tile_cells as nat, lod);
    let side = if spec.columns >= spec.rows {
        spec.columns as nat
    } else {
        spec.rows as nat
    };
    if cells >= side {
        0
    } else {
        (side - cells) as nat
    }
}

/// A level with more than one tile is followed by one that is nearer to the end.
pub proof fn lemma_span_left(spec: TileCacheSpec, lod: nat)
    requires
        tile_count(spec, lod) > 1,
    ensures
        span_left(spec, lod + 1) < span_left(spec, lod),
        lod < usize::MAX,
{
    let cells = cells_at(spec.tile_cells as nat, lod);
    lemma_cells_at(spec.tile_cells as nat, lod);
    lemma_cells_at(spec.tile_cells as nat, lod + 1);
    lemma_ceil_div(spec.columns as nat, cells);
    lemma_ceil_div(spec.rows as nat, cells);
    if cells >= spec.columns && cells >= spec.rows {
        let a = tile_rows(spec, lod);
        let b = tile_columns(spec, lod);
        assert(a * b <= 1) by (nonlinear_arith)
            requires
                a <= 1,
                b <= 1,
        ;
    }
}

/// The tiles of a level and of those after it, to the first that is one tile at most.
pub open spec fn pyramid_from(
    cache_dir: Seq<char>,
    spec: TileCacheSpec,
    lod: nat,
    keys: Seq<Seq<char>>,
) -> Seq<TileView>
    decreases span_left(spec, lod),
{
    let tiles = tiles_of_lod(cache_dir, spec, lod, keys);
    if tile_count(spec, lod) <= 1 {
        tiles
    } else {
        proof {
            lemma_span_left(spec, lod);
        }
        tiles + pyramid_from(cache_dir, spec, lod + 1, keys)
    }
}

/// The tiles of every level, from the finest to the first that is one tile at most.
pub fn tile_pyramid_cache_entries(
    cache_dir: &str,
    spec: TileCacheSpec,
    cells: &Vec<WorldCellCacheEntry>,
) -> (entries: Vec<WorldTileCacheEntry>)
    ensures
        tile_views(entries@) == pyramid_from(cache_dir@, spec, 0, cell_keys(cells@)),
{
    let ghost keys = cell_keys(cells@);
    let ghost wanted = pyramid_from(cache_dir@, spec, 0, keys);
    let mut entries: Vec<WorldTileCacheEntry> = Vec::new();
    let mut lod: usize = 0;
    assert(tile_views(entries@) + wanted =~= wanted);
    loop
        invariant_except_break
            wanted == tile_views(entries@) + pyramid_from(cache_dir@, spec, lod as nat, keys),
        invariant
            keys == cell_keys(cells@),
        ensures
            tile_views(entries@) == wanted,
        decreases span_left(spec, lod as nat),
    {
        let ghost before = tile_views(entries@);
        let mut tiles = tile_cache_entries_for_lod(cache_dir, spec, lod, cells);
        let ghost added = tile_views(tiles@);
        proof {
                assert(added.len() == tiles@.len());
        }
        let done = tiles.len() <= 1;
        entries.append(&mut tiles);
        proof {
            assert(tile_views(entries@) =~= before + added);
        }
        if done {
            break;
        }
        proof {
            lemma_span_left(spec, lod as nat);
            let rest = pyramid_from(cache_dir@, spec, lod as nat + 1, keys);
            assert(before + (added + rest) =~= (before + added) + rest);
        }
        lod = lod + 1;
    }
    entries
}

/// Whether a tile covers a cell.
pub open spec fn covers(tile: TileView, column: int, row: int) -> bool {
    &&& tile.start_column <= column < tile.end_column
    &&& tile.start_row <= row < tile.end_row
}

/// The tiles of a level part the grid: each cell is covered by one tile, and by no other.
pub proof fn law_tiles_part_the_grid(
    cache_dir: Seq<char>,
    spec: TileCacheSpec,
    lod: nat,
    keys: Seq<Seq<char>>,
    column: int,
    row: int,
)
    requires
        0 <= column < spec.columns,
        0 <= row < spec.rows,
    ensures
        exists|k: int|
            0 <= k < tiles_of_lod(cache_dir, spec, lod, keys).len() && #[trigger] covers(
                tiles_of_lod(cache_dir, spec, lod, keys)[k],
                column,
                row,
            ),
        forall|j: int, k: int|
            0 <= j < tiles_of_lod(cache_dir, spec, lod, keys).len() && 0 <= k < tiles_of_lod(
                cache_dir,
                spec,
                lod,
                keys,
            ).len() && #[trigger] covers(
                tiles_of_lod(cache_dir, spec, lod, keys)[j],
                column,
                row,
            ) && #[trigger] covers(tiles_of_lod(cache_dir, spec, lod, keys)[k], column, row)
                ==> j == k,
{
    reveal(tile_at);
    let tiles = tiles_of_lod(cache_dir, spec, lod, keys);
    let cells = cells_at(spec.tile_cells as nat, lod) as int;
    let width = tile_columns(spec, lod) as int;
    let height = tile_rows(spec, lod) as int;
    lemma_cells_at(spec.tile_cells as nat, lod);
    lemma_ceil_div(spec.columns as nat, cells as nat);
    lemma_ceil_div(spec.rows as nat, cells as nat);
    let tile_row = row / cells;
    let tile_column = column / cells;
    vstd::arithmetic::div_mod::lemma_fundamental_div_mod(row, cells);
    vstd::arithmetic::div_mod::lemma_fundamental_div_mod(column, cells);
    assert(cells * tile_row == tile_row * cells) by (nonlinear_arith);
    assert(cells * tile_column == tile_column * cells) by (nonlinear_arith);
    assert(0 <= tile_column < width) by (nonlinear_arith)
        requires
            0 <= tile_column * cells + column % cells,
            tile_column * cells + column % cells < width * cells,
            0 <= column % cells < cells,
            cells > 0,
    ;
    assert(0 <= tile_row < height) by (nonlinear_arith)
        requires
            0 <= tile_row * cells + row % cells,
            tile_row * cells + row % cells < height * cells,
            0 <= row % cells < cells,
            cells > 0,
    ;
    let index = tile_row * width + tile_column;
    lemma_fundamental_div_mod_converse(index, width, tile_row, tile_column);
    assert(0 <= index < height * width) by (nonlinear_arith)
        requires
            index == tile_row * width + tile_column,
            0 <= tile_column < width,
            0 <= tile_row < height,
    ;
    assert(tile_row * cells >= 0) by (nonlinear_arith)
        requires
            tile_row >= 0,
            cells > 0,
    ;
    assert(tile_column * cells >= 0) by (nonlinear_arith)
        requires
            tile_column >= 0,
            cells > 0,
    ;
    assert(tiles[index] == tile_at(cache_dir, spec, lod, keys, tile_row, tile_column));
    assert(covers(tiles[index], column, row));
    assert forall|j: int| 0 <= j < tiles.len() && #[trigger] covers(tiles[j], column, row) implies j
        == index by {
        let r = j / width;
        let c = j % width;
        vstd::arithmetic::div_mod::lemma_fundamental_div_mod(j, width);
        assert(r >= 0) by (nonlinear_arith)
            requires
                r == j / width,
                j >= 0,
                width > 0,
        ;
        assert(tiles[j] == tile_at(cache_dir, spec, lod, keys, r, c));
        assert(r * cells >= 0) by (nonlinear_arith)
            requires
                r >= 0,
                cells > 0,
        ;
        assert(c * cells >= 0) by (nonlinear_arith)
            requires
                c >= 0,
                cells > 0,
        ;
        lemma_fundamental_div_mod_converse(column, cells, c, column - c * cells);
        lemma_fundamental_div_mod_converse(row, cells, r, row - r * cells);
        assert(width * r == r * width) by (nonlinear_arith);
    }
}

/// The last tile of a pyramid covers the whole world.
pub proof fn law_pyramid_ends_in_one_tile(
    cache_dir: Seq<char>,
    spec: TileCacheSpec,
    lod: nat,
    keys: Seq<Seq<char>>,
)
    requires
        spec.columns > 0,
        spec.rows > 0,
    ensures
        pyramid_from(cache_dir, spec, lod, keys).len() > 0,
        ({
            let tile = pyramid_from(cache_dir, spec, lod, keys).last();
            &&& tile.start_column == 0
            &&& tile.start_row == 0
            &&& tile.end_column == spec.columns
            &&& tile.end_row == spec.rows
        }),
    decreases span_left(spec, lod),
{
    let tiles = tiles_of_lod(cache_dir, spec, lod, keys);
    if tile_count(spec, lod) <= 1 {
        reveal(tile_at);
        let cells = cells_at(spec.tile_cells as nat, lod);
        let width = tile_columns(spec, lod);
        let height = tile_rows(spec, lod);
        lemma_cells_at(spec.tile_cells as nat, lod);
        lemma_ceil_div(spec.columns as nat, cells);
        lemma_ceil_div(spec.rows as nat, cells);
        assert(width == 1 && height == 1) by (nonlinear_arith)
            requires
                height * width <= 1,
                width >= 1,
                height >= 1,
        ;
        assert(height * width == 1) by (nonlinear_arith)
            requires
                width == 1,
                height == 1,
        ;
        assert(tiles.len() == 1);
        lemma_fundamental_div_mod_converse(0, width as int, 0, 0);
        assert(width * cells == cells && height * cells == cells && 0 * cells == 0)
            by (nonlinear_arith)
            requires
                width == 1,
                height == 1,
        ;
        assert(tiles[0] == tile_at(cache_dir, spec, lod, keys, 0, 0));
    } else {
        lemma_span_left(spec, lod);
        law_pyramid_ends_in_one_tile(cache_dir, spec, lod + 1, keys);
        let rest = pyramid_from(cache_dir, spec, lod + 1, keys);
        assert(pyramid_from(cache_dir, spec, lod, keys) == tiles + rest);
        assert((tiles + rest).last() == rest.last());
    }
}

// ---------------------------------------------------------------------------
// What is cached

/// How much of a level is cached.
#[derive(Clone, Copy, Debug, PartialEq, Eq, Structural)]
pub struct WorldLodCacheStatus {
    pub lod: usize,
    pub tile_ready: usize,
    pub tile_missing: usize,
}

/// How many of the tiles stand at a level.
pub open spec fn lod_count(tiles: Seq<TileView>, lod: nat) -> nat
    decreases tiles.len(),
{
    if tiles.len() == 0 {
        0
    } else if tiles.last().lod == lod {
        lod_count(tiles.drop_last(), lod) + 1
    } else {
        lod_count(tiles.drop_last(), lod)
    }
}

/// How many of the tiles stand at a level and have an image among the files.
pub open spec fn lod_ready(tiles: Seq<TileView>, lod: nat, files: Seq<(Seq<char>, u64)>) -> nat
    decreases tiles.len(),
{
    if tiles.len() == 0 {
        0
    } else if tiles.last().lod == lod && textmap::entries_get(files, tiles.last().image_path) is Some {
        lod_ready(tiles.drop_last(), lod, files) + 1
    } else {
        lod_ready(tiles.drop_last(), lod, files)
    }
}

/// How many images are among the files.
pub open spec fn stored_count(images: Seq<Seq<char>>, files: Seq<(Seq<char>, u64)>) -> nat
    decreases images.len(),
{
    if images.len() == 0 {
        0
    } else if textmap::entries_get(files, images.last()) is Some {
        stored_count(images.drop_last(), files) + 1
    } else {
        stored_count(images.drop_last(), files)
    }
}

/// The coarsest level at which one of the tiles stands.
pub open spec fn top_lod(tiles: Seq<TileView>) -> nat
    decreases tiles.len(),
{
    if tiles.len() == 0 {
        0
    } else if tiles.last().lod > top_lod(tiles.drop_last()) {
        tiles.last().lod
    } else {
        top_lod(tiles.drop_last())
    }
}

/// How much of each level is cached.
pub open spec fn lod_statuses(tiles: Seq<TileView>, files: Seq<(Seq<char>, u64)>) -> Seq<
    WorldLodCacheStatus,
> {
    if tiles.len() == 0 {
        Seq::empty()
    } else {
        Seq::new(
            top_lod(tiles) + 1,
            |lod: int|
                WorldLodCacheStatus {
                    lod: lod as usize,
                    tile_ready: lod_ready(tiles, lod as nat, files) as usize,
                    tile_missing: (lod_count(tiles, lod as nat) - lod_ready(
                        tiles,
                        lod as nat,
                        files,
                    )) as usize,
                },
        )
    }
}

/// What is ready of a level is a part of it.
pub proof fn lemma_lod_ready(tiles: Seq<TileView>, lod: nat, files: Seq<(Seq<char>, u64)>)
    ensures
        lod_ready(tiles, lod, files) <= lod_count(tiles, lod) <= tiles.len(),
    decreases tiles.len(),
{
    if tiles.len() > 0 {
        lemma_lod_ready(tiles.drop_last(), lod, files);
    }
}

/// What is stored of a list of images is a part of it.
pub proof fn lemma_stored_count(images: Seq<Seq<char>>, files: Seq<(Seq<char>, u64)>)
    ensures
        stored_count(images, files) <= images.len(),
    decreases images.len(),
{
    if images.len() > 0 {
        lemma_stored_count(images.drop_last(), files);
    }
}

fn lod_status(entries: &Vec<WorldTileCacheEntry>, lod: usize, files: &TextMap<u64>) -> (status:
    WorldLodCacheStatus)
    ensures
        status.lod == lod,
        status.tile_ready == lod_ready(tile_views(entries@), lod as nat, files.raw()),
        status.tile_ready + status.tile_missing == lod_count(tile_views(entries@), lod as nat),
{
    let ghost all = tile_views(entries@);
    let ghost names = files.raw();
    let mut ready: usize = 0;
    let mut missing: usize = 0;
    let mut i: usize = 0;
    assert(all.take(0) =~= Seq::<TileView>::empty());
    while i < entries.len()
        invariant
            i <= entries@.len(),
            all == tile_views(entries@),
            names == files.raw(),
            ready == lod_ready(all.take(i as int), lod as nat, names),
            ready + missing == lod_count(all.take(i as int), lod as nat),
            ready + missing <= i,
        decreases entries@.len() - i,
    {
        proof {
            assert(all.take(i + 1).drop_last() =~= all.take(i as int));
            assert(all.take(i + 1).last() == entries@[i as int]@);
        }
        if entries[i].lod == lod {
            if files.contains_key(entries[i].image_path.as_str()) {
                ready = ready + 1;
            } else {
                missing = missing + 1;
            }
        }
        i = i + 1;
    }
    assert(all.take(i as int) =~= all);
    WorldLodCacheStatus { lod, tile_ready: ready, tile_missing: missing }
}

/// How much of each level is cached: the first level comes first, and the last is the
/// coarsest at which there is a tile.
pub fn world_lod_cache_statuses(entries: &Vec<WorldTileCacheEntry>, files: &TextMap<u64>)
    -> (statuses: Vec<WorldLodCacheStatus>)
    ensures
        statuses@ == lod_statuses(tile_views(entries@), files.raw()),
{
    let ghost all = tile_views(entries@);
    let ghost names = files.raw();
    let mut statuses: Vec<WorldLodCacheStatus> = Vec::new();
    if entries.len() == 0 {
        assert(statuses@ =~= lod_statuses(all, names));
        return statuses;
    }
    let mut top: usize = 0;
    let mut i: usize = 0;
    assert(all.take(0) =~= Seq::<TileView>::empty());
    while i < entries.len()
        invariant
            i <= entries@.len(),
            all == tile_views(entries@),
            top == top_lod(all.take(i as int)),
        decreases entries@.len() - i,
    {
        proof {
            assert(all.take(i + 1).drop_last() =~= all.take(i as int));
            assert(all.take(i + 1).last() == entries@[i as int]@);
        }
        if entries[i].lod > top {
            top = entries[i].lod;
        }
        i = i + 1;
    }
    assert(all.take(i as int) =~= all);
    let mut lod: usize = 0;
    loop
        invariant_except_break
            lod <= top,
            statuses@ == lod_statuses(all, names).take(lod as int),
        invariant
            all == tile_views(entries@),
            names == files.raw(),
            all.len() > 0,
            top == top_lod(all),
        ensures
            statuses@ == lod_statuses(all, names),
        decreases top - lod,
    {
        let status = lod_status(entries, lod, files);
        proof {
            lemma_lod_ready(all, lod as nat, names);
            assert(all.len() == entries@.len());
        }
        statuses.push(status);
        assert(statuses@ =~= lod_statuses(all, names).take(lod + 1));
        if lod == top {
            assert(statuses@ =~= lod_statuses(all, names));
            break;
        }
        lod = lod + 1;
    }
    statuses
}

} // verus!
