//! What is proved of the pictures of the world and of the figures that are told of it: where each
//! piece stands, how large pictures are, and what sizes and rates say.

use crate::mosaic::{CellPlacement, ChildGrid, Pixels, WorldCellBlock, WorldLodChildBlock};
use crate::tiles::TileView;
use crate::canvas;
use crate::hashing;
use crate::mosaic;
use crate::run;
use crate::text;
use crate::tiles;
use vstd::prelude::*;

verus! {

// ---------------------------------------------------------------------------
// The tiles that a tile is put together from

/// Whether a block shows a cell.
pub open spec fn shows(block: WorldLodChildBlock, row: nat, column: nat) -> bool {
    &&& block.start_row <= row < block.end_row
    &&& block.start_column <= column < block.end_column
}

proof fn lemma_row_blocks(
    grid: ChildGrid,
    tile: TileView,
    row: int,
    end: int,
    block: WorldLodChildBlock,
)
    requires
        end <= usize::MAX,
        0 <= row <= usize::MAX,
    ensures
        mosaic::blocks_in_row(grid, tile, row, end).contains(block) <==> {
            &&& grid.start_column <= block.child_column < end
            &&& block == mosaic::child_block(grid, tile, row, block.child_column as int)
        },
    decreases end - grid.start_column,
{
    let all = mosaic::blocks_in_row(grid, tile, row, end);
    if end > grid.start_column {
        let before = mosaic::blocks_in_row(grid, tile, row, end - 1);
        let last = mosaic::child_block(grid, tile, row, end - 1);
        lemma_row_blocks(grid, tile, row, end - 1, block);
        assert(all[before.len() as int] == last);
        assert(last.child_column == end - 1);
        if before.contains(block) {
            let i = choose|i: int| 0 <= i < before.len() && before[i] == block;
            assert(all[i] == block);
        }
        if all.contains(block) {
            let i = choose|i: int| 0 <= i < all.len() && all[i] == block;
            if i < before.len() {
                assert(before[i] == block);
            }
        }
    }
}

proof fn lemma_blocks(grid: ChildGrid, tile: TileView, end: int, block: WorldLodChildBlock)
    requires
        end <= usize::MAX,
    ensures
        mosaic::blocks_in(grid, tile, end).contains(block) <==> {
            &&& grid.start_row <= block.child_row < end
            &&& grid.start_column <= block.child_column < grid.end_column
            &&& block == mosaic::child_block(
                grid,
                tile,
                block.child_row as int,
                block.child_column as int,
            )
        },
    decreases end - grid.start_row,
{
    if end > grid.start_row {
        let before = mosaic::blocks_in(grid, tile, end - 1);
        let row = mosaic::blocks_in_row(grid, tile, end - 1, grid.end_column as int);
        lemma_blocks(grid, tile, end - 1, block);
        lemma_row_blocks(grid, tile, end - 1, grid.end_column as int, block);
        let all = before + row;
        if all.contains(block) {
            let i = choose|i: int| 0 <= i < all.len() && all[i] == block;
            if i < before.len() {
                assert(before[i] == block);
            } else {
                assert(row[i - before.len()] == block);
            }
        }
        if before.contains(block) {
            let i = choose|i: int| 0 <= i < before.len() && before[i] == block;
            assert(all[i] == block);
        }
        if row.contains(block) {
            let i = choose|i: int| 0 <= i < row.len() && row[i] == block;
            assert(all[before.len() + i] == block);
        }
    }
}

proof fn lemma_child_range(child: nat, cells: nat, end: nat, place: nat)
    requires
        cells > 0,
        place < end <= usize::MAX,
    ensures
        mosaic::child_range(child, cells, end).0 <= place < mosaic::child_range(
            child,
            cells,
            end,
        ).1 <==> child == place / cells,
{
    let q = place / cells;
    vstd::arithmetic::div_mod::lemma_fundamental_div_mod(place as int, cells as int);
    vstd::arithmetic::div_mod::lemma_mod_bound(place as int, cells as int);
    assert(cells * q == q * cells) by (nonlinear_arith);
    if child < q {
        assert(child * cells + cells <= q * cells) by (nonlinear_arith)
            requires
                child + 1 <= q,
        ;
    } else if child > q {
        assert(child * cells >= q * cells + cells) by (nonlinear_arith)
            requires
                child >= q + 1,
        ;
    }
}

/// Every cell of a tile is shown by one of the tiles of the level below that the tile is put
/// together from, and by no other. It is the one that is named after the cell's row and column
/// in steps of that level.
#[verifier::spinoff_prover]
pub proof fn law_pieces_part_the_tile(
    tile: TileView,
    row: nat,
    column: nat,
    block: WorldLodChildBlock,
)
    requires
        tile.lod > 0,
        tile.start_row <= row < tile.end_row <= usize::MAX,
        tile.start_column <= column < tile.end_column <= usize::MAX,
    ensures
        ({
            let cells = tiles::cells_at(8, (tile.lod - 1) as nat);
            mosaic::blocks_of(tile).contains(block) && shows(block, row, column) <==> {
                &&& block.child_row == row / cells
                &&& block.child_column == column / cells
                &&& block == mosaic::child_block(
                    mosaic::child_grid(tile),
                    tile,
                    (row / cells) as int,
                    (column / cells) as int,
                )
            }
        }),
{
    let grid = mosaic::child_grid(tile);
    let cells = tiles::cells_at(8, (tile.lod - 1) as nat);
    tiles::lemma_cells_at(8, (tile.lod - 1) as nat);
    tiles::lemma_ceil_div(tile.end_row, cells);
    tiles::lemma_ceil_div(tile.end_column, cells);
    lemma_blocks(grid, tile, grid.end_row as int, block);
    lemma_child_range(block.child_row as nat, cells, tile.end_row, row);
    lemma_child_range(block.child_column as nat, cells, tile.end_column, column);
    lemma_quotient_within(tile.start_row, row, tile.end_row, cells);
    lemma_quotient_within(tile.start_column, column, tile.end_column, cells);
    let wanted = mosaic::child_block(
        grid,
        tile,
        (row / cells) as int,
        (column / cells) as int,
    );
    assert(wanted.child_row == row / cells && wanted.child_column == column / cells);
    lemma_child_bounds(block.child_row as nat, cells, tile.end_row);
    lemma_child_bounds(block.child_column as nat, cells, tile.end_column);
}

proof fn lemma_child_bounds(child: nat, cells: nat, end: nat)
    requires
        end <= usize::MAX,
    ensures
        mosaic::child_range(child, cells, end).0 <= usize::MAX,
        mosaic::child_range(child, cells, end).1 <= usize::MAX,
{
}

proof fn lemma_quotient_within(start: nat, place: nat, end: nat, cells: nat)
    requires
        start <= place < end <= usize::MAX,
        cells > 0,
    ensures
        start / cells <= place / cells < tiles::ceil_div(end, cells),
        place / cells <= usize::MAX,
{
    tiles::lemma_ceil_div(end, cells);
    let q = place / cells;
    let last = tiles::ceil_div(end, cells);
    vstd::arithmetic::div_mod::lemma_div_is_ordered(start as int, place as int, cells as int);
    vstd::arithmetic::div_mod::lemma_fundamental_div_mod(place as int, cells as int);
    assert(q < last) by (nonlinear_arith)
        requires
            cells * q <= place,
            place < end,
            end <= last * cells,
            cells > 0,
    ;
    assert(q <= place) by (nonlinear_arith)
        requires
            cells * q <= place,
            cells > 0,
    ;
}

// ---------------------------------------------------------------------------
// Thumbnails

proof fn lemma_row_places(
    cell_count: usize,
    columns: usize,
    block: WorldLodChildBlock,
    width: u32,
    height: u32,
    row: int,
    end: int,
    column: int,
)
    requires
        block.start_column <= column < end,
        row * columns + column < cell_count,
    ensures
        mosaic::places_in_row(cell_count, columns, block, width, height, row, end).contains(
            mosaic::placed_at(columns, block, width, height, row, column),
        ),
    decreases end - block.start_column,
{
    let before = mosaic::places_in_row(cell_count, columns, block, width, height, row, end - 1);
    let all = mosaic::places_in_row(cell_count, columns, block, width, height, row, end);
    let place = mosaic::placed_at(columns, block, width, height, row, column);
    if column == end - 1 {
        assert(all[before.len() as int] == place);
    } else {
        lemma_row_places(cell_count, columns, block, width, height, row, end - 1, column);
        let i = choose|i: int| 0 <= i < before.len() && before[i] == place;
        assert(all[i] == place);
    }
}

proof fn lemma_places(
    cell_count: usize,
    columns: usize,
    block: WorldLodChildBlock,
    width: u32,
    height: u32,
    end: int,
    row: int,
    column: int,
)
    requires
        block.start_row <= row < end,
        block.start_column <= column < block.end_column,
        row * columns + column < cell_count,
    ensures
        mosaic::places_in(cell_count, columns, block, width, height, end).contains(
            mosaic::placed_at(columns, block, width, height, row, column),
        ),
    decreases end - block.start_row,
{
    let before = mosaic::places_in(cell_count, columns, block, width, height, end - 1);
    let last = mosaic::places_in_row(
        cell_count,
        columns,
        block,
        width,
        height,
        end - 1,
        block.end_column as int,
    );
    let all = mosaic::places_in(cell_count, columns, block, width, height, end);
    let place = mosaic::placed_at(columns, block, width, height, row, column);
    if row == end - 1 {
        lemma_row_places(
            cell_count,
            columns,
            block,
            width,
            height,
            row,
            block.end_column as int,
            column,
        );
        let i = choose|i: int| 0 <= i < last.len() && last[i] == place;
        assert(all[before.len() + i] == place);
    } else {
        lemma_places(cell_count, columns, block, width, height, end - 1, row, column);
        let i = choose|i: int| 0 <= i < before.len() && before[i] == place;
        assert(all[i] == place);
    }
}

/// A tile of the first level is 384 pixels wide and high for each of its columns and rows, and
/// the thumbnail of each of its cells fills the square of the cell.
#[verifier::spinoff_prover]
pub proof fn law_thumbnails_fill_their_squares(
    tile: TileView,
    cell_count: usize,
    columns: usize,
    row: nat,
    column: nat,
)
    requires
        tile.start_row <= row < tile.end_row <= usize::MAX,
        tile.start_column <= column < tile.end_column <= usize::MAX,
        row * columns + column < cell_count,
        mosaic::l0_size(tile) is Ok,
    ensures
        mosaic::l0_size(tile) == Ok::<(u32, u32), Seq<char>>(
            (
                (384 * (tile.end_column - tile.start_column)) as u32,
                (384 * (tile.end_row - tile.start_row)) as u32,
            ),
        ),
        384 * (tile.end_column - tile.start_column) <= u32::MAX,
        384 * (tile.end_row - tile.start_row) <= u32::MAX,
        mosaic::l0_places(tile, cell_count, columns).contains(
            CellPlacement {
                cell: (row * columns + column) as usize,
                x: (384 * (column - tile.start_column)) as u32,
                y: (384 * (row - tile.start_row)) as u32,
                width: 384,
                height: 384,
            },
        ),
{
    let (width, height) = mosaic::l0_size(tile)->Ok_0;
    let across = (tile.end_column - tile.start_column) as nat;
    let down = (tile.end_row - tile.start_row) as nat;
    let i = (column - tile.start_column) as nat;
    let j = (row - tile.start_row) as nat;
    let block = mosaic::tile_block(tile);
    assert(across * 384 == 384 * across && down * 384 == 384 * down);
    mosaic::law_whole_cells_stand_side_by_side(i, across, 384, width);
    mosaic::law_whole_cells_stand_side_by_side(i + 1, across, 384, width);
    mosaic::law_whole_cells_stand_side_by_side(j, down, 384, height);
    mosaic::law_whole_cells_stand_side_by_side(j + 1, down, 384, height);
    lemma_places(
        cell_count,
        columns,
        block,
        width,
        height,
        tile.end_row as int,
        row as int,
        column as int,
    );
    let place = mosaic::placed_at(columns, block, width, height, row as int, column as int);
    assert(mosaic::part_start(i, across, width) == 384 * i);
    assert(mosaic::part_start(i + 1, across, width) == 384 * (i + 1));
    assert(mosaic::part_start(j, down, height) == 384 * j);
    assert(mosaic::part_start(j + 1, down, height) == 384 * (j + 1));
    assert(place.width == 384 && place.height == 384);
}

/// A tile of a higher level is 384 pixels wide and high for each column and row of tiles of the
/// level below.
pub proof fn law_higher_tiles_are_squares_of_tiles(tile: TileView)
    requires
        tile.lod > 0,
        tile.start_row < tile.end_row <= usize::MAX,
        tile.start_column < tile.end_column <= usize::MAX,
        mosaic::lod_size(tile) is Ok,
    ensures
        ({
            let cells = tiles::cells_at(8, (tile.lod - 1) as nat);
            let (width, height) = mosaic::lod_size(tile)->Ok_0;
            &&& width == 384 * (tiles::ceil_div(tile.end_column, cells) - tile.start_column / cells)
            &&& height == 384 * (tiles::ceil_div(tile.end_row, cells) - tile.start_row / cells)
        }),
{
    let cells = tiles::cells_at(8, (tile.lod - 1) as nat);
    tiles::lemma_cells_at(8, (tile.lod - 1) as nat);
    tiles::lemma_ceil_div(tile.end_row, cells);
    tiles::lemma_ceil_div(tile.end_column, cells);
    lemma_quotient_within(tile.start_row, tile.start_row, tile.end_row, cells);
    lemma_quotient_within(tile.start_column, tile.start_column, tile.end_column, cells);
}

/// Each thumbnail that could be had is laid where its cell stands, over those before it. One
/// that could not be had changes nothing, and is noted with its wallpaper and the reason.
pub proof fn law_thumbnails_are_laid_in_order(
    width: u32,
    height: u32,
    cells: Seq<tiles::WorldCellCacheEntry>,
    places: Seq<CellPlacement>,
    thumbnails: Seq<Result<Pixels, String>>,
    place: CellPlacement,
    thumbnail: Result<Pixels, String>,
)
    requires
        places.len() == thumbnails.len(),
    ensures
        mosaic::composed(width, height, Seq::empty(), Seq::empty()) == mosaic::clear(
            width as nat,
            height as nat,
        ),
        match thumbnail {
            Ok(picture) => {
                &&& mosaic::composed(
                    width,
                    height,
                    places.push(place),
                    thumbnails.push(thumbnail),
                ) == mosaic::overlaid(
                    mosaic::composed(width, height, places, thumbnails),
                    picture@,
                    place.x as int,
                    place.y as int,
                )
                &&& mosaic::missed(cells, places.push(place), thumbnails.push(thumbnail))
                    == mosaic::missed(cells, places, thumbnails)
            },
            Err(message) => {
                &&& mosaic::composed(
                    width,
                    height,
                    places.push(place),
                    thumbnails.push(thumbnail),
                ) == mosaic::composed(width, height, places, thumbnails)
                &&& mosaic::missed(
                    cells,
                    places.push(place),
                    thumbnails.push(thumbnail),
                ).drop_last() == mosaic::missed(cells, places, thumbnails)
                &&& ({
                    let note = mosaic::missed(
                        cells,
                        places.push(place),
                        thumbnails.push(thumbnail),
                    ).last();
                    &&& note.item == cells[place.cell as int].source_path@
                    &&& note.message == message@
                    &&& note.kind == "cell"@
                })
            },
        },
{
    assert(places.push(place).drop_last() =~= places);
    assert(thumbnails.push(thumbnail).drop_last() =~= thumbnails);
    if let Err(_) = thumbnail {
        assert(mosaic::missed(cells, places.push(place), thumbnails.push(thumbnail)).drop_last()
            =~= mosaic::missed(cells, places, thumbnails));
    }
}

/// Each picture of a tile of the level below is laid on its square.
pub proof fn law_pictures_stand_in_their_squares(
    width: u32,
    height: u32,
    grid: ChildGrid,
    blocks: Seq<WorldLodChildBlock>,
    pictures: Seq<WorldCellBlock>,
    block: WorldLodChildBlock,
    picture: WorldCellBlock,
)
    requires
        blocks.len() == pictures.len(),
        mosaic::is_child(grid, block),
    ensures
        mosaic::assembled(width, height, grid, blocks.push(block), pictures.push(picture))
            == mosaic::overlaid(
            mosaic::assembled(width, height, grid, blocks, pictures),
            picture.image@,
            384 * (block.child_column - grid.start_column),
            384 * (block.child_row - grid.start_row),
        ),
{
    assert(blocks.push(block).drop_last() =~= blocks);
    assert(pictures.push(picture).drop_last() =~= pictures);
    assert(384 * (block.child_column - grid.start_column) == (block.child_column
        - grid.start_column) * 384);
    assert(384 * (block.child_row - grid.start_row) == (block.child_row - grid.start_row) * 384);
}

// ---------------------------------------------------------------------------
// Overviews

/// An overview has one tile in its middle and its margin on every side, and twice as many tiles
/// more along as it pans over; as far as the greatest number of tiles allows.
pub proof fn law_overview_counts_its_tiles(margin: usize, max: usize, pan_tiles: usize)
    requires
        max > 0,
        pan_tiles > 0,
        2 * margin + 1 + 2 * pan_tiles <= usize::MAX,
        (2 * margin + 1) * (2 * margin + 1 + 2 * pan_tiles) <= usize::MAX,
    ensures
        canvas::overview_tiles(margin, max, pan_tiles) == if (2 * margin + 1) * (2 * margin + 1 + 2
            * pan_tiles) <= max {
            (2 * margin + 1) * (2 * margin + 1 + 2 * pan_tiles)
        } else {
            max as int
        },
{
    let short = 2 * margin + 1;
    let long = short + 2 * pan_tiles;
    assert(long * short == short * long) by (nonlinear_arith);
    assert(short * long >= 1) by (nonlinear_arith)
        requires
            short >= 1,
            long >= 1,
    ;
}

// ---------------------------------------------------------------------------
// Figures

/// A size below 1024 bytes is told in bytes.
pub proof fn law_small_sizes_are_told_in_bytes(bytes: u64)
    requires
        bytes < 1024,
    ensures
        run::size_text(bytes) == text::decimal_text(bytes as nat) + " B"@,
{
}

/// A size from 1024 bytes on is told in tenths of a unit, the nearest to it, and the unit is the
/// greatest that the size reaches.
pub proof fn law_sizes_are_told_to_a_tenth(bytes: u64, unit: nat, name: Seq<char>)
    requires
        ({
            ||| unit == 1024 && name == "KiB"@ && 1024 <= bytes < 1048576
            ||| unit == 1048576 && name == "MiB"@ && 1048576 <= bytes < 1073741824
            ||| unit == 1073741824 && name == "GiB"@ && 1073741824 <= bytes < 1099511627776
            ||| unit == 1099511627776 && name == "TiB"@ && 1099511627776 <= bytes
        }),
    ensures
        exists|tenths: nat|
            {
                &&& #[trigger] text::decimal_text(tenths / 10) + "."@ + text::decimal_text(tenths % 10)
                    + " "@ + name == run::size_text(bytes)
                &&& 2 * tenths * unit <= 20 * bytes + unit
                &&& 20 * bytes < 2 * tenths * unit + unit
            },
{
    let tenths = (bytes * 10 + unit / 2) as nat / unit;
    vstd::arithmetic::div_mod::lemma_fundamental_div_mod(
        (bytes * 10 + unit / 2) as int,
        unit as int,
    );
    vstd::arithmetic::div_mod::lemma_mod_bound((bytes * 10 + unit / 2) as int, unit as int);
    assert(unit * tenths == tenths * unit) by (nonlinear_arith);
    assert(2 * tenths * unit == 2 * (tenths * unit)) by (nonlinear_arith);
    assert(text::decimal_text(tenths / 10) + "."@ + text::decimal_text(tenths % 10) + " "@ + name
        == run::size_text(bytes));
}

/// A rate is told in thousandths of a piece in a second, rounded down.
pub proof fn law_rates_are_told_to_a_thousandth(processed: usize, elapsed_ms: u128)
    requires
        elapsed_ms > 0,
    ensures
        exists|rate: nat|
            {
                &&& #[trigger] text::decimal_text(rate / 1000) + "."@ + hashing::padded(rate % 1000, 3)
                    == run::rate_text(processed, elapsed_ms)
                &&& rate * elapsed_ms <= processed * 1000000
                &&& processed * 1000000 < (rate + 1) * elapsed_ms
            },
{
    let rate = (processed * 1_000_000) as nat / elapsed_ms as nat;
    vstd::arithmetic::div_mod::lemma_fundamental_div_mod(
        (processed * 1_000_000) as int,
        elapsed_ms as int,
    );
    vstd::arithmetic::div_mod::lemma_mod_bound((processed * 1_000_000) as int, elapsed_ms as int);
    assert(elapsed_ms * rate == rate * elapsed_ms) by (nonlinear_arith);
    assert((rate + 1) * elapsed_ms == rate * elapsed_ms + elapsed_ms) by (nonlinear_arith);
    assert(text::decimal_text(rate / 1000) + "."@ + hashing::padded(rate % 1000, 3)
        == run::rate_text(processed, elapsed_ms));
}

/// The grid with a number of columns has as few rows as hold the tiles.
pub proof fn law_grids_hold_their_tiles(tile_count: nat, columns: nat)
    requires
        0 < tile_count <= usize::MAX,
        0 < columns <= usize::MAX,
    ensures
        ({
            let grid = canvas::grid_with(tile_count, columns);
            &&& grid.columns == columns
            &&& grid.rows * columns >= tile_count
            &&& (grid.rows - 1) * columns < tile_count
        }),
{
    tiles::lemma_ceil_div(tile_count, columns);
}

/// A clear picture has the size that is asked for, and every pixel of it is clear.
pub proof fn law_clear_pictures_are_clear(width: nat, height: nat, column: int, row: int)
    requires
        0 <= column < width,
        0 <= row < height,
    ensures
        ({
            let picture = mosaic::clear(width, height);
            &&& picture.width == width
            &&& picture.height == height
            &&& picture.data.len() == 4 * width * height
            &&& mosaic::pixel_at(picture, column, row) == seq![0u8, 0u8, 0u8, 0u8]
        }),
{
    let picture = mosaic::clear(width, height);
    let at = row * width + column;
    assert(0 <= at < width * height) by (nonlinear_arith)
        requires
            at == row * width + column,
            0 <= column < width,
            0 <= row < height,
    ;
    assert(4 * width * height == 4 * (width * height)) by (nonlinear_arith);
    assert(mosaic::pixel_at(picture, column, row) =~= seq![0u8, 0u8, 0u8, 0u8]);
}

} // verus!
