//! The grid of tiles of the canvas transition.

use crate::tiles::div_up;
use crate::tiles;
use crate::world;
use vstd::prelude::*;

verus! {

/// A size in pixels.
#[derive(Clone, Copy, Debug, PartialEq, Eq, Structural)]
pub struct Size {
    pub width: u32,
    pub height: u32,
}

/// How many columns and rows a canvas has.
#[derive(Clone, Copy, Debug, PartialEq, Eq, Structural)]
pub struct Grid {
    pub columns: usize,
    pub rows: usize,
}

/// The binary form of the greatest finite number of single precision. The forms of
/// numbers that are not negative are ordered as the numbers are; that of infinity and
/// those of no number lie above.
pub const GREATEST_SCORE: u32 = 0x7f7f_ffff;

/// The least grid with some number of columns that holds some number of tiles.
pub open spec fn grid_with(tile_count: nat, columns: nat) -> Grid {
    Grid {
        columns: columns as usize,
        rows: tiles::one_or_more(tiles::ceil_div(tile_count, columns)) as usize,
    }
}

/// The grids that can hold some number of tiles: one for each number of columns.
pub fn canvas_candidates(tile_count: usize) -> (grids: Vec<Grid>)
    ensures
        grids@ == Seq::new(
            tiles::one_or_more(tile_count as nat),
            |i: int| grid_with(tiles::one_or_more(tile_count as nat), (i + 1) as nat),
        ),
{
    let tile_count: usize = if tile_count == 0 {
        1
    } else {
        tile_count
    };
    let ghost wanted = Seq::new(
        tile_count as nat,
        |i: int| grid_with(tile_count as nat, (i + 1) as nat),
    );
    let mut grids: Vec<Grid> = Vec::new();
    let mut columns: usize = 0;
    while columns < tile_count
        invariant
            columns <= tile_count,
            wanted == Seq::new(
                tile_count as nat,
                |i: int| grid_with(tile_count as nat, (i + 1) as nat),
            ),
            grids@ == wanted.take(columns as int),
        decreases tile_count - columns,
    {
        columns = columns + 1;
        let rows = div_up(tile_count, columns);
        let ghost before = grids@;
        grids.push(
            Grid {
                columns,
                rows: if rows == 0 {
                    1
                } else {
                    rows
                },
            },
        );
        assert(wanted[columns - 1] == grid_with(tile_count as nat, columns as nat));
        assert(grids@ =~= wanted.take(columns as int));
    }
    assert(grids@ =~= wanted);
    grids
}

/// Whether a score is the first of the least ones, and one that counts.
pub open spec fn is_best(scores: Seq<u32>, i: int) -> bool {
    &&& 0 <= i < scores.len()
    &&& scores[i] < GREATEST_SCORE
    &&& forall|k: int| 0 <= k < scores.len() ==> scores[i] <= #[trigger] scores[k]
    &&& forall|k: int| 0 <= k < i ==> scores[i] < #[trigger] scores[k]
}

/// Whether a grid is the one with the best score, or a single row where no score counts.
pub open spec fn is_best_grid(grid: Grid, tile_count: nat, scores: Seq<u32>) -> bool {
    if exists|i: int| is_best(scores, i) {
        exists|i: int| #[trigger]
            is_best(scores, i) && grid == grid_with(tile_count, (i + 1) as nat)
    } else {
        grid == Grid { columns: tile_count as usize, rows: 1 }
    }
}

/// The grid for a number of tiles: the first with the least score. A score is the binary
/// form of a number of single precision that is not negative, one for each number of
/// columns.
pub fn canvas_grid(tile_count: usize, scores: &Vec<u32>) -> (grid: Grid)
    requires
        scores@.len() == tiles::one_or_more(tile_count as nat),
    ensures
        is_best_grid(grid, tiles::one_or_more(tile_count as nat), scores@),
{
    let tile_count: usize = if tile_count == 0 {
        1
    } else {
        tile_count
    };
    let mut best = Grid { columns: tile_count, rows: 1 };
    let mut best_score: u32 = GREATEST_SCORE;
    let ghost mut chosen: int = -1;
    let mut i: usize = 0;
    while i < tile_count
        invariant
            i <= tile_count,
            tile_count == scores@.len(),
            best_score <= GREATEST_SCORE,
            forall|k: int| 0 <= k < i ==> best_score <= #[trigger] scores@[k],
            -1 <= chosen < i,
            chosen == -1 ==> best_score == GREATEST_SCORE && best == (Grid {
                columns: tile_count,
                rows: 1,
            }),
            chosen >= 0 ==> {
                &&& best_score == scores@[chosen]
                &&& best_score < GREATEST_SCORE
                &&& best == grid_with(tile_count as nat, (chosen + 1) as nat)
                &&& forall|k: int| 0 <= k < chosen ==> best_score < #[trigger] scores@[k]
            },
        decreases tile_count - i,
    {
        let score = scores[i];
        let columns: usize = i + 1;
        if score < best_score {
            let rows = div_up(tile_count, columns);
            best_score = score;
            best = Grid {
                columns,
                rows: if rows == 0 {
                    1
                } else {
                    rows
                },
            };
            proof {
                chosen = i as int;
            }
        }
        i = columns;
    }
    proof {
        if chosen >= 0 {
            assert(is_best(scores@, chosen));
        } else {
            assert forall|k: int| !is_best(scores@, k) by {
                if 0 <= k < scores@.len() {
                    assert(scores@[k] >= GREATEST_SCORE);
                }
            }
        }
    }
    best
}

/// A number, or the greatest that can count where it is greater.
pub open spec fn at_most_max(n: nat) -> nat {
    if n > usize::MAX {
        usize::MAX as nat
    } else {
        n
    }
}

fn times(a: usize, b: usize) -> (product: usize)
    ensures
        product == at_most_max((a * b) as nat),
{
    proof {
        assert(a * b >= 0) by (nonlinear_arith);
    }
    match a.checked_mul(b) {
        Some(product) => product,
        None => usize::MAX,
    }
}

/// How many tiles an overview needs across: the tile in its middle, and the margin on
/// both sides.
pub open spec fn cross_axis(margin: usize) -> nat {
    at_most_max(at_most_max((margin * 2) as nat) + 1)
}

fn across(margin: usize) -> (tiles: usize)
    ensures
        tiles == cross_axis(margin),
{
    times(margin, 2).saturating_add(1)
}

/// The grid for an overview with some margin around the tile in its middle: it is as high
/// (or wide) as the overview needs, and as long as the tiles allow. Where the tiles are
/// too few it is the grid with the best score.
pub fn canvas_grid_for_overview_axis(
    tile_count: usize,
    margin: usize,
    horizontal: bool,
    scores: &Vec<u32>,
) -> (grid: Grid)
    requires
        scores@.len() == tiles::one_or_more(tile_count as nat),
    ensures
        ({
            let count = tiles::one_or_more(tile_count as nat);
            let short = cross_axis(margin);
            let needed = at_most_max(short + 1);
            let long = world::greater(tiles::ceil_div(count, short), needed);
            if count < at_most_max(short * needed) {
                is_best_grid(grid, count, scores@)
            } else if horizontal {
                grid.columns == long && grid.rows == short
            } else {
                grid.columns == short && grid.rows == long
            }
        }),
{
    let count: usize = if tile_count == 0 {
        1
    } else {
        tile_count
    };
    let short = across(margin);
    let needed = short.saturating_add(1);
    if count < times(short, needed) {
        return canvas_grid(tile_count, scores);
    }
    let covered = div_up(count, short);
    let long: usize = if covered >= needed {
        covered
    } else {
        needed
    };
    if horizontal {
        Grid { columns: long, rows: short }
    } else {
        Grid { columns: short, rows: long }
    }
}

/// The grid for an overview on an output: the grid's longer side lies along the output's.
pub fn canvas_grid_for_overview(
    tile_count: usize,
    output: Size,
    margin: usize,
    scores: &Vec<u32>,
) -> (grid: Grid)
    requires
        scores@.len() == tiles::one_or_more(tile_count as nat),
    ensures
        ({
            let count = tiles::one_or_more(tile_count as nat);
            let short = cross_axis(margin);
            let needed = at_most_max(short + 1);
            let long = world::greater(tiles::ceil_div(count, short), needed);
            if count < at_most_max(short * needed) {
                is_best_grid(grid, count, scores@)
            } else if output.width >= output.height {
                grid.columns == long && grid.rows == short
            } else {
                grid.columns == short && grid.rows == long
            }
        }),
{
    canvas_grid_for_overview_axis(tile_count, margin, output.width >= output.height, scores)
}

/// How many tiles an overview with some margin needs to pan over some tiles.
pub open spec fn overview_tiles(margin: usize, max: usize, pan_tiles: usize) -> nat {
    let short = cross_axis(margin);
    let long = at_most_max(short + at_most_max(tiles::one_or_more(pan_tiles as nat) * 2));
    let wanted = at_most_max(long * short);
    if wanted < 1 {
        1
    } else if wanted > tiles::one_or_more(max as nat) {
        tiles::one_or_more(max as nat)
    } else {
        wanted
    }
}

/// How many tiles an overview needs for a pan along an axis, up to a greatest number.
pub fn auto_canvas_tile_count_for_pan_axis(
    margin: usize,
    max: usize,
    pan_tiles: usize,
    horizontal: bool,
) -> (count: usize)
    ensures
        count == overview_tiles(margin, max, pan_tiles),
{
    let pan: usize = if pan_tiles == 0 {
        1
    } else {
        pan_tiles
    };
    let max: usize = if max == 0 {
        1
    } else {
        max
    };
    let short = across(margin);
    let long = short.saturating_add(times(pan, 2));
    let (columns, rows) = if horizontal {
        (long, short)
    } else {
        (short, long)
    };
    proof {
        assert(short * long == long * short) by (nonlinear_arith);
    }
    let wanted = times(columns, rows);
    if wanted < 1 {
        1
    } else if wanted > max {
        max
    } else {
        wanted
    }
}

/// How many tiles an overview needs for a pan along the output's longer side.
pub fn auto_canvas_tile_count_for_pan(margin: usize, output: Size, max: usize, pan_tiles: usize)
    -> (count: usize)
    ensures
        count == overview_tiles(margin, max, pan_tiles),
{
    auto_canvas_tile_count_for_pan_axis(margin, max, pan_tiles, output.width >= output.height)
}

/// How many tiles an overview needs for a pan to the next tile.
pub fn auto_canvas_tile_count(margin: usize, output: Size, max: usize) -> (count: usize)
    ensures
        count == overview_tiles(margin, max, 1),
{
    auto_canvas_tile_count_for_pan(margin, output, max, 1)
}

/// A grid for an overview holds every tile, and keeps the margin across and one more tile
/// along, wherever there are enough tiles for that.
pub proof fn law_overview_grid_holds_the_tiles(tile_count: nat, margin: usize)
    requires
        tile_count <= usize::MAX,
        tile_count >= at_most_max(cross_axis(margin) * at_most_max(cross_axis(margin) + 1)),
    ensures
        ({
            let short = cross_axis(margin);
            let needed = at_most_max(short + 1);
            let long = world::greater(tiles::ceil_div(tile_count, short), needed);
            &&& long * short >= tile_count
            &&& long >= needed
        }),
{
    let short = cross_axis(margin);
    let needed = at_most_max(short + 1);
    let covered = tiles::ceil_div(tile_count, short);
    tiles::lemma_ceil_div(tile_count, short);
    let long = world::greater(covered, needed);
    assert(long * short >= covered * short) by (nonlinear_arith)
        requires
            long >= covered,
    ;
}

/// With as many tiles as an overview asks for, and no bound on them, the overview's grid
/// keeps its margin.
pub proof fn law_overview_gets_the_tiles_it_needs(margin: usize, pan_tiles: usize)
    ensures
        overview_tiles(margin, usize::MAX, pan_tiles) >= at_most_max(
            cross_axis(margin) * at_most_max(cross_axis(margin) + 1),
        ),
{
    let short = cross_axis(margin);
    let needed = at_most_max(short + 1);
    let long = at_most_max(short + at_most_max(tiles::one_or_more(pan_tiles as nat) * 2));
    assert(long >= needed);
    assert(long * short >= short * needed) by (nonlinear_arith)
        requires
            long >= needed,
            short >= 1,
    ;
    assert(short * needed >= 1) by (nonlinear_arith)
        requires
            short >= 1,
            needed >= 1,
    ;
}

} // verus!
