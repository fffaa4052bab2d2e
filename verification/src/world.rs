//! The world of wallpapers in cells: where each wallpaper lies, what of the world is in
//! view, and which tiles a route through it needs.

use crate::text::text_eq;
use crate::tiles::div_up;
use vstd::arithmetic::div_mod::lemma_fundamental_div_mod_converse;
use crate::text;
use crate::tiles;
use vstd::prelude::*;

verus! {

// ---------------------------------------------------------------------------
// Layout

/// A grid on which wallpapers lie row by row.
#[derive(Clone, Copy, Debug, PartialEq, Eq, Structural)]
pub struct WorldLayout {
    pub entry_count: usize,
    pub columns: usize,
    pub rows: usize,
}

/// The place of a wallpaper in the world.
#[derive(Clone, Copy, Debug, PartialEq, Eq, Structural)]
pub struct WorldCell {
    pub index: usize,
    pub column: usize,
    pub row: usize,
}

/// The place of a wallpaper on a grid, if it lies there.
pub open spec fn cell_at(layout: WorldLayout, index: usize) -> Option<WorldCell> {
    if index >= layout.entry_count {
        None
    } else {
        Some(WorldCell { index, column: index % layout.columns, row: index / layout.columns })
    }
}

/// The grid for a number of wallpapers.
pub open spec fn layout_for(entry_count: usize, columns: usize) -> WorldLayout {
    let columns = tiles::one_or_more(columns as nat) as usize;
    WorldLayout {
        entry_count,
        columns,
        rows: tiles::ceil_div(entry_count as nat, columns as nat) as usize,
    }
}

impl WorldLayout {
    /// A grid for a number of wallpapers, with at least one column.
    pub fn new(entry_count: usize, columns: usize) -> (layout: Self)
        ensures
            layout == layout_for(entry_count, columns),
            layout.columns > 0,
    {
        let columns: usize = if columns == 0 {
            1
        } else {
            columns
        };
        WorldLayout { entry_count, columns, rows: div_up(entry_count, columns) }
    }

    /// The place of a wallpaper, if it lies on the grid.
    pub fn cell(self, index: usize) -> (cell: Option<WorldCell>)
        requires
            index < self.entry_count ==> self.columns > 0,
        ensures
            cell == cell_at(self, index),
    {
        if index >= self.entry_count {
            None
        } else {
            Some(WorldCell { index, column: index % self.columns, row: index / self.columns })
        }
    }
}

/// Every wallpaper lies within the grid, and no two of them in one place.
pub proof fn law_places_are_distinct(entry_count: usize, columns: usize, a: usize, b: usize)
    requires
        a < entry_count,
        b < entry_count,
    ensures
        ({
            let layout = layout_for(entry_count, columns);
            let first = cell_at(layout, a)->Some_0;
            let second = cell_at(layout, b)->Some_0;
            &&& first.column < layout.columns
            &&& first.row < layout.rows
            &&& first.row == second.row && first.column == second.column ==> a == b
        }),
{
    let layout = layout_for(entry_count, columns);
    let width = layout.columns as int;
    tiles::lemma_ceil_div(entry_count as nat, width as nat);
    vstd::arithmetic::div_mod::lemma_fundamental_div_mod(a as int, width);
    vstd::arithmetic::div_mod::lemma_fundamental_div_mod(b as int, width);
    let row = a as int / width;
    let rows = tiles::ceil_div(entry_count as nat, width as nat) as int;
    assert(row < rows) by (nonlinear_arith)
        requires
            width * row + a as int % width < rows * width,
            a as int % width >= 0,
            width > 0,
    ;
}

// ---------------------------------------------------------------------------
// Snapshots

/// A library of wallpapers that is laid out in its own order.
#[derive(Debug, PartialEq, Eq)]
pub struct WorldSnapshot {
    paths: Vec<String>,
    layout: WorldLayout,
}

/// A library that is laid out, as a mathematical value.
pub struct WorldView {
    pub paths: Seq<Seq<char>>,
    pub layout: WorldLayout,
}

impl View for WorldSnapshot {
    type V = WorldView;

    closed spec fn view(&self) -> WorldView {
        WorldView { paths: text::texts(self.paths@), layout: self.layout }
    }
}

/// Where a path stands in a list: the last place, if there are several.
pub open spec fn place_of(list: Seq<Seq<char>>, path: Seq<char>) -> Option<usize>
    decreases list.len(),
{
    if list.len() == 0 {
        None
    } else if list.last() == path {
        Some((list.len() - 1) as usize)
    } else {
        place_of(list.drop_last(), path)
    }
}

/// A path is found where it stands last.
pub proof fn law_wallpaper_is_found_where_it_stands_last(list: Seq<Seq<char>>, path: Seq<char>)
    requires
        list.len() <= usize::MAX,
    ensures
        match place_of(list, path) {
            Some(index) => {
                &&& index < list.len()
                &&& list[index as int] == path
                &&& forall|k: int| index < k < list.len() ==> #[trigger] list[k] != path
            },
            None => !list.contains(path),
        },
    decreases list.len(),
{
    if list.len() > 0 && list.last() != path {
        let rest = list.drop_last();
        law_wallpaper_is_found_where_it_stands_last(rest, path);
        if list.contains(path) {
            let k = choose|k: int| 0 <= k < list.len() && list[k] == path;
            assert(rest[k] == path);
        }
        if let Some(index) = place_of(rest, path) {
            assert forall|k: int| index < k < list.len() implies #[trigger] list[k] != path by {
                if k < rest.len() {
                    assert(rest[k] == list[k]);
                }
            }
        }
    }
}

impl WorldSnapshot {
    #[verifier::type_invariant]
    closed spec fn is_laid_out(&self) -> bool {
        &&& self.layout.columns > 0
        &&& self.layout.entry_count == self.paths@.len()
    }

    /// A library, laid out in its own order on a grid with some number of columns.
    pub fn new(paths: Vec<String>, columns: usize) -> (snapshot: Self)
        ensures
            snapshot@.paths == text::texts(paths@),
            snapshot@.layout == layout_for(paths@.len() as usize, columns),
    {
        let layout = WorldLayout::new(paths.len(), columns);
        WorldSnapshot { paths, layout }
    }

    /// The grid.
    pub fn layout(&self) -> (layout: WorldLayout)
        ensures
            layout == self@.layout,
    {
        self.layout
    }

    /// Where a path stands in the library.
    pub fn index_of(&self, path: &str) -> (index: Option<usize>)
        ensures
            index == place_of(self@.paths, path@),
    {
        let ghost all = text::texts(self.paths@);
        let mut n: usize = self.paths.len();
        assert(all.take(n as int) =~= all);
        while n > 0
            invariant
                n <= self.paths@.len(),
                all == text::texts(self.paths@),
                place_of(all, path@) == place_of(all.take(n as int), path@),
            decreases n,
        {
            proof {
                assert(all.take(n as int).drop_last() =~= all.take(n - 1));
                assert(all.take(n as int).last() == self.paths@[n - 1]@);
            }
            if text_eq(self.paths[n - 1].as_str(), path) {
                return Some(n - 1);
            }
            n = n - 1;
        }
        None
    }

    /// The path at a place in the library.
    pub fn path(&self, index: usize) -> (path: Option<&str>)
        ensures
            match path {
                Some(path) => index < self@.paths.len() && path@ == self@.paths[index as int],
                None => index >= self@.paths.len(),
            },
    {
        if index < self.paths.len() {
            Some(self.paths[index].as_str())
        } else {
            None
        }
    }

    /// Where a path lies in the world.
    pub fn cell_for_path(&self, path: &str) -> (cell: Option<WorldCell>)
        ensures
            cell == match place_of(self@.paths, path@) {
                Some(index) => cell_at(self@.layout, index),
                None => None,
            },
    {
        proof {
            use_type_invariant(self);
        }
        match self.index_of(path) {
            Some(index) => self.layout.cell(index),
            None => None,
        }
    }
}

// ---------------------------------------------------------------------------
// What is in view

/// The cells between two columns and two rows; the ends are left out.
#[derive(Clone, Copy, Debug, PartialEq, Eq, Structural)]
pub struct WorldEdges {
    pub start_column: usize,
    pub end_column: usize,
    pub start_row: usize,
    pub end_row: usize,
}

/// The cells in view; the ends are left out.
#[derive(Clone, Copy, Debug, PartialEq, Eq, Structural)]
pub struct VisibleWorldRange {
    pub start_column: usize,
    pub end_column: usize,
    pub start_row: usize,
    pub end_row: usize,
    pub cell_count: usize,
}

/// How many cells of a row lie between two columns and hold a wallpaper.
pub open spec fn row_cells(layout: WorldLayout, row: int, start: int, end: int) -> int {
    let first = row * layout.columns + start;
    let last = row * layout.columns + end;
    if first >= layout.entry_count {
        0
    } else if last > layout.entry_count {
        layout.entry_count - first
    } else {
        last - first
    }
}

/// How many cells between two columns hold a wallpaper, from one row to before another.
pub open spec fn cells_between(
    layout: WorldLayout,
    start_column: int,
    end_column: int,
    from: int,
    to: int,
) -> int
    decreases to - from,
{
    if from >= to {
        0
    } else {
        cells_between(layout, start_column, end_column, from, to - 1) + row_cells(
            layout,
            to - 1,
            start_column,
            end_column,
        )
    }
}

proof fn lemma_cells_between(
    layout: WorldLayout,
    start_column: int,
    end_column: int,
    from: int,
    to: int,
)
    requires
        0 <= start_column < end_column <= layout.columns,
        0 <= from <= to,
    ensures
        0 <= cells_between(layout, start_column, end_column, from, to) <= layout.entry_count,
        cells_between(layout, start_column, end_column, from, to) <= to * layout.columns,
    decreases to - from,
{
    if from < to {
        lemma_cells_between(layout, start_column, end_column, from, to - 1);
        assert((to - 1) * layout.columns + layout.columns == to * layout.columns)
            by (nonlinear_arith);
    } else {
        assert(to * layout.columns >= 0) by (nonlinear_arith)
            requires
                to >= 0,
        ;
    }
}

proof fn lemma_empty_rows(
    layout: WorldLayout,
    start_column: int,
    end_column: int,
    from: int,
    mid: int,
    to: int,
)
    requires
        from <= mid <= to,
        mid * layout.columns + start_column >= layout.entry_count,
    ensures
        cells_between(layout, start_column, end_column, from, to) == cells_between(
            layout,
            start_column,
            end_column,
            from,
            mid,
        ),
    decreases to - mid,
{
    if mid < to {
        lemma_empty_rows(layout, start_column, end_column, from, mid, to - 1);
        assert((to - 1) * layout.columns >= mid * layout.columns) by (nonlinear_arith)
            requires
                to - 1 >= mid,
        ;
    }
}

/// What is in view between some edges.
pub open spec fn range_for(layout: WorldLayout, edges: WorldEdges) -> VisibleWorldRange {
    if layout.entry_count == 0 || layout.rows == 0 {
        VisibleWorldRange {
            start_column: 0,
            end_column: 0,
            start_row: 0,
            end_row: 0,
            cell_count: 0,
        }
    } else {
        VisibleWorldRange {
            start_column: edges.start_column,
            end_column: edges.end_column,
            start_row: edges.start_row,
            end_row: edges.end_row,
            cell_count: if edges.start_column >= edges.end_column {
                0
            } else {
                cells_between(
                    layout,
                    edges.start_column as int,
                    edges.end_column as int,
                    edges.start_row as int,
                    edges.end_row as int,
                ) as usize
            },
        }
    }
}

fn visible_cell_count(layout: WorldLayout, edges: WorldEdges) -> (count: usize)
    requires
        edges.start_column < edges.end_column <= layout.columns,
    ensures
        count == cells_between(
            layout,
            edges.start_column as int,
            edges.end_column as int,
            edges.start_row as int,
            edges.end_row as int,
        ),
{
    let ghost start = edges.start_column as int;
    let ghost end = edges.end_column as int;
    let mut count: usize = 0;
    let mut row: usize = edges.start_row;
    while row < edges.end_row
        invariant
            edges.start_row <= row,
            edges.start_row <= edges.end_row ==> row <= edges.end_row,
            edges.start_row > edges.end_row ==> row == edges.start_row,
            start == edges.start_column,
            end == edges.end_column,
            start < end <= layout.columns,
            count == cells_between(layout, start, end, edges.start_row as int, row as int),
        decreases edges.end_row - row,
    {
        let base = row.checked_mul(layout.columns);
        let first = match base {
            Some(base) => base.checked_add(edges.start_column),
            None => None,
        };
        let first: usize = match first {
            Some(first) => if first >= layout.entry_count {
                proof {
                    lemma_empty_rows(
                        layout,
                        start,
                        end,
                        edges.start_row as int,
                        row as int,
                        edges.end_row as int,
                    );
                }
                return count;
            } else {
                first
            },
            None => {
                proof {
                    lemma_empty_rows(
                        layout,
                        start,
                        end,
                        edges.start_row as int,
                        row as int,
                        edges.end_row as int,
                    );
                }
                return count;
            },
        };
        proof {
            lemma_cells_between(layout, start, end, edges.start_row as int, row + 1);
        }
        let wide: usize = edges.end_column - edges.start_column;
        let left: usize = layout.entry_count - first;
        count = count + (if wide > left {
            left
        } else {
            wide
        });
        row = row + 1;
    }
    count
}

/// What is in view between some edges of the grid.
pub fn visible_world_range(layout: WorldLayout, edges: WorldEdges) -> (range: VisibleWorldRange)
    requires
        edges.end_column <= layout.columns,
    ensures
        range == range_for(layout, edges),
{
    if layout.entry_count == 0 || layout.rows == 0 {
        return VisibleWorldRange {
            start_column: 0,
            end_column: 0,
            start_row: 0,
            end_row: 0,
            cell_count: 0,
        };
    }
    let cell_count: usize = if edges.start_column >= edges.end_column {
        0
    } else {
        visible_cell_count(layout, edges)
    };
    VisibleWorldRange {
        start_column: edges.start_column,
        end_column: edges.end_column,
        start_row: edges.start_row,
        end_row: edges.end_row,
        cell_count,
    }
}

/// No more cells are in view than there are wallpapers.
pub proof fn law_view_is_bounded(layout: WorldLayout, edges: WorldEdges)
    requires
        edges.end_column <= layout.columns,
    ensures
        range_for(layout, edges).cell_count <= layout.entry_count,
{
    if edges.start_column < edges.end_column && edges.start_row <= edges.end_row {
        lemma_cells_between(
            layout,
            edges.start_column as int,
            edges.end_column as int,
            edges.start_row as int,
            edges.end_row as int,
        );
    }
}

// ---------------------------------------------------------------------------
// Tiles

/// A tile of the world.
#[derive(Clone, Copy, Debug, PartialEq, Eq, Structural)]
pub struct WorldTile {
    pub column: usize,
    pub row: usize,
}

/// How many tiles there are between two columns and two rows of tiles.
pub open spec fn tiles_between(columns: nat, rows: nat) -> nat {
    rows * columns
}

/// The tile at a place in a block of tiles that is read row by row.
pub open spec fn block_tile(start_column: int, start_row: int, width: int, i: int) -> WorldTile {
    WorldTile {
        column: (start_column + i % width) as usize,
        row: (start_row + i / width) as usize,
    }
}

/// The tiles that some cells lie in, row by row.
pub open spec fn tiles_in(range: VisibleWorldRange, tile_cells: usize) -> Seq<WorldTile> {
    let cells = tiles::one_or_more(tile_cells as nat);
    if range.start_column >= range.end_column || range.start_row >= range.end_row {
        Seq::empty()
    } else {
        let start_column = range.start_column as nat / cells;
        let start_row = range.start_row as nat / cells;
        let width = (tiles::ceil_div(range.end_column as nat, cells) - start_column) as nat;
        let height = (tiles::ceil_div(range.end_row as nat, cells) - start_row) as nat;
        Seq::new(
            tiles_between(width, height),
            |i: int| block_tile(start_column as int, start_row as int, width as int, i),
        )
    }
}

proof fn lemma_tile_span(start: nat, end: nat, cells: nat)
    requires
        start < end,
        cells > 0,
    ensures
        start / cells < tiles::ceil_div(end, cells),
{
    tiles::lemma_ceil_div(end, cells);
    vstd::arithmetic::div_mod::lemma_fundamental_div_mod(start as int, cells as int);
    let q = start / cells;
    let top = tiles::ceil_div(end, cells);
    assert(q < top) by (nonlinear_arith)
        requires
            cells * q <= start,
            start < end,
            end <= top * cells,
            cells > 0,
    ;
}

/// The tiles that some cells lie in, row by row.
pub fn world_tiles_for_range(range: VisibleWorldRange, tile_cells: usize) -> (tiles: Vec<WorldTile>)
    ensures
        tiles@ == tiles_in(range, tile_cells),
{
    let cells: usize = if tile_cells == 0 {
        1
    } else {
        tile_cells
    };
    let mut tiles: Vec<WorldTile> = Vec::new();
    if range.start_column >= range.end_column || range.start_row >= range.end_row {
        assert(tiles@ =~= tiles_in(range, tile_cells));
        return tiles;
    }
    let start_column: usize = range.start_column / cells;
    let end_column = div_up(range.end_column, cells);
    let start_row: usize = range.start_row / cells;
    let end_row = div_up(range.end_row, cells);
    proof {
        lemma_tile_span(range.start_column as nat, range.end_column as nat, cells as nat);
        lemma_tile_span(range.start_row as nat, range.end_row as nat, cells as nat);
    }
    let ghost width = end_column - start_column;
    let mut row: usize = start_row;
    while row < end_row
        invariant
            start_row <= row <= end_row,
            width == end_column - start_column,
            width > 0,
            tiles@.len() == (row - start_row) * width,
            forall|i: int|
                0 <= i < tiles@.len() ==> #[trigger] tiles@[i] == block_tile(
                    start_column as int,
                    start_row as int,
                    width,
                    i,
                ),
        decreases end_row - row,
    {
        let mut column: usize = start_column;
        while column < end_column
            invariant
                start_row <= row < end_row,
                start_column <= column <= end_column,
                width == end_column - start_column,
                width > 0,
                tiles@.len() == (row - start_row) * width + (column - start_column),
                forall|i: int|
                    0 <= i < tiles@.len() ==> #[trigger] tiles@[i] == block_tile(
                        start_column as int,
                        start_row as int,
                        width,
                        i,
                    ),
            decreases end_column - column,
        {
            proof {
                lemma_fundamental_div_mod_converse(
                    tiles@.len() as int,
                    width,
                    row - start_row,
                    column - start_column,
                );
            }
            tiles.push(WorldTile { column, row });
            column = column + 1;
        }
        proof {
            assert((row - start_row) * width + width == (row + 1 - start_row) * width)
                by (nonlinear_arith);
        }
        row = row + 1;
    }
    assert(tiles@ =~= tiles_in(range, tile_cells));
    tiles
}

/// Every cell in view lies in one of the tiles that are told for the view.
pub proof fn law_tiles_cover_the_view(
    range: VisibleWorldRange,
    tile_cells: usize,
    column: usize,
    row: usize,
)
    requires
        range.start_column <= column < range.end_column,
        range.start_row <= row < range.end_row,
    ensures
        ({
            let cells = tiles::one_or_more(tile_cells as nat) as usize;
            tiles_in(range, tile_cells).contains(
                WorldTile { column: column / cells, row: row / cells },
            )
        }),
{
    let cells = tiles::one_or_more(tile_cells as nat);
    let start_column = range.start_column as nat / cells;
    let start_row = range.start_row as nat / cells;
    let width = tiles::ceil_div(range.end_column as nat, cells) - start_column;
    let height = tiles::ceil_div(range.end_row as nat, cells) - start_row;
    let c = column as nat / cells;
    let r = row as nat / cells;
    lemma_tile_span(column as nat, range.end_column as nat, cells);
    lemma_tile_span(row as nat, range.end_row as nat, cells);
    vstd::arithmetic::div_mod::lemma_div_is_ordered(
        range.start_column as int,
        column as int,
        cells as int,
    );
    vstd::arithmetic::div_mod::lemma_div_is_ordered(
        range.start_row as int,
        row as int,
        cells as int,
    );
    let i = (r - start_row) * width + (c - start_column);
    lemma_fundamental_div_mod_converse(i, width, r - start_row, c - start_column);
    assert(0 <= i < height * width) by (nonlinear_arith)
        requires
            i == (r - start_row) * width + (c - start_column),
            0 <= c - start_column < width,
            0 <= r - start_row < height,
    ;
    assert(tiles_in(range, tile_cells)[i] == WorldTile { column: c as usize, row: r as usize });
}

// ---------------------------------------------------------------------------
// Routes

/// What is in view on a route from one wallpaper to another, with a margin of some cells
/// on every side as far as the world goes, if both lie in the world.
pub open spec fn route_cells(
    layout: WorldLayout,
    start: usize,
    target: usize,
    margin: usize,
) -> Option<WorldEdges> {
    match (cell_at(layout, start), cell_at(layout, target)) {
        (Some(a), Some(b)) => Some(
            WorldEdges {
                start_column: less(tiles::lesser(a.column as nat, b.column as nat), margin as nat),
                end_column: tiles::lesser(
                    greater(a.column as nat, b.column as nat) + 1 + margin as nat,
                    layout.columns as nat,
                ) as usize,
                start_row: less(tiles::lesser(a.row as nat, b.row as nat), margin as nat),
                end_row: tiles::lesser(
                    greater(a.row as nat, b.row as nat) + 1 + margin as nat,
                    layout.rows as nat,
                ) as usize,
            },
        ),
        _ => None,
    }
}

/// The greater of two numbers.
pub open spec fn greater(a: nat, b: nat) -> nat {
    if a >= b {
        a
    } else {
        b
    }
}

/// A number less another, but not less than zero.
pub open spec fn less(a: nat, b: nat) -> usize {
    if a >= b {
        (a - b) as usize
    } else {
        0
    }
}

/// One past a number and a margin, but not past an end.
fn end_within(last: usize, margin: usize, end: usize) -> (result: usize)
    ensures
        result == tiles::lesser(last as nat + 1 + margin as nat, end as nat),
{
    if last >= end || end - last <= margin {
        end
    } else {
        last + margin + 1
    }
}

/// What is in view on a route from one wallpaper to another, with a margin of some cells
/// on every side as far as the world goes, if both lie in the world.
pub fn route_edges(layout: WorldLayout, start_index: usize, target_index: usize, margin: usize)
    -> (edges: Option<WorldEdges>)
    requires
        start_index < layout.entry_count ==> layout.columns > 0,
    ensures
        edges == route_cells(layout, start_index, target_index, margin),
        edges matches Some(edges) ==> edges.end_column <= layout.columns,
{
    let start = layout.cell(start_index)?;
    let target = layout.cell(target_index)?;
    let (first_column, last_column) = if start.column <= target.column {
        (start.column, target.column)
    } else {
        (target.column, start.column)
    };
    let (first_row, last_row) = if start.row <= target.row {
        (start.row, target.row)
    } else {
        (target.row, start.row)
    };
    Some(
        WorldEdges {
            start_column: first_column.saturating_sub(margin),
            end_column: end_within(last_column, margin, layout.columns),
            start_row: first_row.saturating_sub(margin),
            end_row: end_within(last_row, margin, layout.rows),
        },
    )
}

/// The tiles of a route whose view, with what is to be seen beside it, lies between some
/// edges.
pub open spec fn tiles_on_route(
    layout: WorldLayout,
    start: usize,
    target: usize,
    tile_cells: usize,
    edges: WorldEdges,
) -> Seq<WorldTile> {
    if cell_at(layout, start) is Some && cell_at(layout, target) is Some {
        tiles_in(range_for(layout, edges), tile_cells)
    } else {
        Seq::empty()
    }
}

/// The tiles of a route from one wallpaper to another: none where one of them lies outside
/// the world.
pub fn world_tiles_for_route(
    layout: WorldLayout,
    start_index: usize,
    target_index: usize,
    tile_cells: usize,
    edges: WorldEdges,
) -> (tiles: Vec<WorldTile>)
    requires
        start_index < layout.entry_count ==> layout.columns > 0,
        edges.end_column <= layout.columns,
    ensures
        tiles@ == tiles_on_route(layout, start_index, target_index, tile_cells, edges),
{
    if layout.cell(start_index).is_none() || layout.cell(target_index).is_none() {
        return Vec::new();
    }
    world_tiles_for_range(visible_world_range(layout, edges), tile_cells)
}

/// The tiles of a route hold the cells of both of its ends, whatever its margin.
pub proof fn law_route_tiles_hold_both_ends(
    entry_count: usize,
    columns: usize,
    start: usize,
    target: usize,
    margin: usize,
    tile_cells: usize,
)
    requires
        start < entry_count,
        target < entry_count,
    ensures
        ({
            let layout = layout_for(entry_count, columns);
            let cells = tiles::one_or_more(tile_cells as nat) as usize;
            match (
                route_cells(layout, start, target, margin),
                cell_at(layout, start),
                cell_at(layout, target),
            ) {
                (Some(edges), Some(a), Some(b)) => {
                    let list = tiles_on_route(layout, start, target, tile_cells, edges);
                    &&& list.contains(WorldTile { column: a.column / cells, row: a.row / cells })
                    &&& list.contains(WorldTile { column: b.column / cells, row: b.row / cells })
                },
                _ => false,
            }
        }),
{
    let layout = layout_for(entry_count, columns);
    let edges = route_cells(layout, start, target, margin)->0;
    let a = cell_at(layout, start)->0;
    let b = cell_at(layout, target)->0;
    tiles::lemma_ceil_div(entry_count as nat, layout.columns as nat);
    lemma_tile_span(start as nat, entry_count as nat, layout.columns as nat);
    lemma_tile_span(target as nat, entry_count as nat, layout.columns as nat);
    let range = range_for(layout, edges);
    law_tiles_cover_the_view(range, tile_cells, a.column, a.row);
    law_tiles_cover_the_view(range, tile_cells, b.column, b.row);
}

/// A level of detail at which a route can be shown.
#[derive(Clone, Copy, Debug, PartialEq, Eq, Structural)]
pub struct WorldRouteLodCandidate {
    pub lod: usize,
    pub tile_cells: usize,
}

/// The level of detail at which a route is shown.
#[derive(Clone, Copy, Debug, PartialEq, Eq, Structural)]
pub struct WorldRouteLodSelection {
    pub lod: usize,
    pub tile_cells: usize,
    pub tile_count: usize,
}

/// How many tiles a route needs at a level of detail.
pub open spec fn route_tile_count(
    layout: WorldLayout,
    start: usize,
    target: usize,
    candidate: WorldRouteLodCandidate,
    edges: WorldEdges,
) -> nat {
    tiles_on_route(layout, start, target, candidate.tile_cells, edges).len()
}

/// Whether a route can be shown at a level of detail with so many tiles at most.
pub open spec fn fits(
    layout: WorldLayout,
    start: usize,
    target: usize,
    candidate: WorldRouteLodCandidate,
    edges: WorldEdges,
    max_tiles: usize,
) -> bool {
    1 <= route_tile_count(layout, start, target, candidate, edges) <= max_tiles
}

/// The first level of detail at which a route can be shown with so many tiles at most.
pub fn world_route_lod_for_budget(
    layout: WorldLayout,
    start_index: usize,
    target_index: usize,
    candidates: &Vec<WorldRouteLodCandidate>,
    max_tiles: usize,
    edges: WorldEdges,
) -> (selection: Option<WorldRouteLodSelection>)
    requires
        start_index < layout.entry_count ==> layout.columns > 0,
        edges.end_column <= layout.columns,
    ensures
        match selection {
            Some(selection) => exists|i: int|
                {
                    &&& 0 <= i < candidates@.len()
                    &&& #[trigger] fits(
                        layout,
                        start_index,
                        target_index,
                        candidates@[i],
                        edges,
                        max_tiles,
                    )
                    &&& forall|k: int|
                        0 <= k < i ==> !#[trigger] fits(
                            layout,
                            start_index,
                            target_index,
                            candidates@[k],
                            edges,
                            max_tiles,
                        )
                    &&& selection.lod == candidates@[i].lod
                    &&& selection.tile_cells == tiles::one_or_more(candidates@[i].tile_cells as nat)
                    &&& selection.tile_count == route_tile_count(
                        layout,
                        start_index,
                        target_index,
                        candidates@[i],
                        edges,
                    )
                },
            None => forall|k: int|
                0 <= k < candidates@.len() ==> !#[trigger] fits(
                    layout,
                    start_index,
                    target_index,
                    candidates@[k],
                    edges,
                    max_tiles,
                ),
        },
{
    let mut i: usize = 0;
    while i < candidates.len()
        invariant
            i <= candidates@.len(),
            start_index < layout.entry_count ==> layout.columns > 0,
            edges.end_column <= layout.columns,
            forall|k: int|
                0 <= k < i ==> !#[trigger] fits(
                    layout,
                    start_index,
                    target_index,
                    candidates@[k],
                    edges,
                    max_tiles,
                ),
        decreases candidates@.len() - i,
    {
        let candidate = candidates[i];
        let tile_count = world_tiles_for_route(
            layout,
            start_index,
            target_index,
            candidate.tile_cells,
            edges,
        ).len();
        if 1 <= tile_count && tile_count <= max_tiles {
            assert(fits(
                layout,
                start_index,
                target_index,
                candidates@[i as int],
                edges,
                max_tiles,
            ));
            return Some(
                WorldRouteLodSelection {
                    lod: candidate.lod,
                    tile_cells: if candidate.tile_cells == 0 {
                        1
                    } else {
                        candidate.tile_cells
                    },
                    tile_count,
                },
            );
        }
        i = i + 1;
    }
    None
}

} // verus!
