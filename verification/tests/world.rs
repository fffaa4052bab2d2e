//! The world of wallpapers and the canvas: places, views, tiles and grids.

use mural::canvas::{
    auto_canvas_tile_count, auto_canvas_tile_count_for_pan, canvas_candidates, canvas_grid,
    canvas_grid_for_overview, canvas_grid_for_overview_axis, Grid, Size,
};
use mural::world::{
    route_edges, visible_world_range, world_route_lod_for_budget, world_tiles_for_range,
    world_tiles_for_route, VisibleWorldRange, WorldCell, WorldEdges, WorldLayout,
    WorldRouteLodCandidate, WorldRouteLodSelection, WorldSnapshot, WorldTile,
};

/// How badly each of the grids for a number of tiles follows the shape of an output.
fn scores(tile_count: usize, output: Size) -> Vec<u32> {
    let aspect = output.width as f32 / output.height.max(1) as f32;
    canvas_candidates(tile_count)
        .iter()
        .map(|grid| {
            let grid_aspect = grid.columns as f32 / grid.rows as f32;
            let unused = grid.columns * grid.rows - tile_count.max(1);
            let line_score = if grid.rows == 1 && tile_count.max(1) > 3 { 0.5 } else { 0.0 };
            let score = (grid_aspect / aspect).ln().abs() + unused as f32 * 0.35 + line_score;
            score.to_bits()
        })
        .collect()
}

/// How many tiles are seen on each side of the one in the middle.
fn margin(overview_scale: f32) -> usize {
    let visible = 1.0 / overview_scale.clamp(f32::EPSILON, 1.0);
    (visible / 2.0 - 0.5).ceil().max(0.0) as usize
}

fn clamp_floor(value: f32, upper: usize) -> usize {
    if value <= 0.0 {
        0
    } else if value >= upper as f32 {
        upper
    } else {
        value.floor() as usize
    }
}

fn clamp_ceil(value: f32, upper: usize) -> usize {
    if value <= 0.0 {
        0
    } else if value >= upper as f32 {
        upper
    } else {
        value.ceil() as usize
    }
}

fn edges(layout: WorldLayout, x: f32, y: f32, width: f32, height: f32, margin: f32) -> WorldEdges {
    WorldEdges {
        start_column: clamp_floor(x - margin, layout.columns),
        end_column: clamp_ceil(x + width + margin, layout.columns),
        start_row: clamp_floor(y - margin, layout.rows),
        end_row: clamp_ceil(y + height + margin, layout.rows),
    }
}

fn whole(layout: WorldLayout) -> WorldEdges {
    WorldEdges { start_column: 0, end_column: layout.columns, start_row: 0, end_row: layout.rows }
}

fn route(layout: WorldLayout, start: usize, target: usize) -> WorldEdges {
    route_edges(layout, start, target, 1).unwrap_or(whole(layout))
}

fn candidates() -> Vec<WorldRouteLodCandidate> {
    vec![
        WorldRouteLodCandidate { lod: 0, tile_cells: 8 },
        WorldRouteLodCandidate { lod: 1, tile_cells: 64 },
        WorldRouteLodCandidate { lod: 2, tile_cells: 512 },
    ]
}

#[test]
fn row_major_mapping_is_stable() {
    let layout = WorldLayout::new(10, 4);

    assert_eq!(layout.cell(6), Some(WorldCell { index: 6, column: 2, row: 1 }));
    assert_eq!(layout.cell(9), Some(WorldCell { index: 9, column: 1, row: 2 }));
    assert_eq!(layout.cell(10), None);
}

#[test]
fn a_layout_without_columns_has_no_cells() {
    let layout = WorldLayout { entry_count: 0, columns: 0, rows: 0 };

    assert_eq!(layout.cell(0), None);
    assert_eq!(layout.cell(7), None);
}

#[test]
fn snapshot_path_lookup_preserves_ordered_library_positions() {
    let snapshot = WorldSnapshot::new(
        vec![
            "/walls/a.jpg".to_owned(),
            "/walls/b.jpg".to_owned(),
            "/walls/c.jpg".to_owned(),
        ],
        2,
    );

    assert_eq!(snapshot.index_of("/walls/b.jpg"), Some(1));
    assert_eq!(snapshot.path(2), Some("/walls/c.jpg"));
    assert_eq!(
        snapshot.cell_for_path("/walls/c.jpg"),
        Some(WorldCell { index: 2, column: 0, row: 1 })
    );
    assert_eq!(snapshot.index_of("/walls/d.jpg"), None);
}

#[test]
fn snapshot_world_positions_follow_canonical_order_not_shuffle_order() {
    let canonical = vec![
        "/walls/a.jpg".to_owned(),
        "/walls/b.jpg".to_owned(),
        "/walls/c.jpg".to_owned(),
        "/walls/d.jpg".to_owned(),
    ];
    let shuffle_bag = [
        "/walls/d.jpg".to_owned(),
        "/walls/b.jpg".to_owned(),
        "/walls/a.jpg".to_owned(),
        "/walls/c.jpg".to_owned(),
    ];
    let snapshot = WorldSnapshot::new(canonical, 2);

    assert_eq!(snapshot.index_of(&shuffle_bag[0]), Some(3));
    assert_eq!(snapshot.index_of(&shuffle_bag[2]), Some(0));
    assert_eq!(snapshot.cell_for_path(&shuffle_bag[0]).unwrap().row, 1);
    assert_eq!(snapshot.cell_for_path(&shuffle_bag[2]).unwrap().row, 0);
}

#[test]
fn visible_query_clamps_to_world_bounds() {
    let layout = WorldLayout::new(10, 4);
    let visible = visible_world_range(layout, edges(layout, -1.0, 1.2, 3.5, 5.0, 0.25));

    assert_eq!(
        visible,
        VisibleWorldRange {
            start_column: 0,
            end_column: 3,
            start_row: 0,
            end_row: 3,
            cell_count: 8,
        }
    );
}

#[test]
fn visible_count_ignores_unused_cells_in_last_row() {
    let layout = WorldLayout::new(10, 4);
    let visible = visible_world_range(layout, edges(layout, 0.0, 2.0, 4.0, 1.0, 0.0));

    assert_eq!(visible.cell_count, 2);
}

#[test]
fn small_visible_query_stays_bounded_for_large_library() {
    let layout = WorldLayout::new(100_000, 400);
    let visible = visible_world_range(layout, edges(layout, 198.5, 120.5, 3.0, 2.0, 1.0));

    assert_eq!(visible.start_column, 197);
    assert_eq!(visible.end_column, 203);
    assert_eq!(visible.start_row, 119);
    assert_eq!(visible.end_row, 124);
    assert_eq!(visible.cell_count, 30);
}

#[test]
fn visible_range_maps_to_world_tiles() {
    let tiles = world_tiles_for_range(
        VisibleWorldRange {
            start_column: 7,
            end_column: 17,
            start_row: 0,
            end_row: 9,
            cell_count: 90,
        },
        8,
    );

    assert_eq!(
        tiles,
        vec![
            WorldTile { column: 0, row: 0 },
            WorldTile { column: 1, row: 0 },
            WorldTile { column: 2, row: 0 },
            WorldTile { column: 0, row: 1 },
            WorldTile { column: 1, row: 1 },
            WorldTile { column: 2, row: 1 },
        ]
    );
}

#[test]
fn route_tiles_cover_current_target_and_margin() {
    let layout = WorldLayout::new(1_000, 40);
    let tiles = world_tiles_for_route(layout, 41, 291, 8, route(layout, 41, 291));

    assert_eq!(
        tiles,
        vec![
            WorldTile { column: 0, row: 0 },
            WorldTile { column: 1, row: 0 },
            WorldTile { column: 0, row: 1 },
            WorldTile { column: 1, row: 1 },
        ]
    );
}

#[test]
fn route_lod_selection_prefers_first_candidate_within_tile_budget() {
    let layout = WorldLayout::new(100_000, 400);

    assert_eq!(
        world_route_lod_for_budget(
            layout,
            0,
            40_100,
            &candidates(),
            16,
            route(layout, 0, 40_100)
        ),
        Some(WorldRouteLodSelection { lod: 1, tile_cells: 64, tile_count: 4 })
    );
}

#[test]
fn route_lod_selection_uses_overview_tiles_for_extreme_jumps() {
    let layout = WorldLayout::new(100_000, 400);
    let way = route(layout, 0, 99_999);

    assert_eq!(
        world_route_lod_for_budget(layout, 0, 99_999, &candidates(), 16, way),
        Some(WorldRouteLodSelection { lod: 2, tile_cells: 512, tile_count: 1 })
    );
    let finer = candidates()[..2].to_vec();
    assert_eq!(world_route_lod_for_budget(layout, 0, 99_999, &finer, 16, way), None);
}

#[test]
fn invalid_route_indices_return_no_tiles() {
    let layout = WorldLayout::new(10, 4);

    assert_eq!(route_edges(layout, 0, 10, 1), None);
    assert!(world_tiles_for_route(layout, 0, 10, 8, whole(layout)).is_empty());
}

#[test]
fn canvas_grid_follows_landscape_output() {
    let output = Size { width: 1920, height: 1080 };

    assert_eq!(canvas_grid(12, &scores(12, output)), Grid { columns: 4, rows: 3 });
}

#[test]
fn auto_canvas_tile_count_follows_zoom_distance() {
    let output = Size { width: 1920, height: 1080 };

    assert_eq!(auto_canvas_tile_count(margin(1.0 / 3.0), output, 64), 15);
    assert_eq!(auto_canvas_tile_count(margin(0.25), output, 64), 35);
    assert_eq!(auto_canvas_tile_count(margin(0.25), output, 16), 16);
    assert_eq!(auto_canvas_tile_count_for_pan(margin(0.25), output, 64, 3), 55);
}

#[test]
fn overview_grid_keeps_scale_depth_for_landscape() {
    let output = Size { width: 1920, height: 1080 };

    assert_eq!(
        canvas_grid_for_overview(132, output, margin(0.1), &scores(132, output)),
        Grid { columns: 12, rows: 11 }
    );
}

#[test]
fn overview_grid_can_force_horizontal_axis_on_portrait() {
    let output = Size { width: 1080, height: 1920 };
    let scores = scores(55, output);

    assert_eq!(
        canvas_grid_for_overview_axis(55, margin(0.25), true, &scores),
        Grid { columns: 11, rows: 5 }
    );
    assert_eq!(
        canvas_grid_for_overview_axis(55, margin(0.25), false, &scores),
        Grid { columns: 5, rows: 11 }
    );
}

#[test]
fn a_grid_without_tiles_has_one_place() {
    let output = Size { width: 100, height: 100 };

    assert_eq!(canvas_grid(0, &scores(0, output)), Grid { columns: 1, rows: 1 });
}

#[test]
fn an_empty_world_shows_nothing() {
    let layout = WorldLayout::new(0, 0);

    assert_eq!(layout, WorldLayout { entry_count: 0, columns: 1, rows: 0 });
    assert_eq!(
        visible_world_range(
            layout,
            WorldEdges { start_column: 0, end_column: 1, start_row: 0, end_row: 5 }
        )
        .cell_count,
        0
    );
}

#[test]
fn tiles_of_a_route_hold_both_ends() {
    let layout = WorldLayout::new(500, 23);
    for (start, target) in [(0, 499), (22, 230), (460, 3), (77, 77)] {
        let tiles = world_tiles_for_route(layout, start, target, 4, route(layout, start, target));
        for index in [start, target] {
            let cell = layout.cell(index).unwrap();
            assert!(tiles.contains(&WorldTile { column: cell.column / 4, row: cell.row / 4 }));
        }
    }
}
