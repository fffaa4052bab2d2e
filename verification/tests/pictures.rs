//! The pictures of the world cache: thumbnails, places and tiles.

use std::io::Cursor;

use image::{ImageFormat, Rgba, RgbaImage};
use mural::mosaic::{
    block_placements, clear_pixels, compose, decode_failure, decode_picture, fitted,
    generate_world_cell_block, generate_world_cell_thumbnail_image_internal,
    generate_world_l0_tile, generate_world_lod_tile, l0_placements, load_fitted_thumbnail,
    load_world_cell_thumbnail, picture_format, scaled_offset, thumbnail_failure,
    tile_can_be_held, tile_pixels, world_lod_child_blocks, CellPlacement, Pixels, WorldCellBlock, WorldLodChildBlock,
};
use mural::report::WorldCacheFailureRecord;
use mural::tiles::{WorldCellCacheEntry, WorldTileCacheEntry, DEFAULT_WORLD_CELL_THUMBNAIL_EDGE};

fn png(width: u32, height: u32, color: [u8; 4]) -> Vec<u8> {
    let mut bytes = Cursor::new(Vec::new());
    RgbaImage::from_pixel(width, height, Rgba(color))
        .write_to(&mut bytes, ImageFormat::Png)
        .unwrap();
    bytes.into_inner()
}

fn plain(width: u32, height: u32, color: [u8; 4]) -> Pixels {
    let data = RgbaImage::from_pixel(width, height, Rgba(color)).into_raw();
    Pixels { width, height, data }
}

fn pixel(picture: &Pixels, column: u32, row: u32) -> [u8; 4] {
    let start = ((row * picture.width + column) * 4) as usize;
    [
        picture.data[start],
        picture.data[start + 1],
        picture.data[start + 2],
        picture.data[start + 3],
    ]
}

fn cell(index: u8) -> WorldCellCacheEntry {
    WorldCellCacheEntry {
        source_path: format!("/wall/{index:02}.jpg"),
        cache_key: format!("key-{index}"),
        image_path: format!("/cache/cells/{index}.png"),
    }
}

fn tile(lod: usize, columns: usize, rows: usize) -> WorldTileCacheEntry {
    WorldTileCacheEntry {
        lod,
        tile_column: 0,
        tile_row: 0,
        start_column: 0,
        end_column: columns,
        start_row: 0,
        end_row: rows,
        image_path: "/cache/tile.png".to_owned(),
    }
}

/// Makes a tile from what can be had for each place.
fn make_tile(
    tile: &WorldTileCacheEntry,
    cells: &Vec<WorldCellCacheEntry>,
    columns: usize,
    picture: &dyn Fn(&WorldCellCacheEntry, &CellPlacement) -> Result<Pixels, String>,
) -> Result<WorldCellBlock, String> {
    let all = |places: &Vec<CellPlacement>| {
        places
            .iter()
            .map(|place| picture(&cells[place.cell], place))
            .collect::<Vec<_>>()
    };
    if tile.lod == 0 {
        let places = l0_placements(tile, cells.len(), columns);
        return generate_world_l0_tile(tile, cells, columns, &all(&places));
    }
    let edge = DEFAULT_WORLD_CELL_THUMBNAIL_EDGE;
    let pictures = world_lod_child_blocks(tile)
        .into_iter()
        .map(|block| {
            let places = block_placements(cells.len(), columns, block, edge, edge);
            generate_world_cell_block(cells, columns, block, edge, &all(&places))
        })
        .collect::<Vec<_>>();
    generate_world_lod_tile(tile, &pictures)
}

#[test]
fn generate_lod_tile_directly_from_cell_thumbnails() {
    let cells = (0_u8..16).map(cell).collect::<Vec<_>>();
    let tile = tile(1, 4, 4);

    let made = make_tile(&tile, &cells, 4, &|cell, place| {
        let index: u8 = cell.cache_key["key-".len()..].parse().unwrap();
        load_fitted_thumbnail(
            &cell.image_path,
            &png(1, 1, [index, 0, 0, 255]),
            place.width,
            place.height,
        )
    })
    .unwrap();

    assert!(made.failures.is_empty());
    assert_eq!(made.image.width, DEFAULT_WORLD_CELL_THUMBNAIL_EDGE);
    assert_eq!(made.image.height, DEFAULT_WORLD_CELL_THUMBNAIL_EDGE);
    assert_eq!(pixel(&made.image, 10, 10), [0, 0, 0, 255]);
    assert_eq!(pixel(&made.image, 380, 380), [15, 0, 0, 255]);
    assert_eq!(pixel(&made.image, 100, 10), [1, 0, 0, 255]);
}

#[test]
fn generate_lod_tile_can_use_source_images_without_cell_cache() {
    let cells = (0_u8..16).map(cell).collect::<Vec<_>>();
    let tile = tile(1, 4, 4);

    let made = make_tile(&tile, &cells, 4, &|cell, place| {
        let index: u8 = cell.cache_key["key-".len()..].parse().unwrap();
        generate_world_cell_thumbnail_image_internal(
            &cell.source_path,
            &png(4, 4, [index, 0, 0, 255]),
            place.width,
            place.height,
        )
    })
    .unwrap();

    assert!(made.failures.is_empty());
    assert_eq!(made.image.width, DEFAULT_WORLD_CELL_THUMBNAIL_EDGE);
    assert_eq!(made.image.height, DEFAULT_WORLD_CELL_THUMBNAIL_EDGE);
    assert_eq!(pixel(&made.image, 380, 10), [3, 0, 0, 255]);
}

#[test]
fn generate_lod_tile_records_bad_source_cells_without_failing_tile() {
    let cells = (0_u8..4).map(cell).collect::<Vec<_>>();
    let tile = tile(1, 4, 1);

    let made = make_tile(&tile, &cells, 4, &|cell, place| {
        let index: u8 = cell.cache_key["key-".len()..].parse().unwrap();
        let bytes = if index == 2 {
            b"not an image".to_vec()
        } else {
            png(4, 4, [index, 0, 0, 255])
        };
        generate_world_cell_thumbnail_image_internal(
            &cell.source_path,
            &bytes,
            place.width,
            place.height,
        )
    })
    .unwrap();

    assert_eq!(made.image.data.len(), 384 * 384 * 4);
    assert_eq!(made.failures.len(), 1);
    assert_eq!(made.failures[0].kind, "cell");
    assert_eq!(made.failures[0].item, cells[2].source_path);
    assert_eq!(pixel(&made.image, 2 * 96 + 5, 5), [0, 0, 0, 0]);
}

#[test]
fn cells_of_a_first_level_tile_stand_side_by_side() {
    let cells = (0_u8..5).map(cell).collect::<Vec<_>>();
    let tile = tile(0, 3, 2);
    let places = l0_placements(&tile, cells.len(), 3);

    assert_eq!(
        places[4],
        CellPlacement { cell: 4, x: 384, y: 384, width: 384, height: 384 }
    );
    assert_eq!(places.len(), 5);
    let made = make_tile(&tile, &cells, 3, &|_, place| {
        Ok(plain(place.width, place.height, [place.cell as u8, 9, 9, 255]))
    })
    .unwrap();
    assert_eq!((made.image.width, made.image.height), (3 * 384, 2 * 384));
    assert_eq!(pixel(&made.image, 384, 0), [1, 9, 9, 255]);
    assert_eq!(pixel(&made.image, 384 + 383, 384 + 383), [4, 9, 9, 255]);
    assert_eq!(pixel(&made.image, 2 * 384, 384), [0, 0, 0, 0]);
}

#[test]
fn a_coarser_tile_is_put_together_from_blocks() {
    let cells = (0_u8..20).map(cell).collect::<Vec<_>>();
    let tile = tile(1, 20, 1);
    let blocks = world_lod_child_blocks(&tile);

    assert_eq!(
        blocks[2],
        WorldLodChildBlock {
            child_column: 2,
            child_row: 0,
            start_column: 16,
            end_column: 20,
            start_row: 0,
            end_row: 1,
        }
    );
    assert_eq!(blocks.len(), 3);
    let made = make_tile(&tile, &cells, 20, &|_, place| {
        Ok(plain(place.width, place.height, [place.cell as u8, 0, 0, 255]))
    })
    .unwrap();
    assert_eq!((made.image.width, made.image.height), (3 * 384, 384));
    assert_eq!(pixel(&made.image, 2 * 384, 100), [16, 0, 0, 255]);
    assert_eq!(pixel(&made.image, 3 * 384 - 1, 100), [19, 0, 0, 255]);
}

#[test]
fn a_tile_that_is_too_large_is_refused() {
    let cells = vec![cell(0)];
    let wide = tile(0, usize::MAX, 1);
    let high = tile(0, 1, u32::MAX as usize);

    assert_eq!(
        generate_world_l0_tile(&wide, &cells, 1, &Vec::new()).unwrap_err(),
        "tile width is out of range"
    );
    assert_eq!(
        generate_world_l0_tile(&high, &cells, 1, &Vec::new()).unwrap_err(),
        "tile height is out of range"
    );
    assert_eq!(tile_pixels(8, 384, "edge"), Ok(3072));
    assert_eq!(tile_pixels(usize::MAX, 1, "edge"), Err("edge is out of range".to_owned()));
}

#[test]
fn parts_of_an_edge_follow_one_another() {
    assert_eq!(scaled_offset(0, 7, 384), 0);
    assert_eq!(scaled_offset(1, 7, 384), 54);
    assert_eq!(scaled_offset(7, 7, 384), 384);
    assert_eq!(scaled_offset(3, 0, 10), 30);
}

#[test]
fn pixels_are_blended_by_their_alpha() {
    let places = vec![
        CellPlacement { cell: 0, x: 0, y: 0, width: 2, height: 1 },
        CellPlacement { cell: 0, x: 1, y: 0, width: 2, height: 1 },
    ];
    let cells = vec![cell(0)];
    let below = Ok(plain(2, 1, [200, 100, 0, 255]));

    let solid = compose(
        &cells,
        3,
        1,
        &places,
        &vec![below.clone(), Ok(plain(2, 1, [1, 2, 3, 255]))],
    );
    assert_eq!(pixel(&solid.image, 0, 0), [200, 100, 0, 255]);
    assert_eq!(pixel(&solid.image, 1, 0), [1, 2, 3, 255]);
    assert_eq!(pixel(&solid.image, 2, 0), [1, 2, 3, 255]);

    let nothing = compose(
        &cells,
        3,
        1,
        &places,
        &vec![below.clone(), Ok(plain(2, 1, [1, 2, 3, 0]))],
    );
    assert_eq!(pixel(&nothing.image, 1, 0), [200, 100, 0, 255]);
    assert_eq!(pixel(&nothing.image, 2, 0), [0, 0, 0, 0]);

    let half = compose(&cells, 3, 1, &places, &vec![below, Ok(plain(2, 1, [0, 0, 0, 128]))]);
    let mixed = pixel(&half.image, 1, 0);
    assert!(mixed[0] > 90 && mixed[0] < 110, "{mixed:?}");
    assert!(mixed[3] >= 254, "{mixed:?}");
}

#[test]
fn what_cannot_be_had_is_noted() {
    let places = vec![CellPlacement { cell: 1, x: 0, y: 0, width: 1, height: 1 }];
    let cells = vec![cell(0), cell(1)];
    let made = compose(&cells, 1, 1, &places, &vec![Err("no such file".to_owned())]);

    assert_eq!(made.image, clear_pixels(1, 1));
    assert_eq!(
        made.failures,
        vec![WorldCacheFailureRecord {
            kind: "cell".to_owned(),
            item: "/wall/01.jpg".to_owned(),
            message: "no such file".to_owned(),
        }]
    );
}

#[test]
fn thumbnails_are_read_and_fitted() {
    let red = [250, 0, 0, 255];
    let read = load_world_cell_thumbnail("/a.png", &png(2, 3, red)).unwrap();
    assert_eq!(read, plain(2, 3, red));
    assert_eq!(fitted(read.clone(), 2, 3), read);
    assert_eq!(fitted(read, 4, 5), plain(4, 5, red));

    let filled =
        generate_world_cell_thumbnail_image_internal("/a.png", &png(40, 10, red), 8, 8).unwrap();
    assert_eq!(filled, plain(8, 8, red));
    let output = decode_picture("vipsthumbnail output", "/tmp/x.png", &png(1, 1, red)).unwrap();
    assert_eq!(output, plain(1, 1, red));
}

#[test]
fn a_file_without_a_picture_is_named() {
    let bytes = b"nothing".to_vec();

    assert!(load_world_cell_thumbnail("/a.png", &bytes)
        .unwrap_err()
        .starts_with("failed to decode cell thumbnail /a.png: "));
    assert!(generate_world_cell_thumbnail_image_internal("/a.png", &bytes, 1, 1)
        .unwrap_err()
        .starts_with("failed to decode source image /a.png: "));
    assert_eq!(
        thumbnail_failure("inner", "outer"),
        "inner; vipsthumbnail fallback failed: outer"
    );
}

#[test]
fn the_first_bytes_of_a_picture_show_its_format() {
    let red = [250, 0, 0, 255];

    assert_eq!(picture_format("/a.jpg", &png(1, 1, red)).unwrap(), ImageFormat::Png);
    assert_eq!(picture_format("/a", &png(1, 1, red)).unwrap(), ImageFormat::Png);
    assert_eq!(load_world_cell_thumbnail("/a.jpg", &png(2, 3, red)).unwrap(), plain(2, 3, red));
}

#[test]
fn the_extension_names_a_format_that_the_bytes_do_not_show() {
    let bytes = b"nothing".to_vec();

    assert_eq!(picture_format("/a.png", &bytes).unwrap(), ImageFormat::Png);
    assert_eq!(picture_format("/b.d/a.JPEG", &bytes).unwrap(), ImageFormat::Jpeg);
    assert_ne!(
        load_world_cell_thumbnail("/a.png", &bytes).unwrap_err(),
        "failed to decode cell thumbnail /a.png: The image format could not be determined"
    );
    assert_ne!(
        load_world_cell_thumbnail("/a.png", &bytes),
        load_world_cell_thumbnail("/a.jpg", &bytes)
    );
}

#[test]
fn a_file_of_no_known_format_is_refused() {
    let bytes = b"nothing".to_vec();

    for path in ["/a", "/b.png/a", "/a.", "/.png"] {
        assert_eq!(
            load_world_cell_thumbnail(path, &bytes).unwrap_err(),
            format!(
                "failed to decode cell thumbnail {path}: The image format could not be determined"
            )
        );
    }
    assert_eq!(
        load_world_cell_thumbnail("/a.foo", &bytes).unwrap_err(),
        "failed to decode cell thumbnail /a.foo: \
         The file extension `.\"foo\"` was not recognized as an image format"
    );
}

#[test]
fn a_tile_is_held_where_its_bytes_can_be_counted() {
    assert!(tile_can_be_held(&tile(0, 8, 8)));
    assert!(tile_can_be_held(&tile(2, 512, 512)));
    assert!(tile_can_be_held(&tile(0, usize::MAX, 1)));
    assert!(!tile_can_be_held(&tile(0, 10_000_000, 10_000_000)));
}

#[test]
fn a_refused_file_is_named_with_the_reason() {
    assert_eq!(
        decode_failure("cell thumbnail", "/cache/a.png", "no signature"),
        "failed to decode cell thumbnail /cache/a.png: no signature"
    );
}
