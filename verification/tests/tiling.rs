use raycore::components::{Tile, DEFAULT_TILE_SIZE};
use raycore::systems::TilingSystem;

fn tile(x_start: u16, x_end: u16, y_start: u16, y_end: u16) -> Tile {
    Tile { x_start, x_end, y_start, y_end }
}

fn check_tiling(width: u16, height: u16, expected_tiles: Vec<Tile>) {
    let tiles = TilingSystem.run(width, height);
    let mut tile_count = 0;
    for tile in tiles.iter() {
        assert!(expected_tiles.contains(tile));
        tile_count += 1;
    }
    assert_eq!(expected_tiles.len(), tile_count);
}

/// Counts, for every pixel of the image, the tiles that hold it.
fn assert_partition(width: u16, height: u16) {
    let tiles = TilingSystem.run(width, height);
    let mut seen = vec![0u32; width as usize * height as usize];
    for t in tiles.iter() {
        assert!(t.x_start < t.x_end && t.x_end <= width);
        assert!(t.y_start < t.y_end && t.y_end <= height);
        assert!((t.x_end - t.x_start) as usize <= DEFAULT_TILE_SIZE);
        assert!((t.y_end - t.y_start) as usize <= DEFAULT_TILE_SIZE);
        for y in t.y_start..t.y_end {
            for x in t.x_start..t.x_end {
                seen[y as usize * width as usize + x as usize] += 1;
            }
        }
    }
    assert!(seen.iter().all(|&n| n == 1));
}

#[test]
fn divisible_resolution() {
    let expected_tiles = vec![
        tile(0, 16, 0, 16),
        tile(16, 32, 0, 16),
        tile(0, 16, 16, 32),
        tile(16, 32, 16, 32),
    ];
    check_tiling(32, 32, expected_tiles);
}

#[test]
fn non_divisible_resolution() {
    let expected_tiles = vec![
        tile(0, 16, 0, 16),
        tile(16, 32, 0, 16),
        tile(32, 39, 0, 16),
        tile(0, 16, 16, 19),
        tile(16, 32, 16, 19),
        tile(32, 39, 16, 19),
    ];
    check_tiling(39, 19, expected_tiles);
}

#[test]
fn tiles_come_row_by_row() {
    let tiles = TilingSystem.run(39, 19);
    assert_eq!(
        tiles,
        vec![
            tile(0, 16, 0, 16),
            tile(16, 32, 0, 16),
            tile(32, 39, 0, 16),
            tile(0, 16, 16, 19),
            tile(16, 32, 16, 19),
            tile(32, 39, 16, 19),
        ]
    );
}

#[test]
fn divisible_image_has_four_full_tiles() {
    let tiles = TilingSystem.run(32, 32);
    assert_eq!(4, tiles.len());
    for t in tiles.iter() {
        assert_eq!(16, t.x_end - t.x_start);
        assert_eq!(16, t.y_end - t.y_start);
    }
    assert_partition(32, 32);
}

#[test]
fn empty_image_has_no_tiles() {
    assert_eq!(0, TilingSystem.run(0, 0).len());
    assert_eq!(0, TilingSystem.run(0, 40).len());
    assert_eq!(0, TilingSystem.run(40, 0).len());
}

#[test]
fn single_pixel_image_has_one_tile() {
    assert_eq!(vec![tile(0, 1, 0, 1)], TilingSystem.run(1, 1));
}

#[test]
fn image_smaller_than_a_tile() {
    assert_eq!(vec![tile(0, 15, 0, 7)], TilingSystem.run(15, 7));
}

#[test]
fn image_one_pixel_over_a_tile() {
    assert_eq!(
        vec![tile(0, 16, 0, 16), tile(16, 17, 0, 16), tile(0, 16, 16, 17), tile(16, 17, 16, 17)],
        TilingSystem.run(17, 17)
    );
}

#[test]
fn tiles_cover_each_pixel_once() {
    assert_partition(39, 19);
    assert_partition(1, 1);
    assert_partition(16, 16);
    assert_partition(17, 33);
    assert_partition(200, 200);
    assert_partition(255, 3);
}

#[test]
fn widest_image_does_not_overflow() {
    let tiles = TilingSystem.run(65535, 1);
    assert_eq!(4096, tiles.len());
    assert_eq!(tile(65520, 65535, 0, 1), tiles[4095]);
    let tiles = TilingSystem.run(1, 65535);
    assert_eq!(4096, tiles.len());
    assert_eq!(tile(0, 1, 65520, 65535), tiles[4095]);
}

#[test]
fn tile_count_is_the_rounded_up_quotient() {
    assert_eq!(3 * 2, TilingSystem.run(39, 19).len());
    assert_eq!(13 * 13, TilingSystem.run(200, 200).len());
    assert_eq!(1, TilingSystem.run(16, 16).len());
    assert_eq!(2, TilingSystem.run(17, 16).len());
}
