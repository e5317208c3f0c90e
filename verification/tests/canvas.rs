use raycore::components::Tile;
use raycore::systems::{TilingSystem, TracingSystem};
use raycore::{Batch, Canvas, BATCH_SIZE};

#[derive(Clone, Copy, Debug, PartialEq)]
struct Color([f32; 3]);

impl Color {
    fn new(r: f32, g: f32, b: f32) -> Self {
        Color([r, g, b])
    }
}

const BLACK: Color = Color([0.0, 0.0, 0.0]);

fn tile(x_start: u16, x_end: u16, y_start: u16, y_end: u16) -> Tile {
    Tile { x_start, x_end, y_start, y_end }
}

/// A colour that names the pixel it belongs to.
fn color_of(x: u16, y: u16) -> Color {
    Color::new(x as f32, y as f32, 0.5)
}

#[test]
fn canvas_constructor() {
    let width = 10;
    let height = 20;
    let canvas = Canvas::new(width, height, Color::new(0.0, 0.0, 0.0));
    assert_eq!(width, canvas.width());
    assert_eq!(height, canvas.height());
    assert_eq!(vec![Color::new(0.0, 0.0, 0.0); width * height].as_slice(), canvas.as_slice());
    assert_eq!(canvas, Canvas::new(width, height, BLACK));
}

#[test]
fn canvas_write() {
    let mut c = Canvas::new(10, 20, BLACK);
    let red = Color::new(1.0, 0.0, 0.0);
    let x = 2;
    let y = 3;
    c.write(x, y, &red);
    assert_eq!(c.as_slice()[y * c.width() + x], red);
    assert_eq!(c.pixel(x, y), red);
}

#[test]
fn write_changes_one_pixel_only() {
    let mut c = Canvas::new(4, 3, BLACK);
    c.write(3, 1, &Color::new(0.25, 0.5, 0.75));
    for y in 0..3 {
        for x in 0..4 {
            let expected = if (x, y) == (3, 1) { Color::new(0.25, 0.5, 0.75) } else { BLACK };
            assert_eq!(expected, c.pixel(x, y));
        }
    }
    assert_eq!(Color::new(0.25, 0.5, 0.75), c.as_slice()[7]);
}

#[test]
fn empty_canvas_has_no_pixels() {
    let c = Canvas::new(0, 5, BLACK);
    assert_eq!(0, c.as_slice().len());
    let c = Canvas::from_batches(5, 0, BLACK, &[]);
    assert_eq!(0, c.as_slice().len());
}

#[test]
fn batch_size_is_one_full_tile() {
    assert_eq!(256, BATCH_SIZE);
    let batch = Batch::new(tile(0, 16, 0, 16), BLACK);
    assert_eq!(BATCH_SIZE, batch.colors.len());
    assert!(batch.colors.iter().all(|c| *c == BLACK));
    assert_eq!(tile(0, 16, 0, 16), batch.tile);
}

#[test]
fn batch_put_and_get_use_tile_coordinates() {
    let mut batch = Batch::new(tile(32, 39, 16, 19), BLACK);
    batch.put(34, 18, Color::new(1.0, 2.0, 3.0));
    assert_eq!(Color::new(1.0, 2.0, 3.0), batch.get(34, 18));
    assert_eq!(Color::new(1.0, 2.0, 3.0), batch.colors[2 * 16 + 2]);
    assert_eq!(BLACK, batch.get(32, 16));
    let changed = batch.colors.iter().filter(|c| **c != BLACK).count();
    assert_eq!(1, changed);
}

#[test]
fn from_batches_without_batches_is_background() {
    let grey = Color::new(0.5, 0.5, 0.5);
    let canvas = Canvas::from_batches(3, 2, grey, &[]);
    assert_eq!(Canvas::new(3, 2, grey), canvas);
}

#[test]
fn from_batches_places_pixels_at_global_offsets() {
    let mut batch = Batch::new(tile(16, 20, 16, 18), BLACK);
    for y in 16..18 {
        for x in 16..20 {
            batch.put(x, y, color_of(x, y));
        }
    }
    let canvas = Canvas::from_batches(20, 18, BLACK, &[batch]);
    for y in 0..18u16 {
        for x in 0..20u16 {
            let expected = if x >= 16 && y >= 16 { color_of(x, y) } else { BLACK };
            assert_eq!(expected, canvas.pixel(x as usize, y as usize));
        }
    }
    assert_eq!(color_of(17, 16), canvas.as_slice()[16 * 20 + 17]);
}

fn render(tiles: &[Tile]) -> Vec<Batch<Color>> {
    tiles
        .iter()
        .map(|t| TracingSystem::render_tile(*t, BLACK, |x, y| Some(color_of(x, y))))
        .collect()
}

#[test]
fn merged_tiles_give_the_whole_image() {
    let (width, height) = (39u16, 19u16);
    let tiles = TilingSystem.run(width, height);
    let batches = render(&tiles);
    let canvas = Canvas::from_batches(width as usize, height as usize, BLACK, &batches);
    for y in 0..height {
        for x in 0..width {
            assert_eq!(color_of(x, y), canvas.pixel(x as usize, y as usize));
        }
    }
}

#[test]
fn merge_does_not_depend_on_tile_order() {
    let (width, height) = (39u16, 19u16);
    let tiles = TilingSystem.run(width, height);
    let mut reversed = tiles.clone();
    reversed.reverse();
    let mut rotated = tiles.clone();
    rotated.rotate_left(2);
    let first = Canvas::from_batches(39, 19, BLACK, &render(&tiles));
    let second = Canvas::from_batches(39, 19, BLACK, &render(&reversed));
    let third = Canvas::from_batches(39, 19, BLACK, &render(&rotated));
    assert_eq!(first, second);
    assert_eq!(first, third);
}

#[test]
fn later_batch_wins_where_tiles_overlap() {
    let red = Color::new(1.0, 0.0, 0.0);
    let blue = Color::new(0.0, 0.0, 1.0);
    let lower = TracingSystem::render_tile(tile(0, 4, 0, 1), BLACK, |_, _| Some(red));
    let upper = TracingSystem::render_tile(tile(2, 6, 0, 1), BLACK, |_, _| Some(blue));
    let canvas = Canvas::from_batches(6, 1, BLACK, &[lower, upper]);
    assert_eq!(&[red, red, blue, blue, blue, blue], canvas.as_slice());
}

#[test]
fn render_tile_keeps_background_where_nothing_is_hit() {
    let white = Color::new(1.0, 1.0, 1.0);
    let t = tile(16, 19, 32, 34);
    let batch =
        TracingSystem::render_tile(t, BLACK, |x, y| if (x + y) % 2 == 0 { Some(white) } else { None });
    assert_eq!(t, batch.tile);
    for y in 32..34u16 {
        for x in 16..19u16 {
            let expected = if (x + y) % 2 == 0 { white } else { BLACK };
            assert_eq!(expected, batch.get(x, y));
            assert_eq!(expected, batch.colors[(y - 32) as usize * 16 + (x - 16) as usize]);
        }
    }
    let set = batch.colors.iter().filter(|c| **c == white).count();
    assert_eq!(3, set);
}

#[test]
fn render_tile_of_an_empty_tile_is_all_background() {
    let batch = TracingSystem::render_tile(tile(5, 5, 0, 16), BLACK, |_, _| Some(Color::new(1.0, 1.0, 1.0)));
    assert!(batch.colors.iter().all(|c| *c == BLACK));
}

#[test]
fn render_tile_traces_each_pixel_once() {
    let calls = std::cell::Cell::new(0u32);
    let batch = TracingSystem::render_tile(tile(0, 16, 0, 16), 0u32, |x, y| {
        calls.set(calls.get() + 1);
        Some(y as u32 * 100 + x as u32)
    });
    assert_eq!(256, calls.get());
    assert_eq!(1503, batch.colors[15 * 16 + 3]);
}
