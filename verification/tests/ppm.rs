use raycore::ppm::{push_decimal, LINE_LIMIT};
use raycore::Canvas;

#[derive(Clone, Copy, Debug, PartialEq)]
struct Color([f32; 3]);

impl Color {
    fn new(r: f32, g: f32, b: f32) -> Self {
        Color([r, g, b])
    }

    fn channel(value: f32) -> u8 {
        f32::min(255.0, f32::max(0.0, (value * 255.0).round())) as u8
    }

    fn to_channels(&self) -> [u8; 3] {
        [Self::channel(self.0[0]), Self::channel(self.0[1]), Self::channel(self.0[2])]
    }
}

const BLACK: Color = Color([0.0, 0.0, 0.0]);

fn text_of(canvas: &Canvas<Color>) -> String {
    let mut channels = Canvas::new(canvas.width(), canvas.height(), [0u8; 3]);
    for y in 0..canvas.height() {
        for x in 0..canvas.width() {
            channels.write(x, y, &canvas.pixel(x, y).to_channels());
        }
    }
    String::from_utf8(channels.as_ppm()).unwrap()
}

#[test]
fn canvas_header() {
    assert_eq!(
        String::from("P3\n5 3\n255"),
        text_of(&Canvas::new(5, 3, BLACK)).lines().take(3).collect::<Vec<_>>().join("\n")
    );
}

#[test]
fn canvas_body() {
    let mut c = Canvas::new(5, 3, BLACK);
    let c1 = Color::new(1.5, 0.0, 0.0);
    let c2 = Color::new(0.0, 0.5, 0.0);
    let c3 = Color::new(-0.5, 0.0, 1.0);
    c.write(0, 0, &c1);
    c.write(2, 1, &c2);
    c.write(4, 2, &c3);
    let body: String = [
        "255 0 0 0 0 0 0 0 0 0 0 0 0 0 0",
        "0 0 0 0 0 0 0 128 0 0 0 0 0 0 0",
        "0 0 0 0 0 0 0 0 0 0 0 0 0 0 255",
    ]
    .join("\n");
    assert_eq!(body, text_of(&c).lines().skip(3).collect::<Vec<_>>().join("\n"));
}

#[test]
fn canvas_body_splitting() {
    let canvas = Canvas::new(10, 2, Color::new(1.0, 0.8, 0.6));
    let body: String = [
        "255 204 153 255 204 153 255 204 153 255 204 153 255 204 153 255 204",
        "153 255 204 153 255 204 153 255 204 153 255 204 153",
        "255 204 153 255 204 153 255 204 153 255 204 153 255 204 153 255 204",
        "153 255 204 153 255 204 153 255 204 153 255 204 153",
    ]
    .join("\n");
    assert_eq!(body, text_of(&canvas).lines().skip(3).collect::<Vec<_>>().join("\n"));
}

#[test]
fn canvas_endline() {
    assert_eq!('\n', text_of(&Canvas::new(5, 3, BLACK)).pop().unwrap());
}

#[test]
fn empty_canvas_is_the_header_alone() {
    let canvas: Canvas<[u8; 3]> = Canvas::new(0, 0, [0; 3]);
    assert_eq!(b"P3\n0 0\n255\n".to_vec(), canvas.as_ppm());
    let canvas: Canvas<[u8; 3]> = Canvas::new(0, 7, [0; 3]);
    assert_eq!(b"P3\n0 7\n255\n".to_vec(), canvas.as_ppm());
}

#[test]
fn single_pixel_text() {
    let canvas = Canvas::new(1, 1, [7u8, 42, 255]);
    assert_eq!(b"P3\n1 1\n255\n7 42 255\n".to_vec(), canvas.as_ppm());
}

#[test]
fn each_image_row_starts_a_line() {
    let mut canvas = Canvas::new(2, 2, [0u8, 0, 0]);
    canvas.write(1, 0, &[1, 2, 3]);
    canvas.write(0, 1, &[4, 5, 6]);
    canvas.write(1, 1, &[7, 8, 9]);
    assert_eq!(b"P3\n2 2\n255\n0 0 0 1 2 3\n4 5 6 7 8 9\n".to_vec(), canvas.as_ppm());
}

#[test]
fn no_body_line_is_longer_than_the_limit() {
    assert_eq!(70, LINE_LIMIT);
    for width in [1usize, 5, 6, 7, 17, 18, 40] {
        for value in [0u8, 9, 10, 99, 100, 255] {
            let canvas = Canvas::new(width, 3, [value, 255 - value, value / 2]);
            let text = String::from_utf8(canvas.as_ppm()).unwrap();
            for line in text.lines().skip(3) {
                assert!(line.len() <= LINE_LIMIT, "{}", line);
                assert!(!line.is_empty());
            }
            let values: Vec<u8> =
                text.lines().skip(3).flat_map(|l| l.split(' ')).map(|v| v.parse().unwrap()).collect();
            assert_eq!(3 * width * 3, values.len());
            assert!(values.chunks(3).all(|p| p == [value, 255 - value, value / 2]));
        }
    }
}

#[test]
fn wide_row_of_one_digit_values_breaks_before_the_limit() {
    let canvas = Canvas::new(12, 1, [0u8, 0, 0]);
    let text = String::from_utf8(canvas.as_ppm()).unwrap();
    let lines: Vec<&str> = text.lines().skip(3).collect();
    assert_eq!(vec!["0 0 0 0 0 0 0 0 0 0 0 0 0 0 0 0 0 0 0 0 0 0 0 0 0 0 0 0 0 0 0 0 0 0 0", "0"], lines);
    assert_eq!(69, lines[0].len());
}

#[test]
fn push_decimal_writes_the_digits() {
    let mut out = b"n=".to_vec();
    push_decimal(&mut out, 0);
    out.push(b' ');
    push_decimal(&mut out, 9);
    out.push(b' ');
    push_decimal(&mut out, 10);
    out.push(b' ');
    push_decimal(&mut out, 255);
    out.push(b' ');
    push_decimal(&mut out, 65535);
    out.push(b' ');
    push_decimal(&mut out, 1000000007);
    assert_eq!(b"n=0 9 10 255 65535 1000000007".to_vec(), out);
}
