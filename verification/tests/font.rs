use rusttype::{point, Font, OutlineBuilder, PositionedGlyph, Scale};
use text_svg::{Builder, Glyph, Pixel, Point, Rect, Segment, Text};

/// A font of two glyphs, `.notdef` and `A`, with 1000 units to the em, an ascent
/// of 1024 units and a descent of 400 units.
const FONT: [u8; 400] = [
    0x00, 0x01, 0x00, 0x00, 0x00, 0x07, 0x00, 0x40, 0x00, 0x02, 0x00, 0x30, 0x63, 0x6d, 0x61, 0x70,
    0x00, 0x09, 0x00, 0x76, 0x00, 0x00, 0x01, 0x00, 0x00, 0x00, 0x00, 0x2c, 0x67, 0x6c, 0x79, 0x66,
    0xf1, 0xcb, 0x66, 0x98, 0x00, 0x00, 0x01, 0x34, 0x00, 0x00, 0x00, 0x5c, 0x68, 0x65, 0x61, 0x64,
    0xf2, 0x35, 0xdd, 0xf8, 0x00, 0x00, 0x00, 0x7c, 0x00, 0x00, 0x00, 0x36, 0x68, 0x68, 0x65, 0x61,
    0x06, 0x61, 0x00, 0xca, 0x00, 0x00, 0x00, 0xb4, 0x00, 0x00, 0x00, 0x24, 0x68, 0x6d, 0x74, 0x78,
    0x04, 0x74, 0x00, 0x6a, 0x00, 0x00, 0x00, 0xf8, 0x00, 0x00, 0x00, 0x08, 0x6c, 0x6f, 0x63, 0x61,
    0x00, 0x2e, 0x00, 0x14, 0x00, 0x00, 0x01, 0x2c, 0x00, 0x00, 0x00, 0x06, 0x6d, 0x61, 0x78, 0x70,
    0x00, 0x05, 0x00, 0x0b, 0x00, 0x00, 0x00, 0xd8, 0x00, 0x00, 0x00, 0x20, 0x00, 0x01, 0x00, 0x00,
    0x00, 0x01, 0x00, 0x00, 0xf5, 0x9c, 0x29, 0x44, 0x5f, 0x0f, 0x3c, 0xf5, 0x00, 0x02, 0x03, 0xe8,
    0x00, 0x00, 0x00, 0x00, 0xb4, 0x92, 0xf4, 0x00, 0x00, 0x00, 0x00, 0x00, 0xdc, 0x2f, 0xa6, 0x5c,
    0x00, 0x06, 0x00, 0x00, 0x02, 0x58, 0x02, 0xbc, 0x00, 0x00, 0x00, 0x03, 0x00, 0x02, 0x00, 0x00,
    0x00, 0x00, 0x00, 0x00, 0x00, 0x01, 0x00, 0x00, 0x04, 0x00, 0xfe, 0x70, 0x00, 0x00, 0x02, 0x58,
    0x00, 0x06, 0xff, 0xff, 0x02, 0x58, 0x00, 0x01, 0x00, 0x00, 0x00, 0x00, 0x00, 0x00, 0x00, 0x00,
    0x00, 0x00, 0x00, 0x00, 0x00, 0x00, 0x00, 0x02, 0x00, 0x01, 0x00, 0x00, 0x00, 0x02, 0x00, 0x0b,
    0x00, 0x02, 0x00, 0x00, 0x00, 0x00, 0x00, 0x00, 0x00, 0x00, 0x00, 0x00, 0x00, 0x00, 0x00, 0x00,
    0x00, 0x00, 0x00, 0x00, 0x00, 0x00, 0x00, 0x00, 0x02, 0x58, 0x00, 0x64, 0x02, 0x1c, 0x00, 0x06,
    0x00, 0x00, 0x00, 0x01, 0x00, 0x00, 0x00, 0x03, 0x00, 0x00, 0x00, 0x0c, 0x00, 0x04, 0x00, 0x20,
    0x00, 0x00, 0x00, 0x04, 0x00, 0x04, 0x00, 0x01, 0x00, 0x00, 0x00, 0x41, 0xff, 0xff, 0x00, 0x00,
    0x00, 0x41, 0xff, 0xff, 0xff, 0xc0, 0x00, 0x01, 0x00, 0x00, 0x00, 0x00, 0x00, 0x00, 0x00, 0x14,
    0x00, 0x2e, 0x00, 0x00, 0x00, 0x02, 0x00, 0x64, 0x00, 0x00, 0x02, 0x58, 0x02, 0xbc, 0x00, 0x03,
    0x00, 0x07, 0x00, 0x00, 0x33, 0x11, 0x21, 0x11, 0x25, 0x21, 0x11, 0x21, 0x64, 0x01, 0xf4, 0xfe,
    0x34, 0x01, 0xa4, 0xfe, 0x5c, 0x02, 0xbc, 0xfd, 0x44, 0x28, 0x02, 0x6c, 0x00, 0x02, 0x00, 0x06,
    0x00, 0x00, 0x02, 0x1d, 0x02, 0x90, 0x00, 0x02, 0x00, 0x0a, 0x00, 0x00, 0x13, 0x33, 0x03, 0x01,
    0x13, 0x33, 0x13, 0x23, 0x27, 0x23, 0x07, 0xad, 0xc4, 0x63, 0xfe, 0xf8, 0xda, 0x60, 0xdd, 0x59,
    0x3e, 0xef, 0x42, 0x01, 0x0b, 0x01, 0x40, 0xfd, 0xb5, 0x02, 0x90, 0xfd, 0x70, 0xc8, 0xc8, 0x00,
];

fn to_units(pixels: f32) -> i32 {
    (pixels * 1000.0).round() as i32
}

fn to_pixels(units: i64) -> f32 {
    (units as f64 / 1000.0) as f32
}

fn to_point(x: f32, y: f32) -> Point {
    Point { x: to_units(x), y: to_units(y) }
}

struct Recorder {
    outline: Vec<Segment>,
}

impl OutlineBuilder for Recorder {
    fn move_to(&mut self, x: f32, y: f32) {
        self.outline.push(Segment::MoveTo(to_point(x, y)));
    }

    fn line_to(&mut self, x: f32, y: f32) {
        self.outline.push(Segment::LineTo(to_point(x, y)));
    }

    fn quad_to(&mut self, x1: f32, y1: f32, x: f32, y: f32) {
        self.outline.push(Segment::QuadTo(to_point(x1, y1), to_point(x, y)));
    }

    fn curve_to(&mut self, x1: f32, y1: f32, x2: f32, y2: f32, x: f32, y: f32) {
        self.outline.push(Segment::CurveTo(to_point(x1, y1), to_point(x2, y2), to_point(x, y)));
    }

    fn close(&mut self) {
        self.outline.push(Segment::Close);
    }
}

fn glyph(positioned: &PositionedGlyph<'_>) -> Glyph {
    let bounding_box = positioned.pixel_bounding_box().map(|bb| Rect {
        min: Pixel { x: bb.min.x, y: bb.min.y },
        max: Pixel { x: bb.max.x, y: bb.max.y },
    });
    let mut recorder = Recorder { outline: Vec::new() };
    positioned.build_outline(&mut recorder);
    Glyph { bounding_box, outline: recorder.outline }
}

fn layout(builder: &Builder<'_>, text: &str) -> Vec<Glyph> {
    let font = Font::try_from_bytes(&FONT).unwrap();
    let scale = Scale::uniform(to_pixels(builder.size as i64));
    let ascent = font.v_metrics(scale).ascent;
    let origin = point(
        to_pixels(builder.start.x as i64),
        to_pixels(builder.baseline(to_units(ascent))),
    );
    font.layout(text, scale, origin).map(|positioned| glyph(&positioned)).collect()
}

fn set(builder: &Builder<'_>, text: &str) -> Text {
    builder.build(&layout(builder, text))
}

fn path_data(text: &Text) -> String {
    text.path.get_attributes().get("d").map(|v| v.to_string()).unwrap()
}

fn rect(min_x: i32, min_y: i32, max_x: i32, max_y: i32) -> Rect {
    Rect { min: Pixel { x: min_x, y: min_y }, max: Pixel { x: max_x, y: max_y } }
}

fn count(text: &str, letter: char) -> usize {
    text.chars().filter(|c| *c == letter).count()
}

const A_AT_10_5: &str = "M 16.074 31.58L 22.956 31.58L 19.48 20.344L 16.074 31.58Z\
                        M 10.211 40.955L 17.865 17.921L 21.236 17.921L 28.996 40.955\
                        L 25.871 40.955L 23.694 33.933L 15.302 33.933L 12.985 40.955\
                        L 10.211 40.955Z";

#[test]
fn a_capital_a_set_in_a_font() {
    let builder = Text::builder().size(50_000).start(Point { x: 10_000, y: 5_000 });
    let text = set(&builder, "A");
    let d = path_data(&text);
    assert!(d.starts_with('M'));
    let r = text.bounding_box.unwrap();
    assert!(rect(0, 0, 200, 60).min.x <= r.min.x && r.max.x <= 200);
    assert!(rect(0, 0, 200, 60).min.y <= r.min.y && r.max.y <= 60);
    assert!(r.min.x <= r.max.x && r.min.y <= r.max.y);
    assert_eq!(r, rect(10, 17, 29, 41));
    assert_eq!(d, A_AT_10_5);
    assert_eq!(text.path.get_attributes().get("fill").map(|v| v.to_string()).unwrap(), "#000");
}

#[test]
fn the_outline_is_relative_to_the_bounding_box() {
    let builder = Text::builder().size(50_000).start(Point { x: 10_000, y: 5_000 });
    let glyphs = layout(&builder, "A");
    assert_eq!(glyphs.len(), 1);
    assert_eq!(glyphs[0].bounding_box, Some(rect(10, 17, 29, 41)));
    assert_eq!(glyphs[0].outline[0], Segment::MoveTo(Point { x: 6_074, y: 14_580 }));
    assert_eq!(glyphs[0].outline.len(), 15);
}

#[test]
fn one_m_and_one_z_for_each_contour_of_the_a() {
    let d = path_data(&set(&Text::builder(), "A"));
    assert_eq!(count(&d, 'M'), 2);
    assert_eq!(count(&d, 'Z'), 2);
    let d = path_data(&set(&Text::builder(), "AAA"));
    assert_eq!(count(&d, 'M'), 6);
    assert_eq!(count(&d, 'Z'), 6);
}

#[test]
fn no_text_set_in_a_font_draws_nothing() {
    let text = set(&Text::builder(), "");
    assert_eq!(path_data(&text), "");
    assert_eq!(text.bounding_box, None);
}

#[test]
fn moving_the_start_by_whole_pixels_moves_the_path() {
    let builder = Text::builder().size(50_000);
    let text = set(&builder.start(Point { x: 17_000, y: 2_000 }), "A");
    assert_eq!(text.bounding_box, Some(rect(17, 14, 36, 38)));
    assert_eq!(
        path_data(&text),
        "M 23.074 28.58L 29.956 28.58L 26.48 17.344L 23.074 28.58Z\
         M 17.211 37.955L 24.865 14.921L 28.236 14.921L 35.996 37.955\
         L 32.871 37.955L 30.694 30.933L 22.302 30.933L 19.985 37.955\
         L 17.211 37.955Z"
    );
}

#[test]
fn a_larger_size_does_not_shrink_the_bounding_box() {
    let mut width = 0;
    let mut height = 0;
    for size in [0, 1_000, 8_000, 12_500, 32_000, 50_000, 50_001, 100_000, 400_000] {
        let text = set(&Text::builder().size(size), "AA");
        let (w, h) = match text.bounding_box {
            Some(r) => (r.max.x - r.min.x, r.max.y - r.min.y),
            None => (0, 0),
        };
        assert!(w >= width && h >= height, "size {}", size);
        width = w;
        height = h;
    }
    assert!(width > 0 && height > 0);
}

#[test]
fn setting_the_same_text_twice_gives_the_same_bytes() {
    let builder = Text::builder().size(50_000).start(Point { x: 10_000, y: 5_000 }).fill("#c00");
    let first = set(&builder, "AAA");
    let second = set(&builder, "AAA");
    assert_eq!(first.path.to_string(), second.path.to_string());
    assert_eq!(first.bounding_box, second.bounding_box);
}

#[test]
fn glyphs_follow_each_other_from_left_to_right() {
    let builder = Text::builder().size(50_000).start(Point { x: 10_000, y: 5_000 });
    let glyphs = layout(&builder, "AA");
    assert_eq!(glyphs.len(), 2);
    let first = glyphs[0].bounding_box.unwrap();
    let second = glyphs[1].bounding_box.unwrap();
    assert_eq!(first, rect(10, 17, 29, 41));
    assert!(first.min.x < second.min.x);
    let text = builder.build(&glyphs);
    assert_eq!(text.bounding_box, Some(first.union(second)));
    let d = path_data(&text);
    assert!(d.starts_with(A_AT_10_5));
    assert_eq!(path_data(&builder.build(&glyphs[1..])), d[A_AT_10_5.len()..]);
}
