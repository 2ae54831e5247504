use text_svg::geometry::enclose;
use text_svg::glyph::trace;
use text_svg::{Glyph, Pixel, Point, Rect, Segment};

fn rect(min_x: i32, min_y: i32, max_x: i32, max_y: i32) -> Rect {
    Rect { min: Pixel { x: min_x, y: min_y }, max: Pixel { x: max_x, y: max_y } }
}

fn point(x: i32, y: i32) -> Point {
    Point { x, y }
}

fn square(side: i32) -> Vec<Segment> {
    vec![
        Segment::MoveTo(point(0, 0)),
        Segment::LineTo(point(side, 0)),
        Segment::LineTo(point(side, side)),
        Segment::LineTo(point(0, side)),
        Segment::Close,
    ]
}

fn ring() -> Vec<Segment> {
    let mut outline = square(8_000);
    outline.push(Segment::MoveTo(point(2_000, 2_000)));
    outline.push(Segment::QuadTo(point(4_000, 1_000), point(6_000, 2_000)));
    outline.push(Segment::CurveTo(point(7_000, 4_000), point(5_000, 6_500), point(2_000, 6_000)));
    outline.push(Segment::Close);
    outline
}

fn space() -> Glyph {
    Glyph { bounding_box: None, outline: Vec::new() }
}

fn line() -> Vec<Glyph> {
    vec![
        Glyph { bounding_box: Some(rect(10, 20, 18, 28)), outline: ring() },
        space(),
        Glyph { bounding_box: Some(rect(24, 25, 27, 28)), outline: square(3_000) },
        Glyph { bounding_box: Some(rect(30, 16, 34, 31)), outline: square(4_000) },
    ]
}

fn count(text: &str, letter: char) -> usize {
    text.chars().filter(|c| *c == letter).count()
}

#[test]
fn no_glyphs_give_no_path_data_and_no_box() {
    let (d, bounds) = trace(&[]);
    assert_eq!(d, "");
    assert_eq!(bounds, None);
}

#[test]
fn a_space_alone_gives_no_path_data_and_no_box() {
    let (d, bounds) = trace(&[space()]);
    assert_eq!(d, "");
    assert_eq!(bounds, None);
}

#[test]
fn a_glyph_without_a_box_is_passed_over_even_with_an_outline() {
    let glyph = Glyph { bounding_box: None, outline: square(1_000) };
    let (d, bounds) = trace(&[glyph]);
    assert_eq!(d, "");
    assert_eq!(bounds, None);
}

#[test]
fn a_space_between_glyphs_changes_nothing() {
    let with_space = line();
    let without_space: Vec<Glyph> =
        line().into_iter().filter(|g| g.bounding_box.is_some()).collect();
    assert_eq!(without_space.len(), 3);
    assert_eq!(trace(&with_space), trace(&without_space));
}

#[test]
fn one_glyph_is_drawn_at_its_box() {
    let glyph = Glyph { bounding_box: Some(rect(24, 25, 27, 28)), outline: square(3_000) };
    let (d, bounds) = trace(&[glyph]);
    assert_eq!(d, "M 24 25L 27 25L 27 28L 24 28Z");
    assert_eq!(bounds, Some(rect(24, 25, 27, 28)));
}

#[test]
fn glyphs_are_drawn_in_their_order() {
    let (d, _) = trace(&line());
    assert_eq!(
        d,
        "M 10 20L 18 20L 18 28L 10 28Z\
         M 12 22Q 14 21, 16 22C 17 24, 15 26.5, 12 26Z\
         M 24 25L 27 25L 27 28L 24 28Z\
         M 30 16L 34 16L 34 20L 30 20Z"
    );
}

#[test]
fn the_box_is_the_union_of_the_glyph_boxes() {
    let (_, bounds) = trace(&line());
    assert_eq!(bounds, Some(rect(10, 16, 34, 31)));
}

#[test]
fn the_box_is_ordered_when_the_glyph_boxes_are() {
    let (_, bounds) = trace(&line());
    let r = bounds.unwrap();
    assert!(r.min.x <= r.max.x);
    assert!(r.min.y <= r.max.y);
}

#[test]
fn the_box_does_not_reach_for_the_origin() {
    let glyph = Glyph { bounding_box: Some(rect(-9, -7, -4, -2)), outline: square(1_000) };
    let (_, bounds) = trace(&[glyph]);
    assert_eq!(bounds, Some(rect(-9, -7, -4, -2)));
}

#[test]
fn one_m_for_each_contour_and_one_z_for_each_closed_contour() {
    let (d, _) = trace(&line());
    assert_eq!(count(&d, 'M'), 4);
    assert_eq!(count(&d, 'Z'), 4);
    assert_eq!(count(&d, 'L'), 9);
    assert_eq!(count(&d, 'Q'), 1);
    assert_eq!(count(&d, 'C'), 1);
}

#[test]
fn an_open_contour_has_an_m_and_no_z() {
    let glyph = Glyph {
        bounding_box: Some(rect(0, 0, 2, 2)),
        outline: vec![Segment::MoveTo(point(0, 0)), Segment::LineTo(point(2_000, 2_000))],
    };
    let (d, _) = trace(&[glyph]);
    assert_eq!(d, "M 0 0L 2 2");
    assert_eq!(count(&d, 'M'), 1);
    assert_eq!(count(&d, 'Z'), 0);
}

#[test]
fn moving_the_glyphs_moves_every_coordinate_and_the_box() {
    let shift = |b: Rect| rect(b.min.x + 5, b.min.y - 3, b.max.x + 5, b.max.y - 3);
    let moved: Vec<Glyph> = line()
        .into_iter()
        .map(|g| Glyph { bounding_box: g.bounding_box.map(shift), outline: g.outline })
        .collect();
    let (d, bounds) = trace(&moved);
    assert_eq!(
        d,
        "M 15 17L 23 17L 23 25L 15 25Z\
         M 17 19Q 19 18, 21 19C 22 21, 20 23.5, 17 23Z\
         M 29 22L 32 22L 32 25L 29 25Z\
         M 35 13L 39 13L 39 17L 35 17Z"
    );
    assert_eq!(bounds, Some(rect(15, 13, 39, 28)));
}

#[test]
fn tracing_twice_gives_the_same() {
    assert_eq!(trace(&line()), trace(&line()));
}

#[test]
fn union_takes_the_outer_edges() {
    let a = rect(0, 5, 10, 6);
    let b = rect(-2, 7, 3, 20);
    assert_eq!(a.union(b), rect(-2, 5, 10, 20));
    assert_eq!(b.union(a), rect(-2, 5, 10, 20));
    assert_eq!(a.union(a), a);
}

#[test]
fn enclose_starts_from_the_first_box() {
    let a = rect(4, 4, 6, 6);
    assert_eq!(enclose(None, a), Some(a));
    assert_eq!(enclose(Some(rect(0, 5, 5, 9)), a), Some(rect(0, 4, 6, 9)));
}
