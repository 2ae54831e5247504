//! Laid-out glyphs and the path data of a line of them.

use vstd::prelude::*;
use crate::geometry::{enclose, spec_enclose, Rect, UNITS_PER_PIXEL};
use crate::outline::{
    commands_text, count, is_command_letter, lemma_commands_text_begins_with_a_letter,
    lemma_commands_text_concat, lemma_count_concat, lemma_lettered_concat,
    lemma_offset_moves_every_position, lemma_outline_letters, lettered, outline_commands,
    shift_all, Collector, Command, Segment,
};

verus! {

/// One glyph of a laid-out text.
#[derive(Clone, Debug)]
pub struct Glyph {
    /// The pixel rectangle that encloses the glyph where it was laid out, or
    /// `None` for a glyph that draws nothing, such as a space.
    pub bounding_box: Option<Rect>,
    /// The outline, relative to the top-left corner of the bounding box.
    pub outline: Vec<Segment>,
}

/// A glyph as a value: its bounding box and its outline as a sequence.
pub struct GlyphView {
    pub bounding_box: Option<Rect>,
    pub outline: Seq<Segment>,
}

impl View for Glyph {
    type V = GlyphView;

    open spec fn view(&self) -> GlyphView {
        GlyphView { bounding_box: self.bounding_box, outline: self.outline@ }
    }
}

impl DeepView for Glyph {
    type V = GlyphView;

    open spec fn deep_view(&self) -> GlyphView {
        self@
    }
}

impl GlyphView {
    /// The part of the outline that is drawn: all of it, or nothing for a glyph
    /// without a bounding box.
    pub open spec fn drawn_outline(self) -> Seq<Segment> {
        match self.bounding_box {
            Some(_) => self.outline,
            None => Seq::empty(),
        }
    }

    /// Whether `self` is `other` moved by `dx` pixels to the right and `dy` pixels
    /// down: the same outline, and the bounding box, if there is one, moved.
    pub open spec fn is_shift_of(self, other: GlyphView, dx: int, dy: int) -> bool {
        &&& self.outline == other.outline
        &&& match (self.bounding_box, other.bounding_box) {
            (Some(a), Some(b)) => a.is_shift_of(b, dx, dy),
            (None, None) => true,
            _ => false,
        }
    }

    /// The drawing commands of this glyph: those of its outline with the top-left
    /// corner of the bounding box as origin. A glyph without a bounding box has none.
    pub open spec fn commands(self) -> Seq<Command> {
        match self.bounding_box {
            Some(b) => outline_commands(self.outline, b.min),
            None => Seq::empty(),
        }
    }
}

/// The drawing commands of a line of glyphs, in the order of the glyphs.
pub open spec fn glyphs_commands(glyphs: Seq<GlyphView>) -> Seq<Command>
    decreases glyphs.len(),
{
    if glyphs.len() == 0 {
        Seq::empty()
    } else {
        glyphs_commands(glyphs.drop_last()) + glyphs.last().commands()
    }
}

/// The union of the bounding boxes of a line of glyphs. Glyphs without a bounding
/// box take no part; where no glyph has one, there is no box.
pub open spec fn glyphs_bounds(glyphs: Seq<GlyphView>) -> Option<Rect>
    decreases glyphs.len(),
{
    if glyphs.len() == 0 {
        None
    } else {
        let seen = glyphs_bounds(glyphs.drop_last());
        match glyphs.last().bounding_box {
            Some(b) => spec_enclose(seen, b),
            None => seen,
        }
    }
}

/// The path data of a line of glyphs.
pub open spec fn glyphs_text(glyphs: Seq<GlyphView>) -> Seq<char> {
    commands_text(glyphs_commands(glyphs))
}

/// The segments that are drawn of a line of glyphs: the outlines of the glyphs
/// that have a bounding box, in the order of the glyphs.
pub open spec fn glyphs_outline(glyphs: Seq<GlyphView>) -> Seq<Segment>
    decreases glyphs.len(),
{
    if glyphs.len() == 0 {
        Seq::empty()
    } else {
        glyphs_outline(glyphs.drop_last()) + glyphs.last().drawn_outline()
    }
}

/// Walks the glyphs in order and returns their path data and the union of their
/// bounding boxes. A glyph without a bounding box is passed over.
pub fn trace(glyphs: &[Glyph]) -> (r: (String, Option<Rect>))
    ensures
        r.0@ == glyphs_text(glyphs.deep_view()),
        r.1 == glyphs_bounds(glyphs.deep_view()),
{
    let ghost line = glyphs.deep_view();
    let mut d = String::new();
    let mut bounds: Option<Rect> = None;
    let mut i: usize = 0;
    while i < glyphs.len()
        invariant
            i <= glyphs.len(),
            line == glyphs.deep_view(),
            d@ == glyphs_text(line.take(i as int)),
            bounds == glyphs_bounds(line.take(i as int)),
        decreases glyphs.len() - i,
    {
        let glyph = &glyphs[i];
        proof {
            assert(line.take(i + 1).drop_last() =~= line.take(i as int));
            assert(line.take(i + 1).last() == glyph@);
            lemma_commands_text_concat(glyphs_commands(line.take(i as int)), glyph@.commands());
        }
        match glyph.bounding_box {
            Some(b) => {
                let mut collector = Collector::new(b.min, d);
                collector.walk(glyph.outline.as_slice());
                d = collector.finish();
                bounds = enclose(bounds, b);
            },
            None => {
                assert(d@ + commands_text(Seq::empty()) =~= d@);
            },
        }
        i += 1;
    }
    assert(line.take(i as int) =~= line);
    (d, bounds)
}

/// The path data holds each command letter once for each drawn segment with that
/// letter. So it holds one `M` for each contour that a glyph starts and one `Z`
/// for each contour that a glyph closes.
pub proof fn lemma_one_letter_for_each_segment(glyphs: Seq<GlyphView>, letter: char)
    requires
        is_command_letter(letter),
    ensures
        count(glyphs_text(glyphs), letter) == lettered(glyphs_outline(glyphs), letter),
    decreases glyphs.len(),
{
    if glyphs.len() > 0 {
        let rest = glyphs.drop_last();
        let glyph = glyphs.last();
        lemma_one_letter_for_each_segment(rest, letter);
        lemma_commands_text_concat(glyphs_commands(rest), glyph.commands());
        lemma_count_concat(glyphs_text(rest), commands_text(glyph.commands()), letter);
        lemma_lettered_concat(glyphs_outline(rest), glyph.drawn_outline(), letter);
        match glyph.bounding_box {
            Some(b) => {
                lemma_outline_letters(glyph.outline, b.min, letter);
            },
            None => {},
        }
    }
}

/// There is a bounding box exactly when some glyph has one, and it covers the
/// bounding box of every glyph.
pub proof fn lemma_bounds_cover(glyphs: Seq<GlyphView>)
    ensures
        glyphs_bounds(glyphs) is Some <==> exists|i: int|
            0 <= i < glyphs.len() && (#[trigger] glyphs[i]).bounding_box is Some,
        forall|i: int|
            0 <= i < glyphs.len() && (#[trigger] glyphs[i]).bounding_box is Some ==> {
                &&& glyphs_bounds(glyphs) is Some
                &&& glyphs_bounds(glyphs).unwrap().covers(glyphs[i].bounding_box.unwrap())
            },
    decreases glyphs.len(),
{
    if glyphs.len() > 0 {
        let rest = glyphs.drop_last();
        lemma_bounds_cover(rest);
        assert forall|i: int| 0 <= i < rest.len() implies rest[i] == glyphs[i] by {}
        if glyphs.last().bounding_box is Some {
            assert(glyphs[glyphs.len() - 1].bounding_box is Some);
        }
        if glyphs_bounds(rest) is Some {
            let i = choose|i: int|
                0 <= i < rest.len() && (#[trigger] rest[i]).bounding_box is Some;
            assert(glyphs[i].bounding_box is Some);
        }
        assert forall|i: int|
            0 <= i < glyphs.len() && (#[trigger] glyphs[i]).bounding_box is Some implies {
            &&& glyphs_bounds(glyphs) is Some
            &&& glyphs_bounds(glyphs).unwrap().covers(glyphs[i].bounding_box.unwrap())
        } by {
            if i < rest.len() {
                assert(rest[i].bounding_box is Some);
            }
        }
    }
}

/// Where some glyph has a bounding box with its `min` at or before its `max`,
/// the line has a bounding box, and it has its `min` at or before its `max`.
pub proof fn lemma_bounds_ordered(glyphs: Seq<GlyphView>)
    requires
        exists|i: int|
            0 <= i < glyphs.len() && (#[trigger] glyphs[i]).bounding_box is Some
                && glyphs[i].bounding_box.unwrap().is_ordered(),
    ensures
        glyphs_bounds(glyphs) is Some,
        glyphs_bounds(glyphs).unwrap().is_ordered(),
{
    lemma_bounds_cover(glyphs);
    let i = choose|i: int|
        0 <= i < glyphs.len() && (#[trigger] glyphs[i]).bounding_box is Some
            && glyphs[i].bounding_box.unwrap().is_ordered();
    assert(glyphs_bounds(glyphs).unwrap().covers(glyphs[i].bounding_box.unwrap()));
}

/// The bounding box of the line is the least rectangle that covers the bounding
/// box of every glyph: a `frame` that covers them all covers it too.
pub proof fn lemma_bounds_within(glyphs: Seq<GlyphView>, frame: Rect)
    requires
        forall|i: int|
            0 <= i < glyphs.len() && (#[trigger] glyphs[i]).bounding_box is Some ==> frame.covers(
                glyphs[i].bounding_box.unwrap(),
            ),
    ensures
        glyphs_bounds(glyphs) is Some ==> frame.covers(glyphs_bounds(glyphs).unwrap()),
    decreases glyphs.len(),
{
    if glyphs.len() > 0 {
        let rest = glyphs.drop_last();
        assert forall|i: int|
            0 <= i < rest.len() && (#[trigger] rest[i]).bounding_box is Some implies frame.covers(
            rest[i].bounding_box.unwrap(),
        ) by {
            assert(glyphs[i].bounding_box is Some);
        }
        lemma_bounds_within(rest, frame);
        assert(glyphs[glyphs.len() - 1] == glyphs.last());
    }
}

/// Moving every glyph by `dx` pixels to the right and `dy` pixels down moves
/// every position of every command by as much, and leaves the kinds of the
/// commands and their order as they were: the path data is that of the moved
/// commands. The bounding box moves along.
pub proof fn lemma_moving_the_glyphs_moves_the_path(
    glyphs: Seq<GlyphView>,
    moved: Seq<GlyphView>,
    dx: int,
    dy: int,
)
    requires
        moved.len() == glyphs.len(),
        forall|i: int|
            0 <= i < glyphs.len() ==> (#[trigger] moved[i]).is_shift_of(glyphs[i], dx, dy),
    ensures
        glyphs_commands(moved) == shift_all(
            glyphs_commands(glyphs),
            UNITS_PER_PIXEL * dx,
            UNITS_PER_PIXEL * dy,
        ),
        glyphs_text(moved) == commands_text(
            shift_all(glyphs_commands(glyphs), UNITS_PER_PIXEL * dx, UNITS_PER_PIXEL * dy),
        ),
        match (glyphs_bounds(moved), glyphs_bounds(glyphs)) {
            (Some(a), Some(b)) => a.is_shift_of(b, dx, dy),
            (None, None) => true,
            _ => false,
        },
    decreases glyphs.len(),
{
    let x = UNITS_PER_PIXEL * dx;
    let y = UNITS_PER_PIXEL * dy;
    if glyphs.len() == 0 {
        assert(glyphs_commands(moved) =~= shift_all(glyphs_commands(glyphs), x, y));
    } else {
        let rest = glyphs.drop_last();
        let moved_rest = moved.drop_last();
        assert forall|i: int| 0 <= i < rest.len() implies (#[trigger] moved_rest[i]).is_shift_of(
            rest[i],
            dx,
            dy,
        ) by {
            assert(moved[i].is_shift_of(glyphs[i], dx, dy));
        }
        lemma_moving_the_glyphs_moves_the_path(rest, moved_rest, dx, dy);
        let glyph = glyphs.last();
        let moved_glyph = moved.last();
        assert(moved[glyphs.len() - 1].is_shift_of(glyphs[glyphs.len() - 1], dx, dy));
        if let Some(b) = glyph.bounding_box {
            lemma_offset_moves_every_position(
                glyph.outline,
                b.min,
                moved_glyph.bounding_box.unwrap().min,
            );
        }
        assert(moved_glyph.commands() =~= shift_all(glyph.commands(), x, y));
        assert(glyphs_commands(moved) =~= shift_all(glyphs_commands(glyphs), x, y));
    }
}

/// A glyph without a bounding box, wherever it stands in the line, adds no
/// command and does not change the bounding box.
pub proof fn lemma_blank_glyph_adds_nothing(
    before: Seq<GlyphView>,
    blank: GlyphView,
    after: Seq<GlyphView>,
)
    requires
        blank.bounding_box is None,
    ensures
        glyphs_commands(before.push(blank) + after) == glyphs_commands(before + after),
        glyphs_bounds(before.push(blank) + after) == glyphs_bounds(before + after),
    decreases after.len(),
{
    if after.len() == 0 {
        assert(before.push(blank) + after =~= before.push(blank));
        assert(before + after =~= before);
        assert(before.push(blank).drop_last() =~= before);
        assert(glyphs_commands(before) + blank.commands() =~= glyphs_commands(before));
    } else {
        assert((before.push(blank) + after).drop_last() =~= before.push(blank)
            + after.drop_last());
        assert((before + after).drop_last() =~= before + after.drop_last());
        lemma_blank_glyph_adds_nothing(before, blank, after.drop_last());
    }
}

/// A line in which no glyph has a bounding box, and so the empty line, draws
/// nothing: it has no command, no path data and no bounding box.
pub proof fn lemma_blank_line_draws_nothing(glyphs: Seq<GlyphView>)
    requires
        forall|i: int| 0 <= i < glyphs.len() ==> (#[trigger] glyphs[i]).bounding_box is None,
    ensures
        glyphs_commands(glyphs) == Seq::<Command>::empty(),
        glyphs_text(glyphs) == Seq::<char>::empty(),
        glyphs_bounds(glyphs) is None,
    decreases glyphs.len(),
{
    if glyphs.len() > 0 {
        let rest = glyphs.drop_last();
        assert forall|i: int| 0 <= i < rest.len() implies (#[trigger] rest[i]).bounding_box
            is None by {
            assert(glyphs[i].bounding_box is None);
        }
        lemma_blank_line_draws_nothing(rest);
        assert(glyphs[glyphs.len() - 1].bounding_box is None);
        assert(glyphs_commands(glyphs) =~= Seq::<Command>::empty());
    }
}

/// There is one command for each drawn segment, in the same order and with the
/// letter of that segment.
pub proof fn lemma_commands_follow_the_outline(glyphs: Seq<GlyphView>)
    ensures
        glyphs_commands(glyphs).len() == glyphs_outline(glyphs).len(),
        forall|i: int|
            0 <= i < glyphs_outline(glyphs).len() ==> (#[trigger] glyphs_commands(
                glyphs,
            )[i]).letter() == glyphs_outline(glyphs)[i].letter(),
    decreases glyphs.len(),
{
    if glyphs.len() > 0 {
        lemma_commands_follow_the_outline(glyphs.drop_last());
    }
}

/// Path data that draws anything begins with the letter of the first drawn
/// segment: with `M` where the first drawn outline begins with a `MoveTo`.
pub proof fn lemma_path_data_begins_with_a_letter(glyphs: Seq<GlyphView>)
    requires
        glyphs_outline(glyphs).len() > 0,
    ensures
        glyphs_text(glyphs).len() > 0,
        glyphs_text(glyphs)[0] == glyphs_outline(glyphs)[0].letter(),
{
    lemma_commands_follow_the_outline(glyphs);
    lemma_commands_text_begins_with_a_letter(glyphs_commands(glyphs));
}

} // verus!
