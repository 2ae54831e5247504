//! Glyph outlines and the collector that turns them into path data.
//!
//! An outline is a sequence of [`Segment`]s whose points are relative to the
//! top-left corner of the glyph's bounding box. The [`Collector`] is made with
//! that corner as its offset and appends, for each segment, one drawing command
//! with absolute coordinates to a buffer of path data.

use vstd::prelude::*;
use vstd::string::*;
use crate::decimal::{decimal_text, is_decimal_char, lemma_decimal_text_chars, write_decimal};
use crate::geometry::{Pixel, Point, UNITS_PER_PIXEL};

verus! {

/// One step of a glyph outline. Points are relative to the glyph's bounding box.
#[derive(Clone, Copy, Debug, PartialEq, Eq, Structural)]
pub enum Segment {
    /// Starts a contour at a point.
    MoveTo(Point),
    /// A straight line to a point.
    LineTo(Point),
    /// A quadratic curve, given by its control point and its end point.
    QuadTo(Point, Point),
    /// A cubic curve, given by its two control points and its end point.
    CurveTo(Point, Point, Point),
    /// Closes the contour.
    Close,
}

/// An absolute position in thousandths of a pixel.
pub struct Place {
    pub x: int,
    pub y: int,
}

/// One drawing command of path data, with absolute positions.
pub enum Command {
    MoveTo(Place),
    LineTo(Place),
    QuadTo(Place, Place),
    CurveTo(Place, Place, Place),
    Close,
}

/// Where the point `p` of an outline lies when the outline's origin is at `offset`.
pub open spec fn place(p: Point, offset: Pixel) -> Place {
    Place { x: UNITS_PER_PIXEL * offset.x + p.x, y: UNITS_PER_PIXEL * offset.y + p.y }
}

impl Place {
    /// This position moved by `dx` to the right and `dy` down.
    pub open spec fn shifted(self, dx: int, dy: int) -> Place {
        Place { x: self.x + dx, y: self.y + dy }
    }

    /// The two coordinates as text, separated by a space.
    pub open spec fn text(self) -> Seq<char> {
        decimal_text(self.x) + seq![' '] + decimal_text(self.y)
    }
}

impl Segment {
    /// The letter of the drawing command for this segment.
    pub open spec fn letter(self) -> char {
        match self {
            Segment::MoveTo(_) => 'M',
            Segment::LineTo(_) => 'L',
            Segment::QuadTo(_, _) => 'Q',
            Segment::CurveTo(_, _, _) => 'C',
            Segment::Close => 'Z',
        }
    }

    /// The drawing command for this segment of an outline whose origin is at `offset`.
    pub open spec fn placed(self, offset: Pixel) -> Command {
        match self {
            Segment::MoveTo(p) => Command::MoveTo(place(p, offset)),
            Segment::LineTo(p) => Command::LineTo(place(p, offset)),
            Segment::QuadTo(c, p) => Command::QuadTo(place(c, offset), place(p, offset)),
            Segment::CurveTo(c1, c2, p) => Command::CurveTo(
                place(c1, offset),
                place(c2, offset),
                place(p, offset),
            ),
            Segment::Close => Command::Close,
        }
    }
}

impl Command {
    /// The letter of the command.
    pub open spec fn letter(self) -> char {
        match self {
            Command::MoveTo(_) => 'M',
            Command::LineTo(_) => 'L',
            Command::QuadTo(_, _) => 'Q',
            Command::CurveTo(_, _, _) => 'C',
            Command::Close => 'Z',
        }
    }

    /// The same kind of command with every position moved by `dx` and `dy`.
    pub open spec fn shifted(self, dx: int, dy: int) -> Command {
        match self {
            Command::MoveTo(p) => Command::MoveTo(p.shifted(dx, dy)),
            Command::LineTo(p) => Command::LineTo(p.shifted(dx, dy)),
            Command::QuadTo(c, p) => Command::QuadTo(c.shifted(dx, dy), p.shifted(dx, dy)),
            Command::CurveTo(c1, c2, p) => Command::CurveTo(
                c1.shifted(dx, dy),
                c2.shifted(dx, dy),
                p.shifted(dx, dy),
            ),
            Command::Close => Command::Close,
        }
    }

    /// The command as path data: its letter and, after a space, its positions,
    /// separated by a comma and a space.
    pub open spec fn text(self) -> Seq<char> {
        match self {
            Command::MoveTo(p) => seq!['M', ' '] + p.text(),
            Command::LineTo(p) => seq!['L', ' '] + p.text(),
            Command::QuadTo(c, p) => seq!['Q', ' '] + c.text() + seq![',', ' '] + p.text(),
            Command::CurveTo(c1, c2, p) => seq!['C', ' '] + c1.text() + seq![',', ' ']
                + c2.text() + seq![',', ' '] + p.text(),
            Command::Close => seq!['Z'],
        }
    }
}

/// The drawing commands for an outline whose origin is at `offset`, one for each segment.
pub open spec fn outline_commands(outline: Seq<Segment>, offset: Pixel) -> Seq<Command> {
    outline.map_values(|s: Segment| s.placed(offset))
}

/// The path data of a sequence of commands: their texts, one after the other.
pub open spec fn commands_text(commands: Seq<Command>) -> Seq<char>
    decreases commands.len(),
{
    if commands.len() == 0 {
        Seq::empty()
    } else {
        commands_text(commands.drop_last()) + commands.last().text()
    }
}

/// The commands `commands`, each moved by `dx` to the right and `dy` down.
pub open spec fn shift_all(commands: Seq<Command>, dx: int, dy: int) -> Seq<Command> {
    commands.map_values(|c: Command| c.shifted(dx, dy))
}

/// Whether `c` is the letter of a drawing command.
pub open spec fn is_command_letter(c: char) -> bool {
    c == 'M' || c == 'L' || c == 'Q' || c == 'C' || c == 'Z'
}

/// The number of segments of `outline` whose command has the letter `letter`.
/// For `M` that is the number of contours that the outline starts, for `Z` the
/// number of contours that it closes.
pub open spec fn lettered(outline: Seq<Segment>, letter: char) -> nat
    decreases outline.len(),
{
    if outline.len() == 0 {
        0
    } else {
        lettered(outline.drop_last(), letter) + if outline.last().letter() == letter {
            1nat
        } else {
            0nat
        }
    }
}

/// How often the character `c` occurs in `s`.
pub open spec fn count(s: Seq<char>, c: char) -> nat
    decreases s.len(),
{
    if s.len() == 0 {
        0
    } else {
        count(s.drop_last(), c) + if s.last() == c {
            1nat
        } else {
            0nat
        }
    }
}

/// Collects the outline of one glyph as path data.
///
/// The collector holds the buffer while the outline is walked and gives it back
/// with [`Collector::finish`].
pub struct Collector {
    /// The top-left corner of the glyph's bounding box.
    pub offset: Pixel,
    /// The path data so far.
    pub d: String,
}

impl Collector {
    /// A collector that appends to `d` the outline of a glyph whose bounding box
    /// has its top-left corner at `offset`.
    pub fn new(offset: Pixel, d: String) -> (c: Self)
        ensures
            c.offset == offset,
            c.d == d,
    {
        Collector { offset, d }
    }

    /// Appends the absolute position of `p` as two numbers separated by a space.
    fn position(&mut self, p: Point)
        ensures
            final(self).offset == old(self).offset,
            final(self).d@ == old(self).d@ + place(p, old(self).offset).text(),
    {
        proof {
            reveal_strlit(" ");
        }
        let units: i64 = UNITS_PER_PIXEL as i64;
        assert(units == 1000);
        let x: i64 = units * (self.offset.x as i64) + (p.x as i64);
        let y: i64 = units * (self.offset.y as i64) + (p.y as i64);
        write_decimal(&mut self.d, x);
        self.d.append(" ");
        write_decimal(&mut self.d, y);
        assert(self.d@ =~= old(self).d@ + place(p, old(self).offset).text());
    }

    /// Starts a contour at `p`.
    pub fn move_to(&mut self, p: Point)
        ensures
            final(self).offset == old(self).offset,
            final(self).d@ == old(self).d@ + Segment::MoveTo(p).placed(old(self).offset).text(),
    {
        proof {
            reveal_strlit("M ");
        }
        self.d.append("M ");
        self.position(p);
        assert(self.d@ =~= old(self).d@ + Segment::MoveTo(p).placed(old(self).offset).text());
    }

    /// Draws a straight line to `p`.
    pub fn line_to(&mut self, p: Point)
        ensures
            final(self).offset == old(self).offset,
            final(self).d@ == old(self).d@ + Segment::LineTo(p).placed(old(self).offset).text(),
    {
        proof {
            reveal_strlit("L ");
        }
        self.d.append("L ");
        self.position(p);
        assert(self.d@ =~= old(self).d@ + Segment::LineTo(p).placed(old(self).offset).text());
    }

    /// Draws a quadratic curve to `end` with the control point `control`.
    pub fn quad_to(&mut self, control: Point, end: Point)
        ensures
            final(self).offset == old(self).offset,
            final(self).d@ == old(self).d@ + Segment::QuadTo(control, end).placed(
                old(self).offset,
            ).text(),
    {
        proof {
            reveal_strlit("Q ");
            reveal_strlit(", ");
        }
        self.d.append("Q ");
        self.position(control);
        self.d.append(", ");
        self.position(end);
        assert(self.d@ =~= old(self).d@ + Segment::QuadTo(control, end).placed(
            old(self).offset,
        ).text());
    }

    /// Draws a cubic curve to `end` with the control points `control1` and `control2`.
    pub fn curve_to(&mut self, control1: Point, control2: Point, end: Point)
        ensures
            final(self).offset == old(self).offset,
            final(self).d@ == old(self).d@ + Segment::CurveTo(control1, control2, end).placed(
                old(self).offset,
            ).text(),
    {
        proof {
            reveal_strlit("C ");
            reveal_strlit(", ");
        }
        self.d.append("C ");
        self.position(control1);
        self.d.append(", ");
        self.position(control2);
        self.d.append(", ");
        self.position(end);
        assert(self.d@ =~= old(self).d@ + Segment::CurveTo(control1, control2, end).placed(
            old(self).offset,
        ).text());
    }

    /// Closes the contour.
    pub fn close(&mut self)
        ensures
            final(self).offset == old(self).offset,
            final(self).d@ == old(self).d@ + Segment::Close.placed(old(self).offset).text(),
    {
        proof {
            reveal_strlit("Z");
        }
        self.d.append("Z");
        assert(self.d@ =~= old(self).d@ + Segment::Close.placed(old(self).offset).text());
    }

    /// Appends the command for one segment.
    pub fn segment(&mut self, segment: Segment)
        ensures
            final(self).offset == old(self).offset,
            final(self).d@ == old(self).d@ + segment.placed(old(self).offset).text(),
    {
        match segment {
            Segment::MoveTo(p) => self.move_to(p),
            Segment::LineTo(p) => self.line_to(p),
            Segment::QuadTo(c, p) => self.quad_to(c, p),
            Segment::CurveTo(c1, c2, p) => self.curve_to(c1, c2, p),
            Segment::Close => self.close(),
        }
    }

    /// Walks a whole outline and appends the command for each segment in turn.
    pub fn walk(&mut self, outline: &[Segment])
        ensures
            final(self).offset == old(self).offset,
            final(self).d@ == old(self).d@ + commands_text(
                outline_commands(outline@, old(self).offset),
            ),
    {
        let ghost commands = outline_commands(outline@, self.offset);
        let mut i: usize = 0;
        while i < outline.len()
            invariant
                i <= outline.len(),
                self.offset == old(self).offset,
                commands == outline_commands(outline@, self.offset),
                self.d@ == old(self).d@ + commands_text(commands.take(i as int)),
            decreases outline.len() - i,
        {
            self.segment(outline[i]);
            proof {
                assert(commands.take(i + 1).drop_last() =~= commands.take(i as int));
                assert(commands.take(i + 1).last() == outline@[i as int].placed(self.offset));
                assert(self.d@ =~= old(self).d@ + commands_text(commands.take(i + 1)));
            }
            i += 1;
        }
        assert(commands.take(i as int) =~= commands);
    }

    /// Gives the buffer back.
    pub fn finish(self) -> (d: String)
        ensures
            d == self.d,
    {
        self.d
    }
}

/// The occurrences in `a + b` are those in `a` and those in `b`.
pub proof fn lemma_count_concat(a: Seq<char>, b: Seq<char>, c: char)
    ensures
        count(a + b, c) == count(a, c) + count(b, c),
    decreases b.len(),
{
    if b.len() == 0 {
        assert(a + b =~= a);
    } else {
        assert((a + b).drop_last() =~= a + b.drop_last());
        lemma_count_concat(a, b.drop_last(), c);
    }
}

/// A character that is nowhere in `s` occurs zero times.
pub proof fn lemma_count_absent(s: Seq<char>, c: char)
    requires
        forall|i: int| 0 <= i < s.len() ==> s[i] != c,
    ensures
        count(s, c) == 0,
    decreases s.len(),
{
    if s.len() > 0 {
        lemma_count_absent(s.drop_last(), c);
    }
}

/// The path data of `a + b` is that of `a` followed by that of `b`.
pub proof fn lemma_commands_text_concat(a: Seq<Command>, b: Seq<Command>)
    ensures
        commands_text(a + b) == commands_text(a) + commands_text(b),
    decreases b.len(),
{
    if b.len() == 0 {
        assert(a + b =~= a);
        assert(commands_text(a) + commands_text(b) =~= commands_text(a));
    } else {
        assert((a + b).drop_last() =~= a + b.drop_last());
        lemma_commands_text_concat(a, b.drop_last());
        assert(commands_text(a + b) =~= commands_text(a) + commands_text(b));
    }
}

/// The segments of `a + b` with a letter are those of `a` and those of `b`.
pub proof fn lemma_lettered_concat(a: Seq<Segment>, b: Seq<Segment>, letter: char)
    ensures
        lettered(a + b, letter) == lettered(a, letter) + lettered(b, letter),
    decreases b.len(),
{
    if b.len() == 0 {
        assert(a + b =~= a);
    } else {
        assert((a + b).drop_last() =~= a + b.drop_last());
        lemma_lettered_concat(a, b.drop_last(), letter);
    }
}

/// No command letter occurs in the text of a position.
proof fn lemma_place_text_has_no_letter(p: Place, letter: char)
    requires
        is_command_letter(letter),
    ensures
        count(p.text(), letter) == 0,
{
    lemma_decimal_text_chars(p.x);
    lemma_decimal_text_chars(p.y);
    assert forall|i: int| 0 <= i < p.text().len() implies p.text()[i] != letter by {
        let a = decimal_text(p.x);
        if i < a.len() {
            assert(p.text()[i] == a[i]);
        } else if i > a.len() {
            assert(p.text()[i] == decimal_text(p.y)[i - a.len() - 1]);
        }
    }
    lemma_count_absent(p.text(), letter);
}

/// The head of a command, its letter and a space, holds that letter once and no
/// other command letter.
proof fn lemma_head_has_one_letter(head: char, letter: char)
    requires
        is_command_letter(letter),
    ensures
        count(seq![head, ' '], letter) == if head == letter {
            1nat
        } else {
            0nat
        },
{
    reveal_with_fuel(count, 3);
    assert(seq![head, ' '].drop_last() =~= seq![head]);
    assert(seq![head].drop_last() =~= Seq::<char>::empty());
}

/// The text of a command holds its own letter once and no other command letter.
pub proof fn lemma_command_has_one_letter(segment: Segment, offset: Pixel, letter: char)
    requires
        is_command_letter(letter),
    ensures
        count(segment.placed(offset).text(), letter) == if segment.letter() == letter {
            1nat
        } else {
            0nat
        },
{
    let comma = seq![',', ' '];
    assert(count(comma, letter) == 0) by {
        lemma_count_absent(comma, letter);
    }
    match segment {
        Segment::MoveTo(p) => {
            let head = seq!['M', ' '];
            lemma_head_has_one_letter('M', letter);
            lemma_place_text_has_no_letter(place(p, offset), letter);
            lemma_count_concat(head, place(p, offset).text(), letter);
        },
        Segment::LineTo(p) => {
            let head = seq!['L', ' '];
            lemma_head_has_one_letter('L', letter);
            lemma_place_text_has_no_letter(place(p, offset), letter);
            lemma_count_concat(head, place(p, offset).text(), letter);
        },
        Segment::QuadTo(c, p) => {
            let head = seq!['Q', ' '];
            lemma_head_has_one_letter('Q', letter);
            lemma_place_text_has_no_letter(place(c, offset), letter);
            lemma_place_text_has_no_letter(place(p, offset), letter);
            lemma_count_concat(head, place(c, offset).text(), letter);
            lemma_count_concat(head + place(c, offset).text(), comma, letter);
            lemma_count_concat(
                head + place(c, offset).text() + comma,
                place(p, offset).text(),
                letter,
            );
        },
        Segment::CurveTo(c1, c2, p) => {
            let head = seq!['C', ' '];
            lemma_head_has_one_letter('C', letter);
            lemma_place_text_has_no_letter(place(c1, offset), letter);
            lemma_place_text_has_no_letter(place(c2, offset), letter);
            lemma_place_text_has_no_letter(place(p, offset), letter);
            let t1 = head + place(c1, offset).text();
            let t2 = t1 + comma;
            let t3 = t2 + place(c2, offset).text();
            let t4 = t3 + comma;
            lemma_count_concat(head, place(c1, offset).text(), letter);
            lemma_count_concat(t1, comma, letter);
            lemma_count_concat(t2, place(c2, offset).text(), letter);
            lemma_count_concat(t3, comma, letter);
            lemma_count_concat(t4, place(p, offset).text(), letter);
        },
        Segment::Close => {
            reveal_with_fuel(count, 2);
            assert(seq!['Z'].drop_last() =~= Seq::<char>::empty());
        },
    }
}

/// The path data of an outline holds each command letter once for each segment
/// with that letter: one `M` for each contour that the outline starts, one `Z`
/// for each that it closes.
pub proof fn lemma_outline_letters(outline: Seq<Segment>, offset: Pixel, letter: char)
    requires
        is_command_letter(letter),
    ensures
        count(commands_text(outline_commands(outline, offset)), letter) == lettered(
            outline,
            letter,
        ),
    decreases outline.len(),
{
    if outline.len() > 0 {
        let commands = outline_commands(outline, offset);
        assert(commands.drop_last() =~= outline_commands(outline.drop_last(), offset));
        lemma_outline_letters(outline.drop_last(), offset, letter);
        lemma_command_has_one_letter(outline.last(), offset, letter);
        lemma_count_concat(
            commands_text(commands.drop_last()),
            commands.last().text(),
            letter,
        );
    }
}

/// The text of every command begins with its letter, which no number holds.
pub proof fn lemma_command_begins_with_its_letter(command: Command)
    ensures
        command.text().len() > 0,
        command.text()[0] == command.letter(),
        !is_decimal_char(command.letter()),
{
}

/// Path data begins with the letter of its first command.
pub proof fn lemma_commands_text_begins_with_a_letter(commands: Seq<Command>)
    requires
        commands.len() > 0,
    ensures
        commands_text(commands).len() > 0,
        commands_text(commands)[0] == commands[0].letter(),
    decreases commands.len(),
{
    lemma_command_begins_with_its_letter(commands.last());
    if commands.len() == 1 {
        assert(commands_text(commands.drop_last()) =~= Seq::<char>::empty());
    } else {
        lemma_commands_text_begins_with_a_letter(commands.drop_last());
    }
}

/// With another offset, every command of an outline is of the same kind and has
/// every position moved by as many pixels as the offset was.
pub proof fn lemma_offset_moves_every_position(outline: Seq<Segment>, from: Pixel, to: Pixel)
    ensures
        outline_commands(outline, to) == shift_all(
            outline_commands(outline, from),
            UNITS_PER_PIXEL * (to.x - from.x),
            UNITS_PER_PIXEL * (to.y - from.y),
        ),
{
    assert(outline_commands(outline, to) =~= shift_all(
        outline_commands(outline, from),
        UNITS_PER_PIXEL * (to.x - from.x),
        UNITS_PER_PIXEL * (to.y - from.y),
    ));
}

} // verus!
