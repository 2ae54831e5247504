//! The finished text and the builder that makes it.

use vstd::prelude::*;
use svg::node::element::Path;
use crate::geometry::{Point, Rect};
use crate::glyph::{glyphs_bounds, glyphs_text, trace, Glyph, GlyphView};

verus! {

/// The `path` element of the `svg` crate. Nothing is known of what is inside it
/// but what [`path_attributes`] names.
#[verifier::external_type_specification]
#[verifier::external_body]
pub struct ExPath(svg::node::element::Path);

/// The attributes that a `path` element holds: each name with its value.
pub uninterp spec fn path_attributes(path: Path) -> Map<Seq<char>, Seq<char>>;

/// Calls `svg::node::element::Path::new`. Trusted: the new element holds no attribute.
#[verifier::external_body]
fn new_path() -> (path: Path)
    ensures
        path_attributes(path) == (Map::<Seq<char>, Seq<char>>::empty()),
{
    Path::new()
}

/// Calls `svg::node::element::Path::set`. Trusted: the element that comes back
/// holds the attributes of `path`, but with `value` for the attribute `name`,
/// whether or not `path` had that attribute.
#[verifier::external_body]
fn set_attribute(path: Path, name: &str, value: &str) -> (r: Path)
    ensures
        path_attributes(r) == path_attributes(path).insert(name@, value@),
{
    path.set(name, value)
}

/// The attributes of a `path` element that draws the path data `d` filled with
/// the color `fill`: `d` and `fill`, and no other.
pub open spec fn filled_path(d: Seq<char>, fill: Seq<char>) -> Map<Seq<char>, Seq<char>> {
    Map::empty().insert("d"@, d).insert("fill"@, fill)
}

/// A path that draws `d` filled with `fill` holds these two attributes with these
/// values, and no other attribute.
pub proof fn lemma_filled_path_holds_two_attributes(d: Seq<char>, fill: Seq<char>)
    ensures
        filled_path(d, fill).dom() == set!["d"@, "fill"@],
        filled_path(d, fill)["d"@] == d,
        filled_path(d, fill)["fill"@] == fill,
{
    reveal_strlit("d");
    reveal_strlit("fill");
    assert("d"@.len() != "fill"@.len());
    assert(filled_path(d, fill).dom() =~= set!["d"@, "fill"@]);
}

/// A text as a drawable path, with the pixel rectangle that encloses it.
pub struct Text {
    /// The `path` element: the outlines in its attribute `d`, the color in `fill`.
    pub path: Path,
    /// The union of the glyphs' bounding boxes, or `None` where the text draws nothing.
    pub bounding_box: Option<Rect>,
}

/// A text as a value: the attributes of its path, and its bounding box.
pub struct TextView {
    pub attributes: Map<Seq<char>, Seq<char>>,
    pub bounding_box: Option<Rect>,
}

impl View for Text {
    type V = TextView;

    open spec fn view(&self) -> TextView {
        TextView { attributes: path_attributes(self.path), bounding_box: self.bounding_box }
    }
}

impl Text {
    /// A text from its parts.
    pub fn new(path: Path, bounding_box: Option<Rect>) -> (text: Self)
        ensures
            text.path == path,
            text.bounding_box == bounding_box,
    {
        Text { path, bounding_box }
    }

    /// A builder with the default settings: black fill, a size of 32 pixels, the
    /// start at the origin, a letter spacing of 1 pixel.
    pub fn builder() -> (b: Builder<'static>)
        ensures
            b == Builder::spec_default(),
    {
        Default::default()
    }
}

/// The settings for a text. Lengths count thousandths of a pixel.
#[derive(Clone, Copy, Debug)]
pub struct Builder<'a> {
    /// The fill color, as the value of the `fill` attribute.
    pub fill: &'a str,
    /// The font size: the height of a line of text.
    pub size: i32,
    /// The top-left corner of the line of text.
    pub start: Point,
    /// Reserved. The glyphs are placed by the advance widths and the kerning of
    /// the font alone; this value takes no part in it.
    pub letter_spacing: i32,
}

impl Default for Builder<'static> {
    fn default() -> (b: Self)
        ensures
            b == Builder::spec_default(),
    {
        Builder { fill: "#000", size: 32_000, start: Point { x: 0, y: 0 }, letter_spacing: 1_000 }
    }
}

impl Builder<'static> {
    /// The default settings.
    pub open spec fn spec_default() -> Builder<'static> {
        Builder { fill: "#000", size: 32_000, start: Point { x: 0, y: 0 }, letter_spacing: 1_000 }
    }
}

impl<'a> Builder<'a> {
    /// Sets the fill color.
    pub fn fill(self, fill: &'a str) -> (b: Self)
        ensures
            b == (Builder { fill, ..self }),
    {
        Builder { fill, ..self }
    }

    /// Sets the font size, in thousandths of a pixel.
    pub fn size(self, size: i32) -> (b: Self)
        ensures
            b == (Builder { size, ..self }),
    {
        Builder { size, ..self }
    }

    /// Sets the top-left corner of the line of text.
    pub fn start(self, start: Point) -> (b: Self)
        ensures
            b == (Builder { start, ..self }),
    {
        Builder { start, ..self }
    }

    /// Sets the letter spacing, in thousandths of a pixel.
    pub fn letter_spacing(self, letter_spacing: i32) -> (b: Self)
        ensures
            b == (Builder { letter_spacing, ..self }),
    {
        Builder { letter_spacing, ..self }
    }

    /// The height of the baseline: `ascent` below the start. The glyphs are laid
    /// out from the point with the start's `x` and this `y`.
    pub fn baseline(&self, ascent: i32) -> (y: i64)
        ensures
            y == self.start.y + ascent,
    {
        self.start.y as i64 + ascent as i64
    }

    /// What these settings make of a line of glyphs: a path that draws the glyphs'
    /// path data in the fill color, and the union of the glyphs' bounding boxes.
    pub open spec fn spec_build(self, glyphs: Seq<GlyphView>) -> TextView {
        TextView {
            attributes: filled_path(glyphs_text(glyphs), self.fill@),
            bounding_box: glyphs_bounds(glyphs),
        }
    }

    /// Two texts built with the same settings from the same glyphs are the same,
    /// attribute by attribute.
    pub proof fn lemma_build_is_repeatable(self, glyphs: Seq<GlyphView>, first: Text, second: Text)
        requires
            first@ == self.spec_build(glyphs),
            second@ == self.spec_build(glyphs),
        ensures
            first@ == second@,
    {
    }

    /// Of the settings, only the fill color has a part in what is built.
    pub proof fn lemma_build_reads_the_fill_only(self, other: Builder, glyphs: Seq<GlyphView>)
        requires
            self.fill@ == other.fill@,
        ensures
            self.spec_build(glyphs) == other.spec_build(glyphs),
    {
    }

    /// Draws the laid-out glyphs of a text as one path.
    ///
    /// The glyphs are drawn in their order. One without a bounding box, such as a
    /// space, adds nothing to the path and nothing to the bounding box.
    pub fn build(&self, glyphs: &[Glyph]) -> (text: Text)
        ensures
            text@ == self.spec_build(glyphs.deep_view()),
    {
        let (d, bounding_box) = trace(glyphs);
        let path = set_attribute(set_attribute(new_path(), "d", d.as_str()), "fill", self.fill);
        Text::new(path, bounding_box)
    }
}

} // verus!
