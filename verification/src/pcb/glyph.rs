//! The shapes that draw a part's symbol.

use vstd::prelude::*;
use vstd::string::*;

verus! {

/// Where a text is anchored.
#[derive(Clone, Copy, Debug, PartialEq, Eq, Structural)]
pub enum TextJustification {
    BottomLeft,
    BottomRight,
    TopLeft,
    TopRight,
    MiddleLeft,
    MiddleRight,
}

/// A point of the drawing grid.
#[derive(Clone, Copy, Debug, PartialEq, Eq, Structural)]
pub struct Point {
    pub x: i32,
    pub y: i32,
}

/// A rectangle, by two opposite corners.
#[derive(Clone, Copy, Debug, PartialEq, Eq, Structural)]
pub struct Rect {
    pub start: Point,
    pub end: Point,
}

/// A straight line, by its ends.
#[derive(Clone, Copy, Debug, PartialEq, Eq, Structural)]
pub struct Line {
    pub start: Point,
    pub end: Point,
}

/// A text at a point.
#[derive(Debug)]
pub struct Text {
    pub anchor: Point,
    pub text: String,
    pub justify: TextJustification,
}

/// One shape of a symbol.
#[derive(Debug)]
pub enum Glyph {
    OutlineRect(Rect),
    Line(Line),
    Text(Text),
}

/// What a shape stands for.
pub enum GlyphModel {
    OutlineRect(Rect),
    Line(Line),
    Text(Point, Seq<char>, TextJustification),
}

impl View for Glyph {
    type V = GlyphModel;

    open spec fn view(&self) -> GlyphModel {
        match self {
            Glyph::OutlineRect(r) => GlyphModel::OutlineRect(*r),
            Glyph::Line(l) => GlyphModel::Line(*l),
            Glyph::Text(t) => GlyphModel::Text(t.anchor, t.text@, t.justify),
        }
    }
}

/// The shapes as values.
pub open spec fn glyphs_view(glyphs: Seq<Glyph>) -> Seq<GlyphModel> {
    Seq::new(glyphs.len(), |i: int| glyphs[i]@)
}

/// The point `(x, y)`.
pub open spec fn point(x: int, y: int) -> Point {
    Point { x: x as i32, y: y as i32 }
}

/// The outline of a part's body, from corner `(x0, y0)` to corner `(x1, y1)`.
pub open spec fn ic_body(x0: int, y0: int, x1: int, y1: int) -> GlyphModel {
    GlyphModel::OutlineRect(Rect { start: point(x0, y0), end: point(x1, y1) })
}

/// The line from `(x0, y0)` to `(x1, y1)`.
pub open spec fn line(x0: int, y0: int, x1: int, y1: int) -> GlyphModel {
    GlyphModel::Line(Line { start: point(x0, y0), end: point(x1, y1) })
}

/// The text `msg` anchored at `(x0, y0)`.
pub open spec fn label(x0: int, y0: int, msg: Seq<char>, justify: TextJustification) -> GlyphModel {
    GlyphModel::Text(point(x0, y0), msg, justify)
}

/// The outline of a part's body, from corner `(x0, y0)` to corner `(x1, y1)`.
pub fn make_ic_body(x0: i32, y0: i32, x1: i32, y1: i32) -> (g: Glyph)
    ensures
        g@ == ic_body(x0 as int, y0 as int, x1 as int, y1 as int),
{
    Glyph::OutlineRect(Rect { start: Point { x: x0, y: y0 }, end: Point { x: x1, y: y1 } })
}

/// The line from `(x0, y0)` to `(x1, y1)`.
pub fn make_line(x0: i32, y0: i32, x1: i32, y1: i32) -> (g: Glyph)
    ensures
        g@ == line(x0 as int, y0 as int, x1 as int, y1 as int),
{
    Glyph::Line(Line { start: Point { x: x0, y: y0 }, end: Point { x: x1, y: y1 } })
}

/// The text `msg` anchored at `(x0, y0)`.
pub fn make_label(x0: i32, y0: i32, msg: &str, justify: TextJustification) -> (g: Glyph)
    ensures
        g@ == label(x0 as int, y0 as int, msg@, justify),
{
    Glyph::Text(Text { anchor: Point { x: x0, y: y0 }, text: String::from_str(msg), justify })
}

} // verus!
