//! What is shown, as plain data: where things lie, and text with its style.
use vstd::prelude::*;
use crate::geometry;
use crate::geometry::Rect;
use crate::style::Style;
use crate::text::{chars_of, string_of};

pub mod connect;
pub mod drawing_laws;
pub mod frame_laws;
pub mod leaf;
pub mod page;
pub mod panel;
pub mod picture_laws;
pub mod screen;
pub mod status;
pub mod tabs;
pub mod tree;

verus! {

/// Text with a style.
#[derive(Debug)]
pub struct Piece {
    pub text: String,
    pub style: Style,
}

/// Text with a style.
#[verifier::ext_equal]
pub struct PieceView {
    pub text: Seq<char>,
    pub style: Style,
}

impl View for Piece {
    type V = PieceView;

    open spec fn view(&self) -> PieceView {
        PieceView { text: self.text@, style: self.style }
    }
}

/// A line of text.
pub open spec fn line_view(v: Seq<Piece>) -> Seq<PieceView> {
    v.map_values(|p: Piece| p@)
}

/// Several lines of text.
pub open spec fn lines_view(v: Seq<Vec<Piece>>) -> Seq<Seq<PieceView>> {
    v.map_values(|l: Vec<Piece>| line_view(l@))
}

/// A piece of text.
pub open spec fn piece(text: Seq<char>, style: Style) -> PieceView {
    PieceView { text, style }
}

/// A line of one piece.
pub fn line_of(text: String, style: Style) -> (r: Vec<Piece>)
    ensures
        line_view(r@) == seq![piece(text@, style)],
{
    let r = vec![Piece { text, style }];
    assert(line_view(r@) =~= seq![piece(text@, style)]);
    r
}

/// A line of two pieces.
pub fn line_of2(a: String, a_style: Style, b: String, b_style: Style) -> (r: Vec<Piece>)
    ensures
        line_view(r@) == seq![piece(a@, a_style), piece(b@, b_style)],
{
    let r = vec![Piece { text: a, style: a_style }, Piece { text: b, style: b_style }];
    assert(line_view(r@) =~= seq![piece(a@, a_style), piece(b@, b_style)]);
    r
}

/// A number of blanks.
pub open spec fn blanks(n: int) -> Seq<char> {
    Seq::new(geometry::monus(n, 0) as nat, |i: int| ' ')
}

/// The text with blanks behind it, at least `n` characters in all.
pub open spec fn padded_right(s: Seq<char>, n: int) -> Seq<char> {
    s + blanks(n - s.len())
}

/// The text with blanks in front of it, at least `n` characters in all.
pub open spec fn padded_left(s: Seq<char>, n: int) -> Seq<char> {
    blanks(n - s.len()) + s
}

/// Appends blanks.
pub fn push_blanks(v: &mut Vec<char>, n: usize)
    ensures
        final(v)@ == old(v)@ + blanks(n as int),
{
    let mut i: usize = 0;
    assert(v@ =~= old(v)@ + blanks(0));
    while i < n
        invariant
            i <= n,
            v@ == old(v)@ + blanks(i as int),
        decreases n - i,
    {
        v.push(' ');
        i += 1;
        assert(v@ =~= old(v)@ + blanks(i as int));
    }
}

/// Puts blanks behind a text, so that it has at least `n` characters.
pub fn pad_right(s: &str, n: usize) -> (r: String)
    ensures
        r@ == padded_right(s@, n as int),
{
    let mut v = chars_of(s);
    let len: usize = v.len();
    push_blanks(&mut v, n.saturating_sub(len));
    assert(v@ =~= padded_right(s@, n as int));
    string_of(v.as_slice())
}

/// Puts blanks in front of a text, so that it has at least `n` characters.
pub fn pad_left(s: &str, n: usize) -> (r: String)
    ensures
        r@ == padded_left(s@, n as int),
{
    let mut t = chars_of(s);
    let len: usize = t.len();
    let mut v: Vec<char> = Vec::new();
    push_blanks(&mut v, n.saturating_sub(len));
    v.append(&mut t);
    assert(v@ =~= padded_left(s@, n as int));
    string_of(v.as_slice())
}

/// A box of the given size in the middle of an area.
pub open spec fn in_the_middle(inner: Rect, width: u16, height: u16) -> Rect {
    Rect {
        x: geometry::at_most(inner.x + geometry::monus(inner.width as int, width as int) / 2, u16::MAX as int) as u16,
        y: geometry::at_most(inner.y + geometry::monus(inner.height as int, height as int) / 2, u16::MAX as int) as u16,
        width,
        height,
    }
}

/// A box of the given size in the middle of an area.
pub fn centered(inner: Rect, width: u16, height: u16) -> (r: Rect)
    ensures
        r == in_the_middle(inner, width, height),
{
    Rect {
        x: inner.x.saturating_add(inner.width.saturating_sub(width) / 2),
        y: inner.y.saturating_add(inner.height.saturating_sub(height) / 2),
        width,
        height,
    }
}

/// A box in the middle of an area that is at least as large lies inside it.
pub proof fn law_centered_box_is_inside(inner: Rect, width: u16, height: u16)
    requires
        inner.on_screen(),
        width <= inner.width,
        height <= inner.height,
    ensures
        inner.x <= in_the_middle(inner, width, height).x,
        in_the_middle(inner, width, height).end_x() <= inner.end_x(),
        inner.y <= in_the_middle(inner, width, height).y,
        in_the_middle(inner, width, height).end_y() <= inner.end_y(),
{
}

/// The smaller of two numbers.
pub fn smaller(a: u16, b: u16) -> (r: u16)
    ensures
        r == geometry::at_most(a as int, b as int),
{
    if a <= b {
        a
    } else {
        b
    }
}

} // verus!
