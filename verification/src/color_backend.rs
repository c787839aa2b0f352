//! How cells are written to the terminal.
//!
//! Terminals brighten bold text only where its colour was set in the basic form
//! (`34`), not in the form with 256 colours (`38;5;4`). The first sixteen indexed
//! colours come from the output of a session, and are written in the basic form;
//! the named colours are those of the application itself, and are written in the
//! form with 256 colours, so that they look the same everywhere.
use vstd::prelude::*;
use crate::text;
use crate::style::{Color, Modifier};
use crate::text::{cat3, cat5, decimal_of};

verus! {

/// The number of a named colour.
pub open spec fn color_number(c: Color) -> nat {
    match c {
        Color::Black => 0,
        Color::Red => 1,
        Color::Green => 2,
        Color::Yellow => 3,
        Color::Blue => 4,
        Color::Magenta => 5,
        Color::Cyan => 6,
        Color::Gray => 7,
        Color::DarkGray => 8,
        Color::LightRed => 9,
        Color::LightGreen => 10,
        Color::LightYellow => 11,
        Color::LightBlue => 12,
        Color::LightMagenta => 13,
        Color::LightCyan => 14,
        Color::White => 15,
        _ => 0,
    }
}

fn number_of_color(c: Color) -> (r: u64)
    ensures
        r == color_number(c),
{
    match c {
        Color::Black => 0,
        Color::Red => 1,
        Color::Green => 2,
        Color::Yellow => 3,
        Color::Blue => 4,
        Color::Magenta => 5,
        Color::Cyan => 6,
        Color::Gray => 7,
        Color::DarkGray => 8,
        Color::LightRed => 9,
        Color::LightGreen => 10,
        Color::LightYellow => 11,
        Color::LightBlue => 12,
        Color::LightMagenta => 13,
        Color::LightCyan => 14,
        Color::White => 15,
        _ => 0,
    }
}

/// The parameter that sets a colour, of the text or behind it: `base` is 30 for
/// the text and 40 for what is behind it.
pub open spec fn color_code(c: Color, base: nat) -> Seq<char> {
    match c {
        Color::Reset => text::decimal(base + 9),
        Color::Indexed(i) => if i < 8 {
            text::decimal(base + i as nat)
        } else if i < 16 {
            text::decimal((base + 52 + i) as nat)
        } else {
            text::decimal(base + 8) + ";5;"@ + text::decimal(i as nat)
        },
        Color::Rgb(r, g, b) => text::decimal(base + 8) + ";2;"@ + (text::decimal(r as nat) + ";"@ + text::decimal(
            g as nat,
        ) + ";"@ + text::decimal(b as nat)),
        _ => text::decimal(base + 8) + ";5;"@ + text::decimal(color_number(c)),
    }
}

fn code_of_color(c: Color, base: u64) -> (r: String)
    requires
        base <= 40,
    ensures
        r@ == color_code(c, base as nat),
{
    match c {
        Color::Reset => decimal_of(base + 9),
        Color::Indexed(i) => if i < 8 {
            decimal_of(base + i as u64)
        } else if i < 16 {
            decimal_of(base + 52 + i as u64)
        } else {
            cat3(decimal_of(base + 8).as_str(), ";5;", decimal_of(i as u64).as_str())
        },
        Color::Rgb(r, g, b) => {
            let parts = cat5(
                decimal_of(r as u64).as_str(),
                ";",
                decimal_of(g as u64).as_str(),
                ";",
                decimal_of(b as u64).as_str(),
            );
            cat3(decimal_of(base + 8).as_str(), ";2;", parts.as_str())
        },
        _ => cat3(
            decimal_of(base + 8).as_str(),
            ";5;",
            decimal_of(number_of_color(c)).as_str(),
        ),
    }
}

/// The sequence that sets the colour of the text and the one behind it.
pub open spec fn color_sgr(fg: Color, bg: Color) -> Seq<char> {
    "\x1b["@ + color_code(fg, 30) + ";"@ + color_code(bg, 40) + "m"@
}

/// The sequence that sets the colour of the text and the one behind it.
pub fn write_color_sgr(fg: Color, bg: Color) -> (r: String)
    ensures
        r@ == color_sgr(fg, bg),
{
    cat5(
        "\x1b[",
        code_of_color(fg, 30).as_str(),
        ";",
        code_of_color(bg, 40).as_str(),
        "m",
    )
}

/// An attribute that is set or taken back.
#[derive(Clone, Copy, Debug, PartialEq, Eq, Structural)]
pub enum Attribute {
    Reset,
    Bold,
    Dim,
    Italic,
    Underlined,
    SlowBlink,
    RapidBlink,
    Reverse,
    CrossedOut,
    NormalIntensity,
    NoItalic,
    NoUnderline,
    NoBlink,
    NoReverse,
    NotCrossedOut,
}

/// A list of one attribute, or none.
#[verifier::opaque]
pub open spec fn only_if(b: bool, a: Attribute) -> Seq<Attribute> {
    if b {
        seq![a]
    } else {
        Seq::empty()
    }
}

fn push_if(v: &mut Vec<Attribute>, b: bool, a: Attribute)
    ensures
        final(v)@ == old(v)@ + only_if(b, a),
{
    reveal(only_if);
    if b {
        v.push(a);
    }
    assert(v@ =~= old(v)@ + only_if(b, a));
}

/// Whether bold or dim is taken back. The two are taken back together; the one
/// that stays is set again.
pub open spec fn loses_intensity(from: Modifier, to: Modifier) -> bool {
    (from.bold && !to.bold) || (from.dim && !to.dim)
}

/// Whether a kind of blinking is taken back.
pub open spec fn loses_blink(from: Modifier, to: Modifier) -> bool {
    (from.slow_blink && !to.slow_blink) || (from.rapid_blink && !to.rapid_blink)
}

/// What changes one set of attributes into another: first what is taken back,
/// then what is set.
#[verifier::opaque]
pub open spec fn modifier_diff(from: Modifier, to: Modifier) -> Seq<Attribute> {
    Seq::<Attribute>::empty()
        + only_if(from.reversed && !to.reversed, Attribute::NoReverse)
        + only_if(loses_intensity(from, to), Attribute::NormalIntensity)
        + only_if(loses_intensity(from, to) && to.dim, Attribute::Dim)
        + only_if(loses_intensity(from, to) && to.bold, Attribute::Bold)
        + only_if(from.italic && !to.italic, Attribute::NoItalic)
        + only_if(from.underlined && !to.underlined, Attribute::NoUnderline)
        + only_if(from.crossed_out && !to.crossed_out, Attribute::NotCrossedOut)
        + only_if(loses_blink(from, to), Attribute::NoBlink)
        + only_if(to.reversed && !from.reversed, Attribute::Reverse)
        + only_if(to.bold && !from.bold, Attribute::Bold)
        + only_if(to.italic && !from.italic, Attribute::Italic)
        + only_if(to.underlined && !from.underlined, Attribute::Underlined)
        + only_if(to.dim && !from.dim, Attribute::Dim)
        + only_if(to.crossed_out && !from.crossed_out, Attribute::CrossedOut)
        + only_if(to.slow_blink && !from.slow_blink, Attribute::SlowBlink)
        + only_if(to.rapid_blink && !from.rapid_blink, Attribute::RapidBlink)
}

/// What changes one set of attributes into another.
pub fn write_modifier_diff(from: Modifier, to: Modifier) -> (r: Vec<Attribute>)
    ensures
        r@ == modifier_diff(from, to),
{
    reveal(modifier_diff);
    let mut v: Vec<Attribute> = Vec::new();
    let intensity = (from.bold && !to.bold) || (from.dim && !to.dim);
    let blink = (from.slow_blink && !to.slow_blink) || (from.rapid_blink && !to.rapid_blink);
    push_if(&mut v, from.reversed && !to.reversed, Attribute::NoReverse);
    push_if(&mut v, intensity, Attribute::NormalIntensity);
    push_if(&mut v, intensity && to.dim, Attribute::Dim);
    push_if(&mut v, intensity && to.bold, Attribute::Bold);
    push_if(&mut v, from.italic && !to.italic, Attribute::NoItalic);
    push_if(&mut v, from.underlined && !to.underlined, Attribute::NoUnderline);
    push_if(&mut v, from.crossed_out && !to.crossed_out, Attribute::NotCrossedOut);
    push_if(&mut v, blink, Attribute::NoBlink);
    push_if(&mut v, to.reversed && !from.reversed, Attribute::Reverse);
    push_if(&mut v, to.bold && !from.bold, Attribute::Bold);
    push_if(&mut v, to.italic && !from.italic, Attribute::Italic);
    push_if(&mut v, to.underlined && !from.underlined, Attribute::Underlined);
    push_if(&mut v, to.dim && !from.dim, Attribute::Dim);
    push_if(&mut v, to.crossed_out && !from.crossed_out, Attribute::CrossedOut);
    push_if(&mut v, to.slow_blink && !from.slow_blink, Attribute::SlowBlink);
    push_if(&mut v, to.rapid_blink && !from.rapid_blink, Attribute::RapidBlink);
    v
}

/// The attributes of a terminal after one was set or taken back.
pub open spec fn after_attribute(m: Modifier, a: Attribute) -> Modifier {
    match a {
        Attribute::Reset => Modifier::none(),
        Attribute::Bold => Modifier { bold: true, ..m },
        Attribute::Dim => Modifier { dim: true, ..m },
        Attribute::Italic => Modifier { italic: true, ..m },
        Attribute::Underlined => Modifier { underlined: true, ..m },
        Attribute::SlowBlink => Modifier { slow_blink: true, ..m },
        Attribute::RapidBlink => Modifier { rapid_blink: true, ..m },
        Attribute::Reverse => Modifier { reversed: true, ..m },
        Attribute::CrossedOut => Modifier { crossed_out: true, ..m },
        Attribute::NormalIntensity => Modifier { bold: false, dim: false, ..m },
        Attribute::NoItalic => Modifier { italic: false, ..m },
        Attribute::NoUnderline => Modifier { underlined: false, ..m },
        Attribute::NoBlink => Modifier { slow_blink: false, rapid_blink: false, ..m },
        Attribute::NoReverse => Modifier { reversed: false, ..m },
        Attribute::NotCrossedOut => Modifier { crossed_out: false, ..m },
    }
}

/// The attributes of a terminal after several were set or taken back.
#[verifier::opaque]
pub open spec fn after_attributes(m: Modifier, s: Seq<Attribute>) -> Modifier
    decreases s.len(),
{
    if s.len() == 0 {
        m
    } else {
        after_attribute(after_attributes(m, s.drop_last()), s.last())
    }
}

proof fn lemma_after_append(m: Modifier, s: Seq<Attribute>, b: bool, a: Attribute)
    ensures
        after_attributes(m, s + only_if(b, a)) == (if b {
            after_attribute(after_attributes(m, s), a)
        } else {
            after_attributes(m, s)
        }),
{
    reveal(only_if);
    reveal(after_attributes);
    if b {
        assert((s + only_if(b, a)).drop_last() =~= s);
        assert((s + only_if(b, a)).last() == a);
    } else {
        assert(s + only_if(b, a) =~= s);
    }
}

/// What is written to change the attributes leads a terminal from the old
/// attributes to the new ones. The one change that it does not make is between
/// the two kinds of blinking: taking one back takes back both.
#[verifier::spinoff_prover]
#[verifier::rlimit(80)]
pub proof fn law_modifier_diff_leads_there(from: Modifier, to: Modifier)
    requires
        !(from.slow_blink && to.slow_blink && from.rapid_blink && !to.rapid_blink),
        !(from.rapid_blink && to.rapid_blink && from.slow_blink && !to.slow_blink),
    ensures
        after_attributes(from, modifier_diff(from, to)) == to,
{
    let i = loses_intensity(from, to);
    let b = loses_blink(from, to);
    let s0: Seq<Attribute> = Seq::empty();
    let m0 = from;
    assert(after_attributes(from, s0) == m0) by {
        reveal(after_attributes);
    }
    let s1 = s0 + only_if(from.reversed && !to.reversed, Attribute::NoReverse);
    let m1 = Modifier { reversed: from.reversed && to.reversed, ..m0 };
    assert(after_attributes(from, s1) == m1) by {
        lemma_after_append(from, s0, from.reversed && !to.reversed, Attribute::NoReverse);
    }
    let s2 = s1 + only_if(loses_intensity(from, to), Attribute::NormalIntensity);
    let m2 = Modifier { bold: from.bold && !i, dim: from.dim && !i, ..m1 };
    assert(after_attributes(from, s2) == m2) by {
        lemma_after_append(from, s1, loses_intensity(from, to), Attribute::NormalIntensity);
    }
    let s3 = s2 + only_if(loses_intensity(from, to) && to.dim, Attribute::Dim);
    let m3 = Modifier { dim: if i { to.dim } else { from.dim }, ..m2 };
    assert(after_attributes(from, s3) == m3) by {
        lemma_after_append(from, s2, loses_intensity(from, to) && to.dim, Attribute::Dim);
    }
    let s4 = s3 + only_if(loses_intensity(from, to) && to.bold, Attribute::Bold);
    let m4 = Modifier { bold: if i { to.bold } else { from.bold }, ..m3 };
    assert(after_attributes(from, s4) == m4) by {
        lemma_after_append(from, s3, loses_intensity(from, to) && to.bold, Attribute::Bold);
    }
    let s5 = s4 + only_if(from.italic && !to.italic, Attribute::NoItalic);
    let m5 = Modifier { italic: from.italic && to.italic, ..m4 };
    assert(after_attributes(from, s5) == m5) by {
        lemma_after_append(from, s4, from.italic && !to.italic, Attribute::NoItalic);
    }
    let s6 = s5 + only_if(from.underlined && !to.underlined, Attribute::NoUnderline);
    let m6 = Modifier { underlined: from.underlined && to.underlined, ..m5 };
    assert(after_attributes(from, s6) == m6) by {
        lemma_after_append(from, s5, from.underlined && !to.underlined, Attribute::NoUnderline);
    }
    let s7 = s6 + only_if(from.crossed_out && !to.crossed_out, Attribute::NotCrossedOut);
    let m7 = Modifier { crossed_out: from.crossed_out && to.crossed_out, ..m6 };
    assert(after_attributes(from, s7) == m7) by {
        lemma_after_append(from, s6, from.crossed_out && !to.crossed_out, Attribute::NotCrossedOut);
    }
    let s8 = s7 + only_if(loses_blink(from, to), Attribute::NoBlink);
    let m8 = Modifier { slow_blink: from.slow_blink && !b, rapid_blink: from.rapid_blink && !b, ..m7 };
    assert(after_attributes(from, s8) == m8) by {
        lemma_after_append(from, s7, loses_blink(from, to), Attribute::NoBlink);
    }
    let s9 = s8 + only_if(to.reversed && !from.reversed, Attribute::Reverse);
    let m9 = Modifier { reversed: to.reversed, ..m8 };
    assert(after_attributes(from, s9) == m9) by {
        lemma_after_append(from, s8, to.reversed && !from.reversed, Attribute::Reverse);
    }
    let s10 = s9 + only_if(to.bold && !from.bold, Attribute::Bold);
    let m10 = Modifier { bold: to.bold, ..m9 };
    assert(after_attributes(from, s10) == m10) by {
        lemma_after_append(from, s9, to.bold && !from.bold, Attribute::Bold);
    }
    let s11 = s10 + only_if(to.italic && !from.italic, Attribute::Italic);
    let m11 = Modifier { italic: to.italic, ..m10 };
    assert(after_attributes(from, s11) == m11) by {
        lemma_after_append(from, s10, to.italic && !from.italic, Attribute::Italic);
    }
    let s12 = s11 + only_if(to.underlined && !from.underlined, Attribute::Underlined);
    let m12 = Modifier { underlined: to.underlined, ..m11 };
    assert(after_attributes(from, s12) == m12) by {
        lemma_after_append(from, s11, to.underlined && !from.underlined, Attribute::Underlined);
    }
    let s13 = s12 + only_if(to.dim && !from.dim, Attribute::Dim);
    let m13 = Modifier { dim: to.dim, ..m12 };
    assert(after_attributes(from, s13) == m13) by {
        lemma_after_append(from, s12, to.dim && !from.dim, Attribute::Dim);
    }
    let s14 = s13 + only_if(to.crossed_out && !from.crossed_out, Attribute::CrossedOut);
    let m14 = Modifier { crossed_out: to.crossed_out, ..m13 };
    assert(after_attributes(from, s14) == m14) by {
        lemma_after_append(from, s13, to.crossed_out && !from.crossed_out, Attribute::CrossedOut);
    }
    let s15 = s14 + only_if(to.slow_blink && !from.slow_blink, Attribute::SlowBlink);
    let m15 = Modifier { slow_blink: to.slow_blink, ..m14 };
    assert(after_attributes(from, s15) == m15) by {
        lemma_after_append(from, s14, to.slow_blink && !from.slow_blink, Attribute::SlowBlink);
    }
    let s16 = s15 + only_if(to.rapid_blink && !from.rapid_blink, Attribute::RapidBlink);
    let m16 = Modifier { rapid_blink: to.rapid_blink, ..m15 };
    assert(after_attributes(from, s16) == m16) by {
        lemma_after_append(from, s15, to.rapid_blink && !from.rapid_blink, Attribute::RapidBlink);
    }
    assert(s16 == modifier_diff(from, to)) by {
        reveal(modifier_diff);
    }
}

/// A cell that is to be written.
#[derive(Debug)]
pub struct Cell {
    pub x: u16,
    pub y: u16,
    pub symbol: String,
    pub fg: Color,
    pub bg: Color,
    pub modifier: Modifier,
}

/// A cell that is to be written.
#[verifier::ext_equal]
pub struct CellView {
    pub x: u16,
    pub y: u16,
    pub symbol: Seq<char>,
    pub fg: Color,
    pub bg: Color,
    pub modifier: Modifier,
}

impl View for Cell {
    type V = CellView;

    open spec fn view(&self) -> CellView {
        CellView {
            x: self.x,
            y: self.y,
            symbol: self.symbol@,
            fg: self.fg,
            bg: self.bg,
            modifier: self.modifier,
        }
    }
}

/// A step of writing cells to the terminal.
#[derive(Debug)]
pub enum DrawStep {
    MoveTo(u16, u16),
    SetAttribute(Attribute),
    /// A sequence that sets the colours.
    Colors(String),
    Print(String),
}

/// A step of writing cells to the terminal.
#[verifier::ext_equal]
pub enum StepView {
    MoveTo(u16, u16),
    SetAttribute(Attribute),
    Colors(Seq<char>),
    Print(Seq<char>),
}

impl View for DrawStep {
    type V = StepView;

    open spec fn view(&self) -> StepView {
        match *self {
            DrawStep::MoveTo(x, y) => StepView::MoveTo(x, y),
            DrawStep::SetAttribute(a) => StepView::SetAttribute(a),
            DrawStep::Colors(s) => StepView::Colors(s@),
            DrawStep::Print(s) => StepView::Print(s@),
        }
    }
}

/// The steps of a list.
pub open spec fn steps_view(v: Seq<DrawStep>) -> Seq<StepView> {
    v.map_values(|s: DrawStep| s@)
}

/// What the terminal looks like while cells are written.
#[derive(Clone, Copy, Debug)]
pub struct Pen {
    pub fg: Color,
    pub bg: Color,
    pub modifier: Modifier,
    /// Where the last cell was written.
    pub last: Option<(u16, u16)>,
}

impl Pen {
    /// The pen before the first cell.
    pub open spec fn fresh() -> Pen {
        Pen { fg: Color::Reset, bg: Color::Reset, modifier: Modifier::none(), last: None }
    }

    /// Whether the cursor is already at a cell: the cell follows the one that was
    /// written last.
    pub open spec fn stands_at(self, x: u16, y: u16) -> bool {
        match self.last {
            Some((a, b)) => x == a + 1 && y == b,
            None => false,
        }
    }

    /// The pen after a cell was written.
    pub open spec fn after(self, c: CellView) -> Pen {
        Pen { fg: c.fg, bg: c.bg, modifier: c.modifier, last: Some((c.x, c.y)) }
    }

    /// The steps that write a cell.
    pub open spec fn steps(self, c: CellView) -> Seq<StepView> {
        let m = if self.stands_at(c.x, c.y) {
            Seq::empty()
        } else {
            seq![StepView::MoveTo(c.x, c.y)]
        };
        let diff = modifier_diff(self.modifier, c.modifier).map_values(
            |a: Attribute| StepView::SetAttribute(a),
        );
        let attributes = if c.modifier != self.modifier {
            diff
        } else {
            Seq::empty()
        };
        let colors = if c.fg != self.fg || c.bg != self.bg {
            seq![StepView::Colors(color_sgr(c.fg, c.bg))]
        } else {
            Seq::empty()
        };
        m + attributes + colors + seq![StepView::Print(c.symbol)]
    }
}

/// The pen after the first `n` cells of a list.
pub open spec fn pen_after(cells: Seq<Cell>, n: int) -> Pen
    decreases n,
{
    if n <= 0 {
        Pen::fresh()
    } else {
        pen_after(cells, n - 1).after(cells[n - 1]@)
    }
}

/// The steps that write the first `n` cells of a list.
pub open spec fn steps_for(cells: Seq<Cell>, n: int) -> Seq<StepView>
    decreases n,
{
    if n <= 0 {
        Seq::empty()
    } else {
        steps_for(cells, n - 1) + pen_after(cells, n - 1).steps(cells[n - 1]@)
    }
}

/// The steps at the end of a frame: everything is taken back.
pub open spec fn closing_steps() -> Seq<StepView> {
    seq![
        StepView::Colors(color_sgr(Color::Reset, Color::Reset)),
        StepView::SetAttribute(Attribute::Reset),
    ]
}

/// Lists the steps that write cells to the terminal.
pub fn draw(cells: &Vec<Cell>) -> (r: Vec<DrawStep>)
    ensures
        steps_view(r@) == steps_for(cells@, cells@.len() as int) + closing_steps(),
{
    let mut r: Vec<DrawStep> = Vec::new();
    let mut pen = Pen {
        fg: Color::Reset,
        bg: Color::Reset,
        modifier: Modifier::empty(),
        last: None,
    };
    let mut i: usize = 0;
    assert(steps_view(r@) =~= Seq::empty());
    while i < cells.len()
        invariant
            i <= cells@.len(),
            pen == pen_after(cells@, i as int),
            steps_view(r@) == steps_for(cells@, i as int),
        decreases cells@.len() - i,
    {
        let cell = &cells[i];
        draw_cell(&mut r, pen, cell);
        pen = Pen {
            fg: cell.fg,
            bg: cell.bg,
            modifier: cell.modifier,
            last: Some((cell.x, cell.y)),
        };
        i += 1;
    }
    let ghost before = steps_view(r@);
    r.push(DrawStep::Colors(write_color_sgr(Color::Reset, Color::Reset)));
    r.push(DrawStep::SetAttribute(Attribute::Reset));
    assert(steps_view(r@) =~= before + closing_steps());
    r
}

fn draw_cell(r: &mut Vec<DrawStep>, pen: Pen, cell: &Cell)
    ensures
        steps_view(final(r)@) == steps_view(old(r)@) + pen.steps(cell@),
{
    let ghost s0 = steps_view(r@);
    let there = match pen.last {
        Some((a, b)) => a < u16::MAX && cell.x == a + 1 && cell.y == b,
        None => false,
    };
    if !there {
        r.push(DrawStep::MoveTo(cell.x, cell.y));
    }
    let ghost m = if pen.stands_at(cell.x, cell.y) {
        Seq::empty()
    } else {
        seq![StepView::MoveTo(cell.x, cell.y)]
    };
    assert(steps_view(r@) =~= s0 + m);
    let ghost s1 = steps_view(r@);
    let ghost diff = modifier_diff(pen.modifier, cell.modifier).map_values(
        |a: Attribute| StepView::SetAttribute(a),
    );
    if cell.modifier != pen.modifier {
        let attributes = write_modifier_diff(pen.modifier, cell.modifier);
        let mut k: usize = 0;
        while k < attributes.len()
            invariant
                k <= attributes@.len(),
                attributes@ == modifier_diff(pen.modifier, cell.modifier),
                diff == attributes@.map_values(|a: Attribute| StepView::SetAttribute(a)),
                steps_view(r@) == s1 + diff.take(k as int),
            decreases attributes@.len() - k,
        {
            let ghost before = steps_view(r@);
            r.push(DrawStep::SetAttribute(attributes[k]));
            proof {
                let step = StepView::SetAttribute(attributes@[k as int]);
                assert(steps_view(r@) =~= before.push(step));
                assert(diff[k as int] == step);
                assert(diff.take(k + 1) =~= diff.take(k as int).push(step));
                assert(before.push(step) =~= s1 + diff.take(k + 1));
            }
            k += 1;
        }
        assert(diff.take(k as int) =~= diff);
    }
    let ghost changes = if cell.modifier != pen.modifier {
        diff
    } else {
        Seq::empty()
    };
    assert(steps_view(r@) =~= s1 + changes);
    let ghost s2 = steps_view(r@);
    if cell.fg != pen.fg || cell.bg != pen.bg {
        r.push(DrawStep::Colors(write_color_sgr(cell.fg, cell.bg)));
    }
    let ghost colors = if cell.fg != pen.fg || cell.bg != pen.bg {
        seq![StepView::Colors(color_sgr(cell.fg, cell.bg))]
    } else {
        Seq::empty()
    };
    assert(steps_view(r@) =~= s2 + colors);
    let ghost s3 = steps_view(r@);
    r.push(DrawStep::Print(cell.symbol.clone()));
    assert(steps_view(r@) =~= s3 + seq![StepView::Print(cell.symbol@)]);
    assert(steps_view(r@) =~= s0 + pen.steps(cell@));
}

} // verus!
