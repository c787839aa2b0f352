//! What a terminal shows after it was drawn on.
use vstd::prelude::*;
use crate::color_backend;
use crate::color_backend::{Cell, CellView, Pen, StepView};
use crate::geometry::Rect;
use crate::style::{Color, Modifier};
use crate::tab::TabView;
use crate::text;
use crate::view;
use crate::view::screen;
use crate::view::screen::{Screen, ScreenCell, ScreenColor};
use crate::view::tabs;

verus! {

// ---------------------------------------------------------------------------
// Colours
// ---------------------------------------------------------------------------

/// The numbers with semicolons between them.
pub open spec fn in_sequence(numbers: Seq<nat>) -> Seq<char>
    decreases numbers.len(),
{
    if numbers.len() == 0 {
        Seq::empty()
    } else if numbers.len() == 1 {
        text::decimal(numbers[0])
    } else {
        in_sequence(numbers.drop_last()) + seq![';'] + text::decimal(numbers.last())
    }
}

/// The colours are numbered by their parts: red is 1, green is 2 and blue is 4. The
/// bright ones come 8 behind.
pub proof fn law_colors_are_numbered_by_their_parts()
    ensures
        ({
            let red = 1nat;
            let green = 2nat;
            let blue = 4nat;
            &&& color_backend::color_number(Color::Black) == 0
            &&& color_backend::color_number(Color::Red) == red
            &&& color_backend::color_number(Color::Green) == green
            &&& color_backend::color_number(Color::Yellow) == red + green
            &&& color_backend::color_number(Color::Blue) == blue
            &&& color_backend::color_number(Color::Magenta) == red + blue
            &&& color_backend::color_number(Color::Cyan) == green + blue
            &&& color_backend::color_number(Color::Gray) == red + green + blue
            &&& color_backend::color_number(Color::DarkGray) == 8
            &&& color_backend::color_number(Color::LightRed) == 8 + red
            &&& color_backend::color_number(Color::LightGreen) == 8 + green
            &&& color_backend::color_number(Color::LightYellow) == 8 + red + green
            &&& color_backend::color_number(Color::LightBlue) == 8 + blue
            &&& color_backend::color_number(Color::LightMagenta) == 8 + red + blue
            &&& color_backend::color_number(Color::LightCyan) == 8 + green + blue
            &&& color_backend::color_number(Color::White) == 8 + red + green + blue
        }),
{
}

/// Whether a colour has a name.
pub open spec fn is_named(c: Color) -> bool {
    !(c is Reset || c is Rgb || c is Indexed)
}

/// A colour is written as the numbers by which terminals know it, from 30 on for the
/// text and from 40 on for what is behind it: 9 more for the default; the number of
/// the first eight of the palette, and 60 more for the bright ones; and for others 8
/// more, with a 5 and the number in the palette or with a 2 and the parts.
pub proof fn law_colors_are_written_in_numbers(c: Color, base: nat)
    ensures
        c is Reset ==> color_backend::color_code(c, base) == in_sequence(seq![base + 9]),
        c is Indexed && c->Indexed_0 < 8 ==> color_backend::color_code(c, base) == in_sequence(
            seq![base + c->Indexed_0 as nat],
        ),
        c is Indexed && 8 <= c->Indexed_0 < 16 ==> color_backend::color_code(c, base)
            == in_sequence(seq![(base + 60 + (c->Indexed_0 - 8)) as nat]),
        c is Indexed && 16 <= c->Indexed_0 ==> color_backend::color_code(c, base) == in_sequence(
            seq![base + 8, 5, c->Indexed_0 as nat],
        ),
        c is Rgb ==> color_backend::color_code(c, base) == in_sequence(
            seq![base + 8, 2, c->Rgb_0 as nat, c->Rgb_1 as nat, c->Rgb_2 as nat],
        ),
        is_named(c) ==> color_backend::color_code(c, base) == in_sequence(
            seq![base + 8, 5, color_backend::color_number(c)],
        ),
{
    reveal_strlit(";5;");
    reveal_strlit(";2;");
    reveal_strlit(";");
    assert(text::decimal(5) =~= seq!['5']);
    assert(text::decimal(2) =~= seq!['2']);
    let code = color_backend::color_code(c, base);
    match c {
        Color::Reset => {},
        Color::Indexed(i) => {
            if i >= 16 {
                lemma_three(base + 8, 5, i as nat);
                assert(code =~= in_sequence(seq![base + 8, 5, i as nat]));
            }
        },
        Color::Rgb(r, g, b) => {
            lemma_three(base + 8, 2, r as nat);
            let s3 = seq![base + 8, 2, r as nat];
            let s4 = seq![base + 8, 2, r as nat, g as nat];
            let s5 = seq![base + 8, 2, r as nat, g as nat, b as nat];
            assert(s4.drop_last() =~= s3);
            assert(s5.drop_last() =~= s4);
            let d = in_sequence(s3);
            assert(in_sequence(s4) == d + seq![';'] + text::decimal(g as nat));
            assert(in_sequence(s5) == in_sequence(s4) + seq![';'] + text::decimal(b as nat));
            assert(";"@ =~= seq![';']);
            assert(text::decimal(base + 8) + ";2;"@ + text::decimal(r as nat) =~= d);
            assert(code =~= in_sequence(s5));
        },
        _ => {
            let n = color_backend::color_number(c);
            lemma_three(base + 8, 5, n);
            assert(code =~= in_sequence(seq![base + 8, 5, n]));
        },
    }
}

proof fn lemma_three(a: nat, b: nat, c: nat)
    ensures
        in_sequence(seq![a, b, c]) == text::decimal(a) + seq![';'] + text::decimal(b) + seq![';']
            + text::decimal(c),
{
    let s1 = seq![a];
    let s2 = seq![a, b];
    let s3 = seq![a, b, c];
    assert(s2.drop_last() =~= s1);
    assert(s3.drop_last() =~= s2);
    assert(in_sequence(s2) == in_sequence(s1) + seq![';'] + text::decimal(b));
}

/// The colours are set in one sequence: that of the text comes first, from 30 on, and
/// then that of what is behind it, from 40 on.
pub proof fn law_text_color_comes_first(fg: Color, bg: Color)
    ensures
        color_backend::color_sgr(fg, bg) == seq!['\x1b', '['] + color_backend::color_code(fg, 30)
            + seq![';'] + color_backend::color_code(bg, 40) + seq!['m'],
{
    reveal_strlit("\x1b[");
    reveal_strlit(";");
    reveal_strlit("m");
    assert("\x1b["@ =~= seq!['\x1b', '[']);
    assert(";"@ =~= seq![';']);
    assert("m"@ =~= seq!['m']);
}

// ---------------------------------------------------------------------------
// A terminal
// ---------------------------------------------------------------------------

/// A character as a terminal shows it.
#[verifier::ext_equal]
pub struct Printed {
    pub x: int,
    pub y: int,
    pub symbol: Seq<char>,
    pub colors: Seq<char>,
    pub modifier: Modifier,
}

/// A terminal that is drawn on: where it writes next, how, and what it has written.
#[verifier::ext_equal]
pub struct Paper {
    pub at: Option<(int, int)>,
    /// The sequence that set the colours.
    pub colors: Seq<char>,
    pub modifier: Modifier,
    pub printed: Seq<Printed>,
}

/// A terminal before anything is drawn.
pub open spec fn blank_paper() -> Paper {
    Paper {
        at: None,
        colors: color_backend::color_sgr(Color::Reset, Color::Reset),
        modifier: Modifier::none(),
        printed: Seq::empty(),
    }
}

/// What a terminal does with one step.
pub open spec fn stepped(p: Paper, s: StepView) -> Paper {
    match s {
        StepView::MoveTo(x, y) => Paper { at: Some((x as int, y as int)), ..p },
        StepView::SetAttribute(a) => Paper {
            modifier: color_backend::after_attribute(p.modifier, a),
            ..p
        },
        StepView::Colors(s) => Paper { colors: s, ..p },
        StepView::Print(symbol) => match p.at {
            Some((x, y)) => Paper {
                at: Some((x + 1, y)),
                printed: p.printed.push(
                    Printed { x, y, symbol, colors: p.colors, modifier: p.modifier },
                ),
                ..p
            },
            None => p,
        },
    }
}

/// What a terminal does with some steps.
pub open spec fn stepped_all(p: Paper, s: Seq<StepView>) -> Paper
    decreases s.len(),
{
    if s.len() == 0 {
        p
    } else {
        stepped(stepped_all(p, s.drop_last()), s.last())
    }
}

proof fn lemma_stepped_on(p: Paper, a: Seq<StepView>, b: Seq<StepView>)
    ensures
        stepped_all(p, a + b) == stepped_all(stepped_all(p, a), b),
    decreases b.len(),
{
    if b.len() == 0 {
        assert(a + b =~= a);
    } else {
        lemma_stepped_on(p, a, b.drop_last());
        assert((a + b).drop_last() =~= a + b.drop_last());
    }
}

proof fn lemma_one_step(p: Paper, s: StepView)
    ensures
        stepped_all(p, seq![s]) == stepped(p, s),
{
    assert(seq![s].drop_last() =~= Seq::empty());
    assert(stepped_all(p, Seq::empty()) == p);
}

proof fn lemma_attributes(p: Paper, s: Seq<color_backend::Attribute>)
    ensures
        stepped_all(p, s.map_values(|a: color_backend::Attribute| StepView::SetAttribute(a))) == (
        Paper { modifier: color_backend::after_attributes(p.modifier, s), ..p }),
    decreases s.len(),
{
    reveal(color_backend::after_attributes);
    let f = |a: color_backend::Attribute| StepView::SetAttribute(a);
    let m = s.map_values(f);
    if s.len() > 0 {
        lemma_attributes(p, s.drop_last());
        assert(m.drop_last() =~= s.drop_last().map_values(f));
        assert(m.last() == StepView::SetAttribute(s.last()));
    }
}

/// Whether a terminal can be led from one kind of text to another: no terminal ends
/// one kind of blinking alone.
pub open spec fn can_follow(from: Modifier, to: Modifier) -> bool {
    &&& !(from.slow_blink && to.slow_blink && from.rapid_blink && !to.rapid_blink)
    &&& !(from.rapid_blink && to.rapid_blink && from.slow_blink && !to.slow_blink)
}

/// Whether the pen is where a terminal is, and as the terminal is set.
pub open spec fn agrees(pen: Pen, p: Paper) -> bool {
    &&& p.colors == color_backend::color_sgr(pen.fg, pen.bg)
    &&& p.modifier == pen.modifier
    &&& match pen.last {
        Some((x, y)) => p.at == Some((x + 1, y as int)),
        None => true,
    }
}

proof fn lemma_cell(pen: Pen, p: Paper, c: CellView)
    requires
        agrees(pen, p),
        can_follow(pen.modifier, c.modifier),
    ensures
        ({
            let q = stepped_all(p, pen.steps(c));
            &&& agrees(pen.after(c), q)
            &&& q.printed == p.printed.push(
                Printed {
                    x: c.x as int,
                    y: c.y as int,
                    symbol: c.symbol,
                    colors: color_backend::color_sgr(c.fg, c.bg),
                    modifier: c.modifier,
                },
            )
        }),
{
    let m = if pen.stands_at(c.x, c.y) {
        Seq::empty()
    } else {
        seq![StepView::MoveTo(c.x, c.y)]
    };
    let diff = color_backend::modifier_diff(pen.modifier, c.modifier);
    let set = diff.map_values(|a: color_backend::Attribute| StepView::SetAttribute(a));
    let attributes = if c.modifier != pen.modifier {
        set
    } else {
        Seq::empty()
    };
    let colors = if c.fg != pen.fg || c.bg != pen.bg {
        seq![StepView::Colors(color_backend::color_sgr(c.fg, c.bg))]
    } else {
        Seq::empty()
    };
    let print = seq![StepView::Print(c.symbol)];
    assert(pen.steps(c) == m + attributes + colors + print);
    lemma_stepped_on(p, m + attributes + colors, print);
    lemma_stepped_on(p, m + attributes, colors);
    lemma_stepped_on(p, m, attributes);
    let p1 = stepped_all(p, m);
    lemma_one_step(p, StepView::MoveTo(c.x, c.y));
    assert(p1 == (Paper { at: Some((c.x as int, c.y as int)), ..p }));
    let p2 = stepped_all(p1, attributes);
    lemma_attributes(p1, diff);
    color_backend::law_modifier_diff_leads_there(pen.modifier, c.modifier);
    assert(p2 == (Paper { modifier: c.modifier, ..p1 }));
    let p3 = stepped_all(p2, colors);
    lemma_one_step(p2, StepView::Colors(color_backend::color_sgr(c.fg, c.bg)));
    assert(p3.colors == color_backend::color_sgr(c.fg, c.bg));
    lemma_one_step(p3, StepView::Print(c.symbol));
}

/// Every cell is drawn in its place, with its character, in its colours and with its
/// attributes, in the order of the cells, and nothing else is drawn.
pub proof fn law_cells_are_drawn_in_their_places(cells: Seq<Cell>, n: int)
    requires
        0 <= n <= cells.len(),
        forall|i: int|
            0 <= i < n ==> can_follow(
                color_backend::pen_after(cells, i).modifier,
                (#[trigger] cells[i])@.modifier,
            ),
    ensures
        ({
            let p = stepped_all(blank_paper(), color_backend::steps_for(cells, n));
            &&& p.printed.len() == n
            &&& forall|i: int|
                0 <= i < n ==> {
                    let c = cells[i]@;
                    let d = #[trigger] p.printed[i];
                    &&& d.x == c.x && d.y == c.y
                    &&& d.symbol == c.symbol
                    &&& d.colors == color_backend::color_sgr(c.fg, c.bg)
                    &&& d.modifier == c.modifier
                }
        }),
{
    lemma_cells(cells, n);
}

proof fn lemma_cells(cells: Seq<Cell>, n: int)
    requires
        0 <= n <= cells.len(),
        forall|i: int|
            0 <= i < n ==> can_follow(
                color_backend::pen_after(cells, i).modifier,
                (#[trigger] cells[i])@.modifier,
            ),
    ensures
        ({
            let p = stepped_all(blank_paper(), color_backend::steps_for(cells, n));
            &&& agrees(color_backend::pen_after(cells, n), p)
            &&& p.printed.len() == n
            &&& forall|i: int|
                0 <= i < n ==> {
                    let c = cells[i]@;
                    let d = #[trigger] p.printed[i];
                    &&& d.x == c.x && d.y == c.y
                    &&& d.symbol == c.symbol
                    &&& d.colors == color_backend::color_sgr(c.fg, c.bg)
                    &&& d.modifier == c.modifier
                }
        }),
    decreases n,
{
    if n > 0 {
        lemma_cells(cells, n - 1);
        let before = color_backend::steps_for(cells, n - 1);
        let pen = color_backend::pen_after(cells, n - 1);
        let c = cells[n - 1]@;
        let p = stepped_all(blank_paper(), before);
        lemma_stepped_on(blank_paper(), before, pen.steps(c));
        lemma_cell(pen, p, c);
    }
}

/// At the end the terminal is set back, so that what is written next is plain.
pub proof fn law_terminal_is_set_back(p: Paper)
    ensures
        ({
            let q = stepped_all(p, color_backend::closing_steps());
            &&& q.colors == blank_paper().colors
            &&& q.modifier == blank_paper().modifier
            &&& q.printed == p.printed
        }),
{
    let s = color_backend::closing_steps();
    let a = seq![s[0]];
    let b = seq![s[1]];
    assert(s =~= a + b);
    lemma_stepped_on(p, a, b);
    lemma_one_step(p, s[0]);
    lemma_one_step(stepped(p, s[0]), s[1]);
}

// ---------------------------------------------------------------------------
// The screen of a session
// ---------------------------------------------------------------------------

/// Whether a cell shows a cell of a screen: its text, or a blank where it has none, its
/// colours and its attributes. Under the cursor it is reversed.
pub open spec fn shows(c: CellView, s: ScreenCell, under_cursor: bool) -> bool {
    &&& s.contents@.len() > 0 ==> c.symbol == s.contents@
    &&& s.contents@.len() == 0 ==> c.symbol == seq![' ']
    &&& is_color(c.fg, s.fg)
    &&& is_color(c.bg, s.bg)
    &&& c.modifier.bold == s.bold
    &&& c.modifier.dim == s.dim
    &&& c.modifier.italic == s.italic
    &&& c.modifier.underlined == s.underline
    &&& c.modifier.reversed == (s.inverse || under_cursor)
    &&& !c.modifier.crossed_out && !c.modifier.slow_blink && !c.modifier.rapid_blink
}

/// Whether a colour is that of a session.
pub open spec fn is_color(c: Color, s: ScreenColor) -> bool {
    match s {
        ScreenColor::Default => c is Reset,
        ScreenColor::Idx(i) => c == Color::Indexed(i),
        ScreenColor::Rgb(r, g, b) => c == Color::Rgb(r, g, b),
    }
}

/// Every cell of a session that its area has room for is shown there, from the corner
/// of the area on. The cell of the cursor is marked, unless the cursor is hidden.
pub proof fn law_screen_is_shown_in_its_area(
    s: Screen,
    show_cursor: bool,
    area: Rect,
    x: int,
    y: int,
)
    requires
        0 <= x < area.width,
        0 <= y < area.height,
        s.has_cell(y, x),
        area.x + x <= u16::MAX,
        area.y + y <= u16::MAX,
    ensures
        exists|k: int|
            0 <= k < screen::shown_rows(s, show_cursor, area, area.height as int).len() && {
                let c = #[trigger] screen::shown_rows(s, show_cursor, area, area.height as int)[k];
                &&& c.x == area.x + x
                &&& c.y == area.y + y
                &&& shows(
                    c,
                    s.cells@[y]@[x],
                    show_cursor && !s.hide_cursor && s.cursor.1 == x && s.cursor.0 == y,
                )
            },
{
    let r = lemma_row_has(s, show_cursor, area, x, y, area.width as int);
    let k = lemma_rows_have(s, show_cursor, area, y, r, area.height as int);
    reveal_strlit(" ");
    assert(" "@ =~= seq![' ']);
    let c = screen::shown_rows(s, show_cursor, area, area.height as int)[k];
    assert(shows(
        c,
        s.cells@[y]@[x],
        show_cursor && !s.hide_cursor && s.cursor.1 == x && s.cursor.0 == y,
    ));
}

proof fn lemma_row_has(
    s: Screen,
    show_cursor: bool,
    area: Rect,
    x: int,
    y: int,
    n: int,
) -> (k: int)
    requires
        0 <= x < n <= area.width,
        0 <= y < area.height,
        s.has_cell(y, x),
        area.x + x <= u16::MAX,
        area.y + y <= u16::MAX,
    ensures
        0 <= k < screen::shown_row(s, show_cursor, area, y, n).len(),
        screen::shown_row(s, show_cursor, area, y, n)[k] == screen::shown_cell(
            s.cells@[y]@[x],
            (area.x + x) as u16,
            (area.y + y) as u16,
            s.cursor_cell(show_cursor, area) == Some((area.x + x, area.y + y)),
        ),
    decreases n,
{
    if x == n - 1 {
        screen::shown_row(s, show_cursor, area, y, n - 1).len() as int
    } else {
        lemma_row_has(s, show_cursor, area, x, y, n - 1)
    }
}

proof fn lemma_rows_have(
    s: Screen,
    show_cursor: bool,
    area: Rect,
    y: int,
    r: int,
    n: int,
) -> (k: int)
    requires
        0 <= y < n,
        0 <= r < screen::shown_row(s, show_cursor, area, y, area.width as int).len(),
    ensures
        0 <= k < screen::shown_rows(s, show_cursor, area, n).len(),
        screen::shown_rows(s, show_cursor, area, n)[k] == screen::shown_row(
            s,
            show_cursor,
            area,
            y,
            area.width as int,
        )[r],
    decreases n,
{
    if y == n - 1 {
        screen::shown_rows(s, show_cursor, area, n - 1).len() as int + r
    } else {
        lemma_rows_have(s, show_cursor, area, y, r, n - 1)
    }
}

// ---------------------------------------------------------------------------
// Tabs, menus and padding
// ---------------------------------------------------------------------------

/// The tab bar names every tab, in their order, with a bar between them. Only the tab
/// that is shown is marked.
pub proof fn law_tab_bar_names_the_tabs(tabs: Seq<TabView>, selected: int, n: int)
    requires
        0 < n <= tabs.len(),
    ensures
        ({
            let bar = tabs::tab_bar(tabs, selected, n);
            &&& bar.len() == 2 * n - 1
            &&& forall|i: int|
                0 <= i < n ==> {
                    let p = #[trigger] bar[2 * i];
                    &&& p.text == seq![' '] + tabs[i].name + seq![' ']
                    &&& p.style.bold == (i == selected)
                    &&& (p.style.fg is Yellow) == (i == selected)
                }
        }),
    decreases n,
{
    reveal_strlit(" ");
    assert(" "@ =~= seq![' ']);
    let bar = tabs::tab_bar(tabs, selected, n);
    if n > 1 {
        law_tab_bar_names_the_tabs(tabs, selected, n - 1);
        let before = tabs::tab_bar(tabs, selected, n - 1);
        assert forall|i: int| 0 <= i < n implies {
            let p = #[trigger] bar[2 * i];
            &&& p.text == seq![' '] + tabs[i].name + seq![' ']
            &&& p.style.bold == (i == selected)
            &&& (p.style.fg is Yellow) == (i == selected)
        } by {
            if i < n - 1 {
                assert(bar[2 * i] == before[2 * i]);
            }
        }
    }
}

/// Padding fills up to a width with blanks, on the right or on the left, and cuts
/// nothing off.
pub proof fn law_padding_fills_up(s: Seq<char>, n: int)
    ensures
        ({
            let r = view::padded_right(s, n);
            let l = view::padded_left(s, n);
            &&& r.len() == l.len()
            &&& s.len() <= n ==> r.len() == n
            &&& s.len() > n ==> r == s && l == s
            &&& r.take(s.len() as int) == s
            &&& l.skip(l.len() - s.len()) == s
            &&& forall|i: int| s.len() <= i < r.len() ==> #[trigger] r[i] == ' '
            &&& forall|i: int| 0 <= i < l.len() - s.len() ==> #[trigger] l[i] == ' '
        }),
{
    let r = view::padded_right(s, n);
    let l = view::padded_left(s, n);
    assert(r.take(s.len() as int) =~= s);
    assert(l.skip(l.len() - s.len()) =~= s);
}

/// An item of a menu stands in the middle of its row: as many blanks before it as
/// behind it, or one fewer.
pub proof fn law_menu_items_stand_in_the_middle(item: Seq<char>, width: int)
    requires
        item.len() <= width,
    ensures
        ({
            let l = tabs::menu_label(item, width);
            let pad = (width - item.len()) / 2;
            &&& l.len() == width
            &&& l.subrange(pad, pad + item.len()) == item
            &&& forall|i: int| 0 <= i < pad ==> #[trigger] l[i] == ' '
            &&& forall|i: int| pad + item.len() <= i < width ==> #[trigger] l[i] == ' '
            &&& 0 <= (width - pad - item.len()) - pad <= 1
        }),
{
    let l = tabs::menu_label(item, width);
    let pad = (width - item.len()) / 2;
    assert(l.subrange(pad, pad + item.len()) =~= item);
}

/// Only the item under the cursor of a menu is marked.
pub proof fn law_menu_marks_one_item(index: usize, selected: Option<usize>)
    ensures
        tabs::menu_style(index, selected).bold == (selected == Some(index)),
        (tabs::menu_style(index, selected).fg is Yellow) == (selected == Some(index)),
{
}

/// A box in the middle has as much room before it as behind it, or one cell less.
pub proof fn law_box_stands_in_the_middle(inner: Rect, width: u16, height: u16)
    requires
        inner.on_screen(),
        width <= inner.width,
        height <= inner.height,
    ensures
        ({
            let b = view::in_the_middle(inner, width, height);
            let left = b.x - inner.x;
            let right = inner.x + inner.width - (b.x + b.width);
            let above = b.y - inner.y;
            let below = inner.y + inner.height - (b.y + b.height);
            &&& b.width == width && b.height == height
            &&& 0 <= right - left <= 1
            &&& 0 <= below - above <= 1
        }),
{
}

} // verus!
