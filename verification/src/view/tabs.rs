//! The tab bar and the context menu, as they are shown.
use vstd::prelude::*;
use crate::app;
use crate::geometry;
use crate::view;

use crate::style::{Color, Style};
use crate::tab::{Tab, TabView};
use crate::text::{cat3, chars_of, string_of};
use crate::view::{push_blanks, Piece, PieceView};

verus! {

/// The first `n` tabs in the tab bar, with a line between each two. The selected
/// one stands out.
pub open spec fn tab_bar(tabs: Seq<TabView>, selected: int, n: int) -> Seq<PieceView>
    decreases n,
{
    if n <= 0 {
        Seq::empty()
    } else {
        let before = tab_bar(tabs, selected, n - 1);
        let joined = if n > 1 {
            before.push(view::piece(" │ "@, Style::colored(Color::DarkGray)))
        } else {
            before
        };
        joined.push(
            view::piece(
                " "@ + tabs[n - 1].name + " "@,
                if n - 1 == selected {
                    Style::strong(Color::Yellow)
                } else {
                    Style::colored(Color::White)
                },
            ),
        )
    }
}

/// What is shown in the tab bar.
pub fn render_tab_bar(tabs: &Vec<Tab>, selected: usize) -> (r: Vec<Piece>)
    ensures
        view::line_view(r@) == tab_bar(app::tabs_view(tabs@), selected as int, tabs@.len() as int),
{
    let ghost model = app::tabs_view(tabs@);
    let mut r: Vec<Piece> = Vec::new();
    let mut i: usize = 0;
    assert(view::line_view(r@) =~= Seq::empty());
    while i < tabs.len()
        invariant
            model == app::tabs_view(tabs@),
            i <= tabs@.len(),
            view::line_view(r@) == tab_bar(model, selected as int, i as int),
        decreases tabs@.len() - i,
    {
        let ghost before = view::line_view(r@);
        let bar = Piece { text: " │ ".to_owned(), style: Style::plain(Color::DarkGray) };
        let ghost bar_view = bar@;
        if i > 0 {
            r.push(bar);
        }
        let ghost joined = view::line_view(r@);
        assert(joined =~= if i > 0 {
            before.push(bar_view)
        } else {
            before
        });
        let name = tabs[i].display_name();
        assert(name@ == model[i as int].name);
        let style = if i == selected {
            Style::bold(Color::Yellow)
        } else {
            Style::plain(Color::White)
        };
        let tab = Piece { text: cat3(" ", name.as_str(), " "), style };
        let ghost tab_view = tab@;
        r.push(tab);
        assert(view::line_view(r@) =~= joined.push(tab_view));
        i += 1;
    }
    r
}

/// An item of the context menu, in the middle of a line of the given width.
pub open spec fn menu_label(item: Seq<char>, width: int) -> Seq<char> {
    let pad = geometry::monus(width, item.len() as int) / 2;
    view::blanks(pad) + item + view::blanks(width - pad - item.len())
}

/// What is shown of an item of the context menu in a line of the given width.
pub fn render_menu_item(item: &str, width: usize) -> (r: String)
    ensures
        r@ == menu_label(item@, width as int),
{
    let mut text = chars_of(item);
    let len: usize = text.len();
    let pad: usize = width.saturating_sub(len) / 2;
    let mut v: Vec<char> = Vec::new();
    push_blanks(&mut v, pad);
    v.append(&mut text);
    push_blanks(&mut v, (width - pad).saturating_sub(len));
    assert(v@ =~= menu_label(item@, width as int));
    string_of(v.as_slice())
}

/// The style of an item of the context menu: the selected one stands out.
pub open spec fn menu_style(index: usize, selected: Option<usize>) -> Style {
    if selected == Some(index) {
        Style::strong(Color::Yellow)
    } else {
        Style::colored(Color::White)
    }
}

/// The style of an item of the context menu.
pub fn menu_item_style(index: usize, selected: Option<usize>) -> (r: Style)
    ensures
        r == menu_style(index, selected),
{
    match selected {
        Some(i) => if i == index {
            Style::bold(Color::Yellow)
        } else {
            Style::plain(Color::White)
        },
        None => Style::plain(Color::White),
    }
}

} // verus!
