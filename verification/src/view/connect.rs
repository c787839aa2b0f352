//! The pane for choosing a host, as it is shown.
use vstd::prelude::*;
use crate::geometry;
use crate::view;
use vstd::slice::slice_subrange;
use crate::connect::{
    editor_binding_index, ConnectOverlay, ConnectPane, ConnectPaneView, EditorView, InputField,
    InputView, KeyEditorState, OverlayView, SshHost, EDITOR_ROW_COUNT,     HEADER_CONNECT, HEADER_GLOBAL,
};
use crate::geometry::Rect;
use crate::keybindings::KeyBindings;
use crate::style::{Color, Style};
use crate::text::{cat, cat3, chars_of, string_of};
use crate::view::{centered, line_of, line_of2, pad_right, smaller, Piece, PieceView};

verus! {

/// The width of the browser menu.
pub const MENU_WIDTH: u16 = 36;

/// The height of the browser menu: two items and a border.
pub const MENU_HEIGHT: u16 = 4;

/// The largest width of the key editor.
pub const EDITOR_WIDTH: u16 = 44;

/// The largest width of the line of input.
pub const INPUT_WIDTH: u16 = 50;

/// The height of the line of input: the line, an example and a border.
pub const INPUT_HEIGHT: u16 = 4;

impl InputView {
    /// The first character that is shown where there is room for `width`: the
    /// cursor is always in sight.
    pub open spec fn shown_from(self, width: int) -> int {
        if self.at() < width {
            0
        } else {
            self.at() - width + 1
        }
    }

    /// The characters that are shown.
    pub open spec fn shown(self, width: int) -> Seq<char> {
        if width <= 0 {
            Seq::empty()
        } else {
            let from = self.shown_from(width);
            self.text.subrange(from, geometry::at_most(self.text.len() as int, from + width))
        }
    }

    /// The column of the cursor.
    pub open spec fn cursor_column(self, width: int) -> int {
        if width <= 0 {
            0
        } else {
            self.at() - self.shown_from(width)
        }
    }
}

impl InputField {
    /// The characters that are shown where there is room for `width`, and the
    /// column of the cursor.
    pub fn view_in(&self, width: usize) -> (r: (String, usize))
        ensures
            r.0@ == self@.shown(width as int),
            r.1 == self@.cursor_column(width as int),
    {
        if width == 0 {
            let r = String::new();
            assert(r@ =~= Seq::empty());
            return (r, 0);
        }
        let v = chars_of(self.text.as_str());
        let at: usize = if self.cursor <= v.len() {
            self.cursor
        } else {
            v.len()
        };
        let from: usize = if at < width {
            0
        } else {
            at - width + 1
        };
        let end: usize = if v.len() - from <= width {
            v.len()
        } else {
            from + width
        };
        (string_of(slice_subrange(v.as_slice(), from, end)), at - from)
    }
}

/// The cursor of a line of input is always in sight.
pub proof fn law_cursor_is_in_sight(i: InputView, width: int)
    requires
        width > 0,
    ensures
        0 <= i.cursor_column(width) < width,
        i.cursor_column(width) <= i.shown(width).len(),
{
}

/// A row of the key editor.
pub open spec fn editor_row(b: KeyBindings, e: EditorView, row: usize) -> Seq<PieceView> {
    match crate::connect::binding_in_row(row) {
        Some(i) => {
            let entry = b.rows()[i as int];
            let capturing = e.editing && row == crate::connect::cursor_row(e.list_state);
            seq![
                view::piece(
                    " "@ + view::padded_right(
                        if capturing {
                            "[press key...]"@
                        } else {
                            entry.binding.shown()
                        },
                        14,
                    ),
                    if capturing {
                        Style::strong(Color::Cyan)
                    } else {
                        Style::colored(Color::Yellow)
                    },
                ),
                view::piece(entry.description, Style::colored(Color::DarkGray)),
            ]
        },
        None => seq![
            view::piece(
                " ── "@ + (if row == HEADER_GLOBAL {
                    "Global"@
                } else if row == HEADER_CONNECT {
                    "Connect"@
                } else {
                    "Browser"@
                }) + " "@,
                Style::strong(Color::DarkGray),
            ),
        ],
    }
}

fn row_of_editor(b: &KeyBindings, e: &KeyEditorState, row: usize) -> (r: Vec<Piece>)
    ensures
        view::line_view(r@) == editor_row(*b, e@, row),
{
    let cursor: usize = match e.list_state.selected() {
        Some(i) => i,
        None => 0,
    };
    match editor_binding_index(row) {
        Some(i) => {
            let entries = b.entries();
            assert(b.rows().len() == 28);
            assert(b.rows()[i as int] == entries@[i as int]@);
            let entry = &entries[i];
            let capturing = e.editing && row == cursor;
            let key = if capturing {
                "[press key...]".to_owned()
            } else {
                entry.binding.to_display_string()
            };
            let style = if capturing {
                Style::bold(Color::Cyan)
            } else {
                Style::plain(Color::Yellow)
            };
            line_of2(
                cat(" ", pad_right(key.as_str(), 14).as_str()),
                style,
                entry.description.to_owned(),
                Style::plain(Color::DarkGray),
            )
        },
        None => {
            let group = if row == HEADER_GLOBAL {
                "Global"
            } else if row == HEADER_CONNECT {
                "Connect"
            } else {
                "Browser"
            };
            line_of(cat3(" ── ", group, " "), Style::bold(Color::DarkGray))
        },
    }
}

/// All rows of the key editor.
pub open spec fn editor_rows(b: KeyBindings, e: EditorView) -> Seq<Seq<PieceView>> {
    Seq::new(EDITOR_ROW_COUNT as nat, |i: int| editor_row(b, e, i as usize))
}

fn rows_of_editor(b: &KeyBindings, e: &KeyEditorState) -> (r: Vec<Vec<Piece>>)
    ensures
        view::lines_view(r@) == editor_rows(*b, e@),
{
    let mut r: Vec<Vec<Piece>> = Vec::new();
    let mut row: usize = 0;
    while row < EDITOR_ROW_COUNT
        invariant
            row <= EDITOR_ROW_COUNT,
            r@.len() == row,
            forall|k: int| 0 <= k < row ==> view::line_view(#[trigger] r@[k]@) == editor_row(
                *b,
                e@,
                k as usize,
            ),
        decreases EDITOR_ROW_COUNT - row,
    {
        r.push(row_of_editor(b, e, row));
        row += 1;
    }
    assert(view::lines_view(r@) =~= editor_rows(*b, e@));
    r
}

/// The area of the key editor.
pub open spec fn editor_area(inner: Rect, has_status: bool) -> Rect {
    view::in_the_middle(
        inner,
        geometry::at_most(EDITOR_WIDTH as int, geometry::monus(inner.width as int, 2)) as u16,
        geometry::at_most(
            EDITOR_ROW_COUNT + 2 + if has_status {
                1int
            } else {
                0
            },
            inner.height as int,
        ) as u16,
    )
}

/// What lies over the list of hosts, as it is shown.
#[derive(Debug)]
pub enum OverlayPlan {
    Closed,
    Menu { area: Rect },
    Editor {
        area: Rect,
        title: &'static str,
        rows: Vec<Vec<Piece>>,
        /// The text of the status with the cell where it starts and the room
        /// that it has.
        status: Option<(String, u16, u16, u16)>,
    },
    Input {
        area: Rect,
        text: String,
        /// The cell of the cursor, where it is in sight.
        cursor: Option<(u16, u16)>,
    },
}

/// What lies over the list of hosts, as it is shown.
#[verifier::ext_equal]
pub enum OverlayPlanView {
    Closed,
    Menu { area: Rect },
    Editor {
        area: Rect,
        title: Seq<char>,
        rows: Seq<Seq<PieceView>>,
        status: Option<(Seq<char>, u16, u16, u16)>,
    },
    Input { area: Rect, text: Seq<char>, cursor: Option<(u16, u16)> },
}

impl View for OverlayPlan {
    type V = OverlayPlanView;

    open spec fn view(&self) -> OverlayPlanView {
        match *self {
            OverlayPlan::Closed => OverlayPlanView::Closed,
            OverlayPlan::Menu { area } => OverlayPlanView::Menu { area },
            OverlayPlan::Editor { area, title, rows, status } => OverlayPlanView::Editor {
                area,
                title: title@,
                rows: view::lines_view(rows@),
                status: match status {
                    Some((s, x, y, w)) => Some((s@, x, y, w)),
                    None => None,
                },
            },
            OverlayPlan::Input { area, text, cursor } => OverlayPlanView::Input {
                area,
                text: text@,
                cursor,
            },
        }
    }
}

/// The items of the browser menu.
pub const BROWSER_MENU_ITEMS: [&'static str; 2] = ["SFTP", "SCP (legacy, linux target)"];

/// What lies over the list of hosts in a pane of the given inner area.
pub open spec fn overlay_plan(o: OverlayView, b: KeyBindings, inner: Rect) -> OverlayPlanView {
    match o {
        OverlayView::Closed => OverlayPlanView::Closed,
        OverlayView::BrowserMenu(_) => {
            let place = view::in_the_middle(inner, MENU_WIDTH, MENU_HEIGHT);
            OverlayPlanView::Menu {
                area: Rect {
                    width: geometry::at_most(MENU_WIDTH as int, inner.width as int) as u16,
                    height: geometry::at_most(MENU_HEIGHT as int, inner.height as int) as u16,
                    ..place
                },
            }
        },
        OverlayView::KeyEditor(e) => {
            let text = match e.status {
                Some(s) => s,
                None => Seq::empty(),
            };
            let area = editor_area(inner, text.len() > 0);
            OverlayPlanView::Editor {
                area,
                title: if e.editing {
                    " press a key to bind "@
                } else {
                    " keybindings (Enter to edit) "@
                },
                rows: editor_rows(b, e),
                status: if text.len() > 0 {
                    Some(
                        (
                            text,
                            geometry::at_most(area.x + 2, u16::MAX as int) as u16,
                            geometry::at_most(
                                area.y + geometry::monus(area.height as int, 2),
                                u16::MAX as int,
                            ) as u16,
                            geometry::monus(area.width as int, 4) as u16,
                        ),
                    )
                } else {
                    None
                },
            }
        },
        OverlayView::ConnectInput(i) => {
            let width = geometry::at_most(INPUT_WIDTH as int, geometry::monus(inner.width as int, 2));
            let area = view::in_the_middle(inner, width as u16, INPUT_HEIGHT);
            let room = geometry::monus(width, 2);
            let column = area.x + 1 + i.cursor_column(room);
            OverlayPlanView::Input {
                area,
                text: i.shown(room),
                cursor: if column < area.x + geometry::monus(width, 1) && column <= u16::MAX && area.y
                    < u16::MAX {
                    Some((column as u16, (area.y + 1) as u16))
                } else {
                    None
                },
            }
        },
    }
}

/// The pane for choosing a host, as it is shown.
#[derive(Debug)]
pub struct ConnectPlan {
    pub list_area: Rect,
    /// The row of the hint below the list.
    pub hint_y: u16,
    pub hint: Vec<Piece>,
    pub overlay: OverlayPlan,
}

/// The pane for choosing a host, as it is shown.
#[verifier::ext_equal]
pub struct ConnectPlanView {
    pub list_area: Rect,
    pub hint_y: u16,
    pub hint: Seq<PieceView>,
    pub overlay: OverlayPlanView,
}

impl View for ConnectPlan {
    type V = ConnectPlanView;

    open spec fn view(&self) -> ConnectPlanView {
        ConnectPlanView {
            list_area: self.list_area,
            hint_y: self.hint_y,
            hint: view::line_view(self.hint@),
            overlay: self.overlay@,
        }
    }
}

/// The pane for choosing a host in the given inner area.
pub open spec fn connect_plan(p: ConnectPaneView, b: KeyBindings, inner: Rect) -> ConnectPlanView {
    let height = geometry::monus(inner.height as int, 1) as u16;
    ConnectPlanView {
        list_area: Rect { height, ..inner },
        hint_y: geometry::at_most(inner.y + height, u16::MAX as int) as u16,
        hint: seq![
            view::piece("  "@ + b.connect.help.shown(), Style::colored(Color::Yellow)),
            view::piece(" keybindings"@, Style::colored(Color::DarkGray)),
        ],
        overlay: overlay_plan(p.overlay, b, inner),
    }
}

/// The pane for choosing a host: what it needs to be shown.
#[derive(Debug)]
pub struct ConnectView<'a> {
    pub hosts: &'a [SshHost],
    pub keybindings: &'a KeyBindings,
}

impl<'a> ConnectView<'a> {
    fn plan_overlay(&self, overlay: &ConnectOverlay, inner: Rect) -> (r: OverlayPlan)
        ensures
            r@ == overlay_plan(overlay@, *self.keybindings, inner),
    {
        match overlay {
            ConnectOverlay::Closed => OverlayPlan::Closed,
            ConnectOverlay::BrowserMenu(_) => {
                let place = centered(inner, MENU_WIDTH, MENU_HEIGHT);
                OverlayPlan::Menu {
                    area: Rect {
                        x: place.x,
                        y: place.y,
                        width: smaller(MENU_WIDTH, inner.width),
                        height: smaller(MENU_HEIGHT, inner.height),
                    },
                }
            },
            ConnectOverlay::KeyEditor(e) => {
                let status = match &e.status {
                    Some(s) => s.clone(),
                    None => String::new(),
                };
                assert(e@.status is None ==> status@ =~= Seq::empty());
                let has_status = !status.as_str().is_empty();
                let rows: u16 = if has_status {
                    EDITOR_ROW_COUNT as u16 + 3
                } else {
                    EDITOR_ROW_COUNT as u16 + 2
                };
                let area = centered(
                    inner,
                    smaller(EDITOR_WIDTH, inner.width.saturating_sub(2)),
                    smaller(rows, inner.height),
                );
                assert(area == editor_area(inner, has_status));
                let title = if e.editing {
                    " press a key to bind "
                } else {
                    " keybindings (Enter to edit) "
                };
                OverlayPlan::Editor {
                    area,
                    title,
                    rows: rows_of_editor(self.keybindings, e),
                    status: if has_status {
                        Some(
                            (
                                status,
                                area.x.saturating_add(2),
                                area.y.saturating_add(area.height.saturating_sub(2)),
                                area.width.saturating_sub(4),
                            ),
                        )
                    } else {
                        None
                    },
                }
            },
            ConnectOverlay::ConnectInput(input) => {
                let width: u16 = smaller(INPUT_WIDTH, inner.width.saturating_sub(2));
                let area = centered(inner, width, INPUT_HEIGHT);
                let (text, column) = input.view_in(width.saturating_sub(2) as usize);
                let cursor = if column < 0x10000 {
                    let x: u32 = area.x as u32 + 1 + column as u32;
                    if x < area.x as u32 + width.saturating_sub(1) as u32 && x <= 0xffff && area.y
                        < u16::MAX {
                        Some((x as u16, area.y + 1))
                    } else {
                        None
                    }
                } else {
                    None
                };
                OverlayPlan::Input { area, text, cursor }
            },
        }
    }

    /// What is shown of a pane in the given inner area.
    pub fn render(&self, inner: Rect, state: &ConnectPane) -> (r: ConnectPlan)
        ensures
            r@ == connect_plan(state@, *self.keybindings, inner),
    {
        let height: u16 = inner.height.saturating_sub(1);
        let hint = line_of2(
            cat("  ", self.keybindings.connect.help.to_display_string().as_str()),
            Style::plain(Color::Yellow),
            " keybindings".to_owned(),
            Style::plain(Color::DarkGray),
        );
        ConnectPlan {
            list_area: Rect { x: inner.x, y: inner.y, width: inner.width, height },
            hint_y: inner.y.saturating_add(height),
            hint,
            overlay: self.plan_overlay(&state.overlay, inner),
        }
    }
}

} // verus!
