//! The pane for choosing a host, with its menus and the key editor.
use vstd::prelude::*;
use crate::text;
use crate::event::KeyCode;
use crate::keybindings::{ConnectBindings, KeyBinding};
use crate::list_state::ListState;
use crate::text::{chars_of, string_of, trim_str};

verus! {

/// A host that can be connected to.
#[derive(Debug)]
pub struct SshHost {
    pub label: String,
}

/// The labels of a list of hosts.
pub open spec fn labels(v: Seq<SshHost>) -> Seq<Seq<char>> {
    v.map_values(|h: SshHost| h.label@)
}

// ---------------------------------------------------------------------------
// A line of input
// ---------------------------------------------------------------------------

/// A line of text with a cursor, counted in characters.
#[derive(Debug)]
pub struct InputField {
    pub text: String,
    pub cursor: usize,
}

/// What a line of input holds.
#[verifier::ext_equal]
pub struct InputView {
    pub text: Seq<char>,
    pub cursor: usize,
}

impl View for InputField {
    type V = InputView;

    open spec fn view(&self) -> InputView {
        InputView { text: self.text@, cursor: self.cursor }
    }
}

impl InputView {
    /// An empty line.
    pub open spec fn blank() -> InputView {
        InputView { text: Seq::empty(), cursor: 0 }
    }

    /// Where the cursor is; no further than the end of the text.
    pub open spec fn at(self) -> int {
        if self.cursor <= self.text.len() {
            self.cursor as int
        } else {
            self.text.len() as int
        }
    }

    /// The line with `c` typed.
    pub open spec fn typed(self, c: char) -> InputView {
        InputView { text: self.text.insert(self.at(), c), cursor: (self.at() + 1) as usize }
    }

    /// The line without the character in front of the cursor.
    pub open spec fn erased(self) -> InputView {
        if self.at() > 0 {
            InputView {
                text: self.text.remove(self.at() - 1),
                cursor: (self.at() - 1) as usize,
            }
        } else {
            self
        }
    }

    /// The line without the character under the cursor.
    pub open spec fn deleted(self) -> InputView {
        if self.at() < self.text.len() {
            InputView { text: self.text.remove(self.at()), cursor: self.at() as usize }
        } else {
            self
        }
    }

    /// The line with the cursor somewhere else.
    pub open spec fn with_cursor(self, i: int) -> InputView {
        InputView { cursor: i as usize, ..self }
    }

    /// The line with the characters of a paste that are not control
    /// characters typed, up to the first `n`.
    pub open spec fn with_pasted(self, text: Seq<char>, n: int) -> InputView
        decreases n,
    {
        if n <= 0 {
            self
        } else {
            let before = self.with_pasted(text, n - 1);
            if crate::text::is_control(text[n - 1]) {
                before
            } else {
                before.typed(text[n - 1])
            }
        }
    }
}

impl InputField {
    /// An empty line.
    pub fn new() -> (r: InputField)
        ensures
            r@ == InputView::blank(),
    {
        InputField { text: String::new(), cursor: 0 }
    }

    /// Types `c` at the cursor.
    pub fn insert(&mut self, c: char)
        ensures
            final(self)@ == old(self)@.typed(c),
    {
        let mut v = chars_of(self.text.as_str());
        let at: usize = if self.cursor <= v.len() {
            self.cursor
        } else {
            v.len()
        };
        v.insert(at, c);
        let n: usize = v.len();
        assert(at < n);
        self.text = string_of(v.as_slice());
        self.cursor = at + 1;
        assert(self@ =~= old(self)@.typed(c));
    }

    /// Erases the character in front of the cursor.
    pub fn backspace(&mut self)
        ensures
            final(self)@ == old(self)@.erased(),
    {
        let mut v = chars_of(self.text.as_str());
        let at: usize = if self.cursor <= v.len() {
            self.cursor
        } else {
            v.len()
        };
        if at > 0 {
            v.remove(at - 1);
            self.text = string_of(v.as_slice());
            self.cursor = at - 1;
        }
        assert(self@ =~= old(self)@.erased());
    }

    /// Deletes the character under the cursor.
    pub fn delete(&mut self)
        ensures
            final(self)@ == old(self)@.deleted(),
    {
        let mut v = chars_of(self.text.as_str());
        let at: usize = if self.cursor <= v.len() {
            self.cursor
        } else {
            v.len()
        };
        if at < v.len() {
            v.remove(at);
            self.text = string_of(v.as_slice());
            self.cursor = at;
        }
        assert(self@ =~= old(self)@.deleted());
    }

    fn position(&self) -> (r: usize)
        ensures
            r == self@.at(),
            r <= self@.text.len(),
    {
        let v = chars_of(self.text.as_str());
        if self.cursor <= v.len() {
            self.cursor
        } else {
            v.len()
        }
    }

    /// Moves the cursor one character to the left.
    pub fn move_left(&mut self)
        ensures
            final(self)@ == old(self)@.with_cursor(
                if old(self)@.at() > 0 {
                    old(self)@.at() - 1
                } else {
                    0
                },
            ),
    {
        let at: usize = self.position();
        self.cursor = at.saturating_sub(1);
    }

    /// Moves the cursor one character to the right.
    pub fn move_right(&mut self)
        ensures
            final(self)@ == old(self)@.with_cursor(
                if old(self)@.at() < old(self)@.text.len() {
                    old(self)@.at() + 1
                } else {
                    old(self)@.at()
                },
            ),
    {
        let at: usize = self.position();
        let v = chars_of(self.text.as_str());
        self.cursor = if at < v.len() {
            at + 1
        } else {
            at
        };
    }

    /// Moves the cursor to the start.
    pub fn move_home(&mut self)
        ensures
            final(self)@ == old(self)@.with_cursor(0),
    {
        self.cursor = 0;
    }

    /// Moves the cursor to the end.
    pub fn move_end(&mut self)
        ensures
            final(self)@ == old(self)@.with_cursor(old(self)@.text.len() as int),
    {
        let v = chars_of(self.text.as_str());
        self.cursor = v.len();
    }

    /// Types what was pasted, without control characters.
    pub fn paste(&mut self, text: &str)
        ensures
            final(self)@ == old(self)@.with_pasted(text@, text@.len() as int),
    {
        let v = chars_of(text);
        let mut i: usize = 0;
        while i < v.len()
            invariant
                v@ == text@,
                i <= v@.len(),
                self@ == old(self)@.with_pasted(text@, i as int),
            decreases v@.len() - i,
        {
            if !crate::text::control(v[i]) {
                self.insert(v[i]);
            }
            i += 1;
        }
    }
}

// ---------------------------------------------------------------------------
// The key editor
// ---------------------------------------------------------------------------

/// The row of the heading of the global bindings.
pub const HEADER_GLOBAL: usize = 0;

/// The row of the heading of the bindings of this pane.
pub const HEADER_CONNECT: usize = 13;

/// The row of the heading of the bindings of the browsers.
pub const HEADER_BROWSER: usize = 20;

/// The number of rows of the key editor.
pub const EDITOR_ROW_COUNT: usize = 31;

/// Whether a row of the key editor is a heading.
pub open spec fn is_heading(row: int) -> bool {
    row == HEADER_GLOBAL || row == HEADER_CONNECT || row == HEADER_BROWSER
}

/// The binding that a row of the key editor shows, counted in the order of
/// the table. Headings and rows past the end show none.
pub open spec fn binding_in_row(row: usize) -> Option<usize> {
    if row >= EDITOR_ROW_COUNT || is_heading(row as int) {
        None
    } else if row < HEADER_CONNECT {
        Some((row - 1) as usize)
    } else if row < HEADER_BROWSER {
        Some((row - 2) as usize)
    } else {
        Some((row - 3) as usize)
    }
}

/// The binding that a row of the key editor shows.
pub fn editor_binding_index(row: usize) -> (r: Option<usize>)
    ensures
        r == binding_in_row(row),
{
    if row >= EDITOR_ROW_COUNT || row == HEADER_GLOBAL || row == HEADER_CONNECT || row
        == HEADER_BROWSER {
        None
    } else if row < HEADER_CONNECT {
        Some(row - 1)
    } else if row < HEADER_BROWSER {
        Some(row - 2)
    } else {
        Some(row - 3)
    }
}

/// The row of the key editor above `row` that shows a binding, or `row` where
/// there is none.
pub open spec fn editor_row_above(row: usize) -> usize {
    if row <= 1 {
        row
    } else if is_heading(row - 1) {
        (row - 2) as usize
    } else {
        (row - 1) as usize
    }
}

/// The row of the key editor below `row` that shows a binding, or `row` where
/// there is none.
pub open spec fn editor_row_below(row: usize) -> usize {
    if row + 1 >= EDITOR_ROW_COUNT {
        row
    } else if is_heading(row + 1) {
        (row + 2) as usize
    } else {
        (row + 1) as usize
    }
}

/// The row under the cursor; the first one where there is no cursor.
pub open spec fn cursor_row(s: ListState) -> usize {
    match s.selected {
        Some(i) => i,
        None => 0,
    }
}

/// Moves the cursor of the key editor up, past headings.
pub fn editor_nav_up(s: &mut ListState)
    ensures
        *final(s) == old(s).with_selected(Some(editor_row_above(cursor_row(*old(s))))),
{
    let row: usize = match s.selected() {
        Some(i) => i,
        None => 0,
    };
    let next: usize = if row <= 1 {
        row
    } else if row - 1 == HEADER_CONNECT || row - 1 == HEADER_BROWSER {
        row - 2
    } else {
        row - 1
    };
    s.select(Some(next));
}

/// Moves the cursor of the key editor down, past headings.
pub fn editor_nav_down(s: &mut ListState)
    ensures
        *final(s) == old(s).with_selected(Some(editor_row_below(cursor_row(*old(s))))),
{
    let row: usize = match s.selected() {
        Some(i) => i,
        None => 0,
    };
    let next: usize = if row >= EDITOR_ROW_COUNT - 1 {
        row
    } else if row + 1 == HEADER_CONNECT || row + 1 == HEADER_BROWSER {
        row + 2
    } else {
        row + 1
    };
    s.select(Some(next));
}

/// The state of the key editor.
#[derive(Debug)]
pub struct KeyEditorState {
    pub list_state: ListState,
    /// Whether the next key becomes the combination of the binding.
    pub editing: bool,
    pub status: Option<String>,
}

/// What the key editor shows.
#[verifier::ext_equal]
pub struct EditorView {
    pub list_state: ListState,
    pub editing: bool,
    pub status: Option<Seq<char>>,
}

impl View for KeyEditorState {
    type V = EditorView;

    open spec fn view(&self) -> EditorView {
        EditorView {
            list_state: self.list_state,
            editing: self.editing,
            status: match self.status {
                Some(s) => Some(s@),
                None => None,
            },
        }
    }
}

impl EditorView {
    /// The editor when it is opened: the cursor is on the first binding.
    pub open spec fn opened() -> EditorView {
        EditorView {
            list_state: ListState { offset: 0, selected: Some(1) },
            editing: false,
            status: None,
        }
    }
}

impl KeyEditorState {
    /// The editor when it is opened.
    pub fn new() -> (r: KeyEditorState)
        ensures
            r@ == EditorView::opened(),
    {
        KeyEditorState {
            list_state: ListState { offset: 0, selected: Some(1) },
            editing: false,
            status: None,
        }
    }
}

// ---------------------------------------------------------------------------
// The pane
// ---------------------------------------------------------------------------

/// What lies over the list of hosts.
#[derive(Debug)]
pub enum ConnectOverlay {
    Closed,
    BrowserMenu(ListState),
    ConnectInput(InputField),
    KeyEditor(KeyEditorState),
}

/// The pane for choosing a host.
#[derive(Debug)]
pub struct ConnectPane {
    pub list_state: ListState,
    pub overlay: ConnectOverlay,
}

/// What lies over the list of hosts.
#[verifier::ext_equal]
pub enum OverlayView {
    Closed,
    BrowserMenu(ListState),
    ConnectInput(InputView),
    KeyEditor(EditorView),
}

/// What the pane for choosing a host shows.
#[verifier::ext_equal]
pub struct ConnectPaneView {
    pub list_state: ListState,
    pub overlay: OverlayView,
}

impl View for ConnectOverlay {
    type V = OverlayView;

    open spec fn view(&self) -> OverlayView {
        match *self {
            ConnectOverlay::Closed => OverlayView::Closed,
            ConnectOverlay::BrowserMenu(s) => OverlayView::BrowserMenu(s),
            ConnectOverlay::ConnectInput(i) => OverlayView::ConnectInput(i@),
            ConnectOverlay::KeyEditor(e) => OverlayView::KeyEditor(e@),
        }
    }
}

impl View for ConnectPane {
    type V = ConnectPaneView;

    open spec fn view(&self) -> ConnectPaneView {
        ConnectPaneView { list_state: self.list_state, overlay: self.overlay@ }
    }
}

/// What a key asks for, beyond what it did to the pane.
#[derive(Debug)]
pub enum ConnectRequest {
    Nothing,
    /// A session on the host in a row of the list.
    Session(usize),
    /// A session with the arguments that were typed.
    Manual(String),
    /// An SFTP browser on the host in a row of the list.
    Sftp(usize),
    /// An SCP browser on the host in a row of the list.
    Scp(usize),
    /// Another combination for the binding that has this place in the table.
    Bind(usize, KeyBinding),
}

/// What a key asks for.
#[verifier::ext_equal]
pub enum RequestView {
    Nothing,
    Session(usize),
    Manual(Seq<char>),
    Sftp(usize),
    Scp(usize),
    Bind(usize, KeyBinding),
}

impl View for ConnectRequest {
    type V = RequestView;

    open spec fn view(&self) -> RequestView {
        match *self {
            ConnectRequest::Nothing => RequestView::Nothing,
            ConnectRequest::Session(i) => RequestView::Session(i),
            ConnectRequest::Manual(s) => RequestView::Manual(s@),
            ConnectRequest::Sftp(i) => RequestView::Sftp(i),
            ConnectRequest::Scp(i) => RequestView::Scp(i),
            ConnectRequest::Bind(i, k) => RequestView::Bind(i, k),
        }
    }
}

impl ConnectPaneView {
    /// The pane when it is opened.
    pub open spec fn opened() -> ConnectPaneView {
        ConnectPaneView { list_state: ListState::at_first(), overlay: OverlayView::Closed }
    }

    /// The pane with something else over the list.
    pub open spec fn with_overlay(self, overlay: OverlayView) -> ConnectPaneView {
        ConnectPaneView { overlay, ..self }
    }

    /// Whether the next key becomes the combination of a binding.
    pub open spec fn capturing(self) -> bool {
        match self.overlay {
            OverlayView::KeyEditor(e) => e.editing,
            _ => false,
        }
    }

    /// The pane after a key in the browser menu.
    pub open spec fn menu_keyed(self, menu: ListState, code: KeyCode) -> (
        ConnectPaneView,
        RequestView,
    ) {
        match code {
            KeyCode::Up => (
                self.with_overlay(OverlayView::BrowserMenu(menu.retreated())),
                RequestView::Nothing,
            ),
            KeyCode::Down => (
                self.with_overlay(OverlayView::BrowserMenu(menu.advanced())),
                RequestView::Nothing,
            ),
            KeyCode::Enter => (
                self.with_overlay(OverlayView::Closed),
                match (self.list_state.selected, menu.selected) {
                    (Some(host), Some(item)) => if item == 0 {
                        RequestView::Sftp(host)
                    } else if item == 1 {
                        RequestView::Scp(host)
                    } else {
                        RequestView::Nothing
                    },
                    _ => RequestView::Nothing,
                },
            ),
            KeyCode::Esc => (self.with_overlay(OverlayView::Closed), RequestView::Nothing),
            _ => (self, RequestView::Nothing),
        }
    }

    /// The pane after a key in the line of input. Characters with the control
    /// key are not typed, unless the alt key is held too.
    pub open spec fn input_keyed(
        self,
        input: InputView,
        code: KeyCode,
        ctrl: bool,
        alt: bool,
    ) -> (ConnectPaneView, RequestView) {
        match code {
            KeyCode::Char(c) => if !ctrl || alt {
                (self.with_overlay(OverlayView::ConnectInput(input.typed(c))), RequestView::Nothing)
            } else {
                (self, RequestView::Nothing)
            },
            KeyCode::Backspace => (
                self.with_overlay(OverlayView::ConnectInput(input.erased())),
                RequestView::Nothing,
            ),
            KeyCode::Delete => (
                self.with_overlay(OverlayView::ConnectInput(input.deleted())),
                RequestView::Nothing,
            ),
            KeyCode::Left => (
                self.with_overlay(
                    OverlayView::ConnectInput(
                        input.with_cursor(
                            if input.at() > 0 {
                                input.at() - 1
                            } else {
                                0
                            },
                        ),
                    ),
                ),
                RequestView::Nothing,
            ),
            KeyCode::Right => (
                self.with_overlay(
                    OverlayView::ConnectInput(
                        input.with_cursor(
                            if input.at() < input.text.len() {
                                input.at() + 1
                            } else {
                                input.at()
                            },
                        ),
                    ),
                ),
                RequestView::Nothing,
            ),
            KeyCode::Home => (
                self.with_overlay(OverlayView::ConnectInput(input.with_cursor(0))),
                RequestView::Nothing,
            ),
            KeyCode::End => (
                self.with_overlay(
                    OverlayView::ConnectInput(input.with_cursor(input.text.len() as int)),
                ),
                RequestView::Nothing,
            ),
            KeyCode::Enter => if text::trimmed(input.text).len() > 0 {
                (self, RequestView::Manual(text::trimmed(input.text)))
            } else {
                (self.with_overlay(OverlayView::Closed), RequestView::Nothing)
            },
            KeyCode::Esc => (self.with_overlay(OverlayView::Closed), RequestView::Nothing),
            _ => (self, RequestView::Nothing),
        }
    }

    /// The pane after a key in the key editor.
    pub open spec fn editor_keyed(
        self,
        e: EditorView,
        code: KeyCode,
        ctrl: bool,
        alt: bool,
        shift: bool,
    ) -> (ConnectPaneView, RequestView) {
        let row = cursor_row(e.list_state);
        if e.editing {
            if code == KeyCode::Esc {
                (
                    self.with_overlay(
                        OverlayView::KeyEditor(
                            EditorView { editing: false, status: Some("Cancelled"@), ..e },
                        ),
                    ),
                    RequestView::Nothing,
                )
            } else {
                match binding_in_row(row) {
                    Some(i) => (
                        self.with_overlay(
                            OverlayView::KeyEditor(
                                EditorView { editing: false, status: Some("Saved!"@), ..e },
                            ),
                        ),
                        RequestView::Bind(i, KeyBinding { code, ctrl, alt, shift }),
                    ),
                    None => (self, RequestView::Nothing),
                }
            }
        } else {
            match code {
                KeyCode::Up => (
                    self.with_overlay(
                        OverlayView::KeyEditor(
                            EditorView {
                                list_state: e.list_state.with_selected(Some(editor_row_above(row))),
                                ..e
                            },
                        ),
                    ),
                    RequestView::Nothing,
                ),
                KeyCode::Down => (
                    self.with_overlay(
                        OverlayView::KeyEditor(
                            EditorView {
                                list_state: e.list_state.with_selected(Some(editor_row_below(row))),
                                ..e
                            },
                        ),
                    ),
                    RequestView::Nothing,
                ),
                KeyCode::Enter => if binding_in_row(row) is Some {
                    (
                        self.with_overlay(
                            OverlayView::KeyEditor(
                                EditorView { editing: true, status: None, ..e },
                            ),
                        ),
                        RequestView::Nothing,
                    )
                } else {
                    (self, RequestView::Nothing)
                },
                KeyCode::Esc => (self.with_overlay(OverlayView::Closed), RequestView::Nothing),
                _ => (self, RequestView::Nothing),
            }
        }
    }

    /// The pane after a key when nothing lies over the list.
    pub open spec fn list_keyed(
        self,
        code: KeyCode,
        ctrl: bool,
        alt: bool,
        shift: bool,
        b: ConnectBindings,
    ) -> (ConnectPaneView, RequestView) {
        if b.select_prev.fits(code, ctrl, alt, shift) {
            (
                ConnectPaneView { list_state: self.list_state.retreated(), ..self },
                RequestView::Nothing,
            )
        } else if b.select_next.fits(code, ctrl, alt, shift) {
            (
                ConnectPaneView { list_state: self.list_state.advanced(), ..self },
                RequestView::Nothing,
            )
        } else if b.connect.fits(code, ctrl, alt, shift) {
            (
                self,
                match self.list_state.selected {
                    Some(i) => RequestView::Session(i),
                    None => RequestView::Nothing,
                },
            )
        } else if b.browser_menu.fits(code, ctrl, alt, shift) {
            (
                self.with_overlay(OverlayView::BrowserMenu(ListState::at_first())),
                RequestView::Nothing,
            )
        } else if b.manual_connect.fits(code, ctrl, alt, shift) {
            (self.with_overlay(OverlayView::ConnectInput(InputView::blank())), RequestView::Nothing)
        } else if b.help.fits(code, ctrl, alt, shift) {
            (self.with_overlay(OverlayView::KeyEditor(EditorView::opened())), RequestView::Nothing)
        } else if code == KeyCode::Esc {
            (self.with_overlay(OverlayView::Closed), RequestView::Nothing)
        } else {
            (self, RequestView::Nothing)
        }
    }

    /// The pane after a key, and what the key asks for.
    pub open spec fn keyed(
        self,
        code: KeyCode,
        ctrl: bool,
        alt: bool,
        shift: bool,
        b: ConnectBindings,
    ) -> (ConnectPaneView, RequestView) {
        match self.overlay {
            OverlayView::BrowserMenu(menu) => self.menu_keyed(menu, code),
            OverlayView::ConnectInput(input) => self.input_keyed(input, code, ctrl, alt),
            OverlayView::KeyEditor(e) => self.editor_keyed(e, code, ctrl, alt, shift),
            OverlayView::Closed => self.list_keyed(code, ctrl, alt, shift, b),
        }
    }
}

impl ConnectPane {
    /// The pane when it is opened.
    pub fn new() -> (r: ConnectPane)
        ensures
            r@ == ConnectPaneView::opened(),
    {
        ConnectPane { list_state: ListState::first(), overlay: ConnectOverlay::Closed }
    }

    /// Whether the next key becomes the combination of a binding.
    pub fn is_capturing(&self) -> (r: bool)
        ensures
            r == self@.capturing(),
    {
        match &self.overlay {
            ConnectOverlay::KeyEditor(e) => e.editing,
            _ => false,
        }
    }

    /// Handles a key. What it asks of the application is returned.
    pub fn handle_key(
        &mut self,
        code: KeyCode,
        ctrl: bool,
        alt: bool,
        shift: bool,
        bindings: &ConnectBindings,
    ) -> (r: ConnectRequest)
        ensures
            (final(self)@, r@) == old(self)@.keyed(code, ctrl, alt, shift, *bindings),
    {
        let hosts: ListState = self.list_state;
        let mut close = false;
        let mut request = ConnectRequest::Nothing;
        match &mut self.overlay {
            ConnectOverlay::BrowserMenu(menu) => match code {
                KeyCode::Up => menu.select_previous(),
                KeyCode::Down => menu.select_next(),
                KeyCode::Enter => {
                    close = true;
                    if let Some(host) = hosts.selected() {
                        if let Some(item) = menu.selected() {
                            if item == 0 {
                                request = ConnectRequest::Sftp(host);
                            } else if item == 1 {
                                request = ConnectRequest::Scp(host);
                            }
                        }
                    }
                },
                KeyCode::Esc => {
                    close = true;
                },
                _ => {},
            },
            ConnectOverlay::ConnectInput(input) => match code {
                KeyCode::Char(c) => {
                    if !ctrl || alt {
                        input.insert(c);
                    }
                },
                KeyCode::Backspace => input.backspace(),
                KeyCode::Delete => input.delete(),
                KeyCode::Left => input.move_left(),
                KeyCode::Right => input.move_right(),
                KeyCode::Home => input.move_home(),
                KeyCode::End => input.move_end(),
                KeyCode::Enter => {
                    let args = trim_str(input.text.as_str());
                    if args.as_str().is_empty() {
                        close = true;
                    } else {
                        request = ConnectRequest::Manual(args);
                    }
                },
                KeyCode::Esc => {
                    close = true;
                },
                _ => {},
            },
            ConnectOverlay::KeyEditor(e) => {
                let row: usize = match e.list_state.selected() {
                    Some(i) => i,
                    None => 0,
                };
                if e.editing {
                    if code == KeyCode::Esc {
                        e.editing = false;
                        e.status = Some("Cancelled".to_owned());
                    } else if let Some(i) = editor_binding_index(row) {
                        request = ConnectRequest::Bind(
                            i,
                            KeyBinding::new(code, ctrl, alt, shift),
                        );
                        e.editing = false;
                        e.status = Some("Saved!".to_owned());
                    }
                } else {
                    match code {
                        KeyCode::Up => editor_nav_up(&mut e.list_state),
                        KeyCode::Down => editor_nav_down(&mut e.list_state),
                        KeyCode::Enter => {
                            if editor_binding_index(row).is_some() {
                                e.editing = true;
                                e.status = None;
                            }
                        },
                        KeyCode::Esc => {
                            close = true;
                        },
                        _ => {},
                    }
                }
            },
            ConnectOverlay::Closed => {
                request = self.handle_list_key(code, ctrl, alt, shift, bindings);
            },
        }
        if close {
            self.overlay = ConnectOverlay::Closed;
        }
        request
    }

    fn handle_list_key(
        &mut self,
        code: KeyCode,
        ctrl: bool,
        alt: bool,
        shift: bool,
        bindings: &ConnectBindings,
    ) -> (r: ConnectRequest)
        ensures
            (final(self)@, r@) == old(self)@.list_keyed(code, ctrl, alt, shift, *bindings),
    {
        if bindings.select_prev.matches(code, ctrl, alt, shift) {
            self.list_state.select_previous();
        } else if bindings.select_next.matches(code, ctrl, alt, shift) {
            self.list_state.select_next();
        } else if bindings.connect.matches(code, ctrl, alt, shift) {
            if let Some(i) = self.list_state.selected() {
                return ConnectRequest::Session(i);
            }
        } else if bindings.browser_menu.matches(code, ctrl, alt, shift) {
            self.overlay = ConnectOverlay::BrowserMenu(ListState::first());
        } else if bindings.manual_connect.matches(code, ctrl, alt, shift) {
            self.overlay = ConnectOverlay::ConnectInput(InputField::new());
        } else if bindings.help.matches(code, ctrl, alt, shift) {
            self.overlay = ConnectOverlay::KeyEditor(KeyEditorState::new());
        } else if code == KeyCode::Esc {
            self.overlay = ConnectOverlay::Closed;
        }
        ConnectRequest::Nothing
    }
}

/// Every binding of the table is shown in exactly one row of the key editor.
pub proof fn law_editor_shows_every_binding(i: usize)
    requires
        i < crate::keybindings::GROUP_SIZES[0] + crate::keybindings::GROUP_SIZES[1]
            + crate::keybindings::GROUP_SIZES[2],
    ensures
        exists|row: usize| #[trigger] binding_in_row(row) == Some(i),
        forall|a: usize, b: usize|
            #[trigger] binding_in_row(a) == Some(i) && #[trigger] binding_in_row(b) == Some(i)
                ==> a == b,
{
    let row: usize = (if i < 12 {
        i + 1
    } else if i < 18 {
        i + 2
    } else {
        i + 3
    }) as usize;
    assert(binding_in_row(row) == Some(i));
}

/// From a row that shows a binding the cursor of the key editor only moves to
/// rows that show a binding.
pub proof fn law_editor_cursor_avoids_headings(row: usize)
    requires
        binding_in_row(row) is Some,
    ensures
        binding_in_row(editor_row_above(row)) is Some,
        binding_in_row(editor_row_below(row)) is Some,
{
}

} // verus!
