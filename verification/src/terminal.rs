//! A terminal session as plain data: the input that the process behind it has
//! not been given yet, and what is known of its screen.
use vstd::prelude::*;
use crate::text;

verus! {

/// A session in a terminal.
#[derive(Debug)]
pub struct EmbeddedTerminal {
    /// The number by which the application knows the process.
    pub id: u64,
    pub rows: u16,
    pub cols: u16,
    /// What is to be written to the process, in order.
    pub outbox: Vec<String>,
    /// Whether the process has ended.
    pub exited: bool,
    /// Whether output has arrived since the last look.
    pub dirty: bool,
    /// Whether cursor keys send application sequences.
    pub app_cursor: bool,
    /// Whether the process wants mouse events.
    pub mouse_active: bool,
    /// Whether the process wants to know of every movement of the mouse.
    pub mouse_wants_motion: bool,
    /// Whether the alternate screen is shown.
    pub alternate_screen: bool,
    /// The number of lines by which the view is scrolled back.
    pub scroll: usize,
}

/// What is known of a session.
#[verifier::ext_equal]
pub struct TermView {
    pub id: u64,
    pub rows: u16,
    pub cols: u16,
    pub outbox: Seq<Seq<char>>,
    pub exited: bool,
    pub dirty: bool,
    pub app_cursor: bool,
    pub mouse_active: bool,
    pub mouse_wants_motion: bool,
    pub alternate_screen: bool,
    pub scroll: usize,
}

impl View for EmbeddedTerminal {
    type V = TermView;

    open spec fn view(&self) -> TermView {
        TermView {
            id: self.id,
            rows: self.rows,
            cols: self.cols,
            outbox: text::texts(self.outbox@),
            exited: self.exited,
            dirty: self.dirty,
            app_cursor: self.app_cursor,
            mouse_active: self.mouse_active,
            mouse_wants_motion: self.mouse_wants_motion,
            alternate_screen: self.alternate_screen,
            scroll: self.scroll,
        }
    }
}

impl TermView {
    /// A session that has just been started.
    pub open spec fn started(id: u64, rows: u16, cols: u16) -> TermView {
        TermView {
            id,
            rows,
            cols,
            outbox: Seq::empty(),
            exited: false,
            dirty: false,
            app_cursor: false,
            mouse_active: false,
            mouse_wants_motion: false,
            alternate_screen: false,
            scroll: 0,
        }
    }

    /// The session after `s` was sent.
    pub open spec fn sent(self, s: Seq<char>) -> TermView {
        TermView { outbox: self.outbox.push(s), ..self }
    }

    /// The session with a screen of another size.
    pub open spec fn resized(self, rows: u16, cols: u16) -> TermView {
        TermView { rows, cols, ..self }
    }

    /// The session scrolled by `n` lines, back in time or forward.
    pub open spec fn scrolled(self, n: usize, back: bool) -> TermView {
        TermView {
            scroll: if back {
                if self.scroll + n <= usize::MAX {
                    (self.scroll + n) as usize
                } else {
                    usize::MAX
                }
            } else if self.scroll >= n {
                (self.scroll - n) as usize
            } else {
                0
            },
            ..self
        }
    }

    /// Whether mouse events are for the process.
    pub open spec fn wants_mouse(self) -> bool {
        self.mouse_active && !self.exited
    }
}

impl EmbeddedTerminal {
    /// A session that has just been started.
    pub fn new(id: u64, rows: u16, cols: u16) -> (r: EmbeddedTerminal)
        ensures
            r@ == TermView::started(id, rows, cols),
    {
        let r = EmbeddedTerminal {
            id,
            rows,
            cols,
            outbox: Vec::new(),
            exited: false,
            dirty: false,
            app_cursor: false,
            mouse_active: false,
            mouse_wants_motion: false,
            alternate_screen: false,
            scroll: 0,
        };
        assert(r@ =~= TermView::started(id, rows, cols));
        r
    }

    /// Sends text to the process.
    pub fn send_str(&mut self, s: &str)
        ensures
            final(self)@ == old(self)@.sent(s@),
    {
        self.outbox.push(s.to_owned());
        assert(self@ =~= old(self)@.sent(s@));
    }

    /// Sends one character to the process.
    pub fn send_char(&mut self, c: char)
        ensures
            final(self)@ == old(self)@.sent(seq![c]),
    {
        let mut s = String::new();
        s.push(c);
        assert(s@ =~= seq![c]);
        self.outbox.push(s);
        assert(self@ =~= old(self)@.sent(seq![c]));
    }

    /// Takes what is to be written to the process.
    pub fn take_outbox(&mut self) -> (r: Vec<String>)
        ensures
            text::texts(r@) == old(self)@.outbox,
            final(self)@ == (TermView { outbox: Seq::empty(), ..old(self)@ }),
    {
        let mut r: Vec<String> = Vec::new();
        r.append(&mut self.outbox);
        assert(text::texts(r@) =~= old(self)@.outbox);
        assert(self@ =~= (TermView { outbox: Seq::empty(), ..old(self)@ }));
        r
    }

    /// Gives the screen another size.
    pub fn resize(&mut self, rows: u16, cols: u16)
        ensures
            final(self)@ == old(self)@.resized(rows, cols),
    {
        self.rows = rows;
        self.cols = cols;
    }

    /// Shows the latest output.
    pub fn reset_scroll(&mut self)
        ensures
            final(self)@ == (TermView { scroll: 0, ..old(self)@ }),
    {
        self.scroll = 0;
    }

    /// Scrolls back by `n` lines.
    pub fn scroll_up(&mut self, n: usize)
        ensures
            final(self)@ == old(self)@.scrolled(n, true),
    {
        self.scroll = self.scroll.saturating_add(n);
    }

    /// Scrolls forward by `n` lines.
    pub fn scroll_down(&mut self, n: usize)
        ensures
            final(self)@ == old(self)@.scrolled(n, false),
    {
        self.scroll = self.scroll.saturating_sub(n);
    }

    /// Whether the process has ended.
    pub fn process_exited(&self) -> (r: bool)
        ensures
            r == self@.exited,
    {
        self.exited
    }

    /// Whether output has arrived since the last look.
    pub fn take_dirty(&mut self) -> (r: bool)
        ensures
            r == old(self)@.dirty,
            final(self)@ == (TermView { dirty: false, ..old(self)@ }),
    {
        let r = self.dirty;
        self.dirty = false;
        r
    }
}

} // verus!
