//! Events and what they do: keys, pasted text and the mouse.
use vstd::prelude::*;
use crate::text;
use crate::app::{App, AppView, OpenRequest, OpenView};
use crate::browser::common::keys::Moment;
use crate::browser::common::{BrowserCore, CoreView};
use crate::browser::sftp::SftpView;
use crate::browser::ssh::{SshBrowser, SshView};
use crate::connect::{ConnectOverlay, OverlayView};
use crate::event::KeyCode;
use crate::geometry::Rect;
use crate::pane::{Pane, PaneView};
use crate::text::{cat3, chars_of, control};

pub mod action_laws;
pub mod browser;
pub mod connect;
pub mod effect_laws;
pub mod global;
pub mod key_laws;
pub mod mouse;
pub mod mouse_laws;
pub mod session;

use self::browser::handle_browser_key_dispatch;
use self::connect::handle_connect_key;
use self::global::handle_global_key;
use self::session::handle_session_key;

verus! {

/// What the main loop is to do after an event.
#[derive(Clone, Copy, Debug, PartialEq, Eq, Structural)]
pub enum Action {
    Continue,
    Quit,
}

// ---------------------------------------------------------------------------
// Panes whose process has ended
// ---------------------------------------------------------------------------

/// Whether the process of a leaf has ended.
pub open spec fn has_ended(p: PaneView) -> bool {
    match p {
        PaneView::Session { terminal, .. } => terminal.exited,
        PaneView::FileBrowser { browser } => browser.sftp.exited,
        PaneView::SshBrowser { browser } => browser.ssh.exited,
        _ => false,
    }
}

/// What is chosen in a leaf whose process has ended.
pub open spec fn exit_choice(p: PaneView) -> u8 {
    match p {
        PaneView::Session { exit_selection, .. } => exit_selection,
        PaneView::FileBrowser { browser } => browser.core.exit_selection,
        PaneView::SshBrowser { browser } => browser.core.exit_selection,
        _ => 0,
    }
}

/// The leaf with the other choice.
pub open spec fn with_other_choice(p: PaneView) -> PaneView {
    match p {
        PaneView::Session { terminal, ssh_args, exit_selection } => PaneView::Session {
            terminal,
            ssh_args,
            exit_selection: exit_selection ^ 1u8,
        },
        PaneView::FileBrowser { browser } => PaneView::FileBrowser {
            browser: SftpView {
                core: CoreView {
                    exit_selection: browser.core.exit_selection ^ 1u8,
                    ..browser.core
                },
                ..browser
            },
        },
        PaneView::SshBrowser { browser } => PaneView::SshBrowser {
            browser: SshView {
                core: CoreView {
                    exit_selection: browser.core.exit_selection ^ 1u8,
                    ..browser.core
                },
                ..browser
            },
        },
        _ => p,
    }
}

/// What is to be started in the place of a leaf whose process has ended.
pub open spec fn reconnection(p: PaneView) -> Option<OpenView> {
    match p {
        PaneView::Session { ssh_args, .. } => Some(OpenView::Manual(ssh_args)),
        PaneView::FileBrowser { browser } => Some(OpenView::SftpAgain(browser.core.host)),
        PaneView::SshBrowser { browser } => Some(OpenView::ScpAgain(browser.core.host)),
        _ => None,
    }
}

impl Pane {
    /// Whether the process of the leaf has ended.
    pub fn process_exited(&self) -> (r: bool)
        ensures
            r == has_ended(self@),
    {
        match self {
            Pane::Session { terminal, .. } => terminal.process_exited(),
            Pane::FileBrowser { browser } => browser.process_exited(),
            Pane::SshBrowser { browser } => browser.process_exited(),
            _ => false,
        }
    }

    /// What is chosen in the leaf once its process has ended.
    pub fn exit_selection(&self) -> (r: u8)
        ensures
            r == exit_choice(self@),
    {
        match self {
            Pane::Session { exit_selection, .. } => *exit_selection,
            Pane::FileBrowser { browser } => browser.core.exit_selection,
            Pane::SshBrowser { browser } => browser.core.exit_selection,
            _ => 0,
        }
    }

    /// Changes to the other choice.
    pub fn toggle_exit_selection(&mut self)
        ensures
            final(self)@ == with_other_choice(old(self)@),
    {
        match self {
            Pane::Session { exit_selection, .. } => {
                *exit_selection = *exit_selection ^ 1;
            },
            Pane::FileBrowser { browser } => {
                browser.core.exit_selection = browser.core.exit_selection ^ 1;
            },
            Pane::SshBrowser { browser } => {
                browser.core.exit_selection = browser.core.exit_selection ^ 1;
            },
            _ => {},
        }
    }

    /// What is to be started in the place of the leaf.
    pub fn reconnect_request(&self) -> (r: Option<OpenRequest>)
        ensures
            (match r {
                Some(q) => Some(q@),
                None => None,
            }) == reconnection(self@),
    {
        match self {
            Pane::Session { ssh_args, .. } => Some(OpenRequest::Manual(ssh_args.clone())),
            Pane::FileBrowser { browser } => Some(
                OpenRequest::SftpAgain(browser.core.host.clone()),
            ),
            Pane::SshBrowser { browser } => Some(OpenRequest::ScpAgain(browser.core.host.clone())),
            _ => None,
        }
    }
}

impl AppView {
    /// Whether the process of the pane with the focus has ended.
    pub open spec fn focused_ended(self) -> bool {
        match self.focused() {
            Some(p) => has_ended(p),
            None => false,
        }
    }

    /// Whether `now` is the application after a key for a pane whose process has
    /// ended: the choice is changed, or followed.
    pub open spec fn is_exit_keyed(self, now: AppView, code: KeyCode, full: Rect) -> bool {
        match self.focused() {
            Some(p) => match code {
                KeyCode::Left | KeyCode::Right => now == self.with_focused(with_other_choice(p)),
                KeyCode::Enter => if exit_choice(p) == 0 {
                    now == (AppView { request: reconnection(p), ..self })
                } else {
                    self.is_closed_to(now, full)
                },
                _ => now == self,
            },
            None => now == self,
        }
    }
}

/// Handles a key for a pane whose process has ended. Returns whether the pane
/// with the focus is one.
pub fn handle_exit_overlay_key(app: &mut App, code: KeyCode, last_area: Rect) -> (r: bool)
    requires
        old(app)@.valid(),
    ensures
        r == old(app)@.focused_ended(),
        r ==> old(app)@.is_exit_keyed(final(app)@, code, last_area),
        !r ==> final(app)@ == old(app)@,
        final(app)@.valid(),
{
    let ended = match app.tab().focused_pane() {
        Some(p) => p.process_exited(),
        None => false,
    };
    if !ended {
        return false;
    }
    match code {
        KeyCode::Left | KeyCode::Right => {
            if let Some(pane) = app.focused_pane_mut() {
                pane.toggle_exit_selection();
            }
        },
        KeyCode::Enter => {
            let (choice, request) = match app.tab().focused_pane() {
                Some(p) => (p.exit_selection(), p.reconnect_request()),
                None => (0, None),
            };
            if choice == 0 {
                app.request = request;
            } else {
                app.close_focused_or_tab(last_area);
            }
        },
        _ => {},
    }
    true
}

// ---------------------------------------------------------------------------
// Keys
// ---------------------------------------------------------------------------

impl AppView {
    /// Whether the next key becomes the combination of a binding.
    pub open spec fn capturing(self) -> bool {
        match self.focused() {
            Some(PaneView::Connect(c)) => c.capturing(),
            _ => false,
        }
    }

    /// Whether `now` is the application after a key. An open menu is closed by
    /// any key. Keys that work in every pane come first, unless the key becomes
    /// the combination of a binding; then the pane with the focus gets the key.
    /// In a session, keys with the alt key that are not characters do nothing.
    pub open spec fn is_keyed(
        self,
        now: AppView,
        action: Action,
        code: KeyCode,
        ctrl: bool,
        alt: bool,
        shift: bool,
        full: Rect,
        time: u64,
        dirs: Seq<bool>,
    ) -> bool {
        if self.menu is Some {
            action == Action::Continue && now == (AppView { menu: None, ..self })
        } else if !self.capturing() && crate::input::global::is_global(
            self.keybindings.global,
            code,
            ctrl,
            alt,
            shift,
        ) {
            self.is_global_keyed(now, action, code, ctrl, alt, shift, full)
        } else {
            action == Action::Continue && self.is_pane_keyed(
                now,
                code,
                ctrl,
                alt,
                shift,
                full,
                time,
                dirs,
            )
        }
    }

    /// Whether `now` is the application after a key for the pane with the focus.
    #[verifier::opaque]
    pub open spec fn is_pane_keyed(
        self,
        now: AppView,
        code: KeyCode,
        ctrl: bool,
        alt: bool,
        shift: bool,
        full: Rect,
        time: u64,
        dirs: Seq<bool>,
    ) -> bool {
        if self.focused() matches Some(PaneView::Connect(_)) {
            now == self.connect_keyed(code, ctrl, alt, shift)
        } else if self.focused_ended() {
            self.is_exit_keyed(now, code, full)
        } else if self.browser_focused() {
            now == self.browser_keyed(code, ctrl, alt, shift, time, dirs)
        } else if alt && !ctrl && !(code is Char) {
            now == self
        } else {
            now == self.session_keyed(code, ctrl, alt, self.app_cursor())
        }
    }
}

/// Handles a key.
pub fn handle_key(
    app: &mut App,
    code: KeyCode,
    ctrl: bool,
    alt: bool,
    shift: bool,
    last_area: Rect,
    at: &Moment,
) -> (r: Action)
    requires
        old(app)@.valid(),
    ensures
        old(app)@.is_keyed(
            final(app)@,
            r,
            code,
            ctrl,
            alt,
            shift,
            last_area,
            at.now,
            at.drop_is_dir@,
        ),
        final(app)@.valid(),
{
    if app.context_menu.is_some() {
        app.context_menu = None;
        return Action::Continue;
    }
    let capturing = match app.tab().focused_pane() {
        Some(Pane::Connect(c)) => c.is_capturing(),
        _ => false,
    };
    if !capturing {
        if let Some(action) = handle_global_key(app, code, ctrl, alt, shift, last_area) {
            return action;
        }
    }
    handle_pane_key(app, code, ctrl, alt, shift, last_area, at);
    Action::Continue
}

fn handle_pane_key(
    app: &mut App,
    code: KeyCode,
    ctrl: bool,
    alt: bool,
    shift: bool,
    last_area: Rect,
    at: &Moment,
)
    requires
        old(app)@.valid(),
    ensures
        old(app)@.is_pane_keyed(
            final(app)@,
            code,
            ctrl,
            alt,
            shift,
            last_area,
            at.now,
            at.drop_is_dir@,
        ),
        final(app)@.valid(),
{
    reveal(AppView::is_pane_keyed);
    if handle_connect_key(app, code, ctrl, alt, shift).is_some() {
        return ;
    }
    if handle_exit_overlay_key(app, code, last_area) {
        return ;
    }
    if handle_browser_key_dispatch(app, code, ctrl, alt, shift, at).is_some() {
        return ;
    }
    if alt && !ctrl && !matches!(code, KeyCode::Char(_)) {
        return ;
    }
    let app_cursor = app.focused_pane_app_cursor();
    handle_session_key(app, code, ctrl, alt, app_cursor);
}

// ---------------------------------------------------------------------------
// Pasted text
// ---------------------------------------------------------------------------

/// How long after a paste a browser waits for more, in milliseconds.
pub const PASTE_WAIT_MS: u64 = 50;

impl SshView {
    /// The browser with the first `n` characters of a paste typed into the
    /// password, without control characters.
    pub open spec fn password_pasted(self, text: Seq<char>, n: int) -> SshView
        decreases n,
    {
        if n <= 0 {
            self
        } else {
            let before = self.password_pasted(text, n - 1);
            if text::is_control(text[n - 1]) {
                before
            } else {
                before.password_typed(text[n - 1])
            }
        }
    }
}

impl CoreView {
    /// The browser after text was pasted that may be file names.
    pub open spec fn text_pasted(self, text: Seq<char>, now: u64) -> CoreView {
        CoreView {
            paste_buf: self.paste_buf + text,
            paste_deadline: Some(
                if now + PASTE_WAIT_MS <= u64::MAX {
                    (now + PASTE_WAIT_MS) as u64
                } else {
                    u64::MAX
                },
            ),
            ..self
        }
    }
}

/// The leaf after text was pasted. A session gets it between the marks of a
/// bracketed paste; a password is typed without control characters, so that a
/// trailing newline does not send it; a browser waits whether the text turns out
/// to be file names; a line of input gets it without control characters.
pub open spec fn leaf_pasted(p: PaneView, text: Seq<char>, now: u64) -> PaneView {
    match p {
        PaneView::Session { terminal, ssh_args, exit_selection } => PaneView::Session {
            terminal: terminal.sent("\x1b[200~"@ + text + "\x1b[201~"@),
            ssh_args,
            exit_selection,
        },
        PaneView::SshBrowser { browser } => PaneView::SshBrowser {
            browser: if browser.asking {
                browser.password_pasted(text, text.len() as int)
            } else {
                SshView { core: browser.core.text_pasted(text, now), ..browser }
            },
        },
        PaneView::FileBrowser { browser } => PaneView::FileBrowser {
            browser: SftpView { core: browser.core.text_pasted(text, now), ..browser },
        },
        PaneView::Connect(c) => match c.overlay {
            OverlayView::ConnectInput(i) => PaneView::Connect(
                c.with_overlay(
                    OverlayView::ConnectInput(i.with_pasted(text, text.len() as int)),
                ),
            ),
            _ => p,
        },
        PaneView::Split { .. } => p,
    }
}

fn paste_into_core(core: &mut BrowserCore, text: &str, now: u64)
    ensures
        final(core)@ == old(core)@.text_pasted(text@, now),
{
    core.paste_buf.append(text);
    core.paste_deadline = Some(now.saturating_add(PASTE_WAIT_MS));
    assert(core@ =~= old(core)@.text_pasted(text@, now));
}

fn paste_password(browser: &mut SshBrowser, text: &str)
    ensures
        final(browser)@ == old(browser)@.password_pasted(text@, text@.len() as int),
{
    let v = chars_of(text);
    let mut i: usize = 0;
    while i < v.len()
        invariant
            v@ == text@,
            i <= v@.len(),
            browser@ == old(browser)@.password_pasted(text@, i as int),
        decreases v@.len() - i,
    {
        if !control(v[i]) {
            browser.password_char(v[i]);
        }
        i += 1;
    }
}

fn paste_on_leaf(pane: &mut Pane, text: &str, now: u64)
    ensures
        final(pane)@ == leaf_pasted(old(pane)@, text@, now),
{
    match pane {
        Pane::Session { terminal, .. } => {
            terminal.send_str(cat3("\x1b[200~", text, "\x1b[201~").as_str());
        },
        Pane::SshBrowser { browser } => {
            if browser.waiting_password {
                paste_password(browser, text);
            } else {
                paste_into_core(&mut browser.core, text, now);
            }
        },
        Pane::FileBrowser { browser } => paste_into_core(&mut browser.core, text, now),
        Pane::Connect(c) => {
            if let ConnectOverlay::ConnectInput(input) = &mut c.overlay {
                input.paste(text);
            }
        },
        Pane::Split { .. } => {},
    }
}

/// Handles text that was pasted.
pub fn handle_paste(app: &mut App, text: &str, now: u64)
    requires
        old(app)@.valid(),
    ensures
        final(app)@ == (match old(app)@.focused() {
            Some(p) => old(app)@.with_focused(leaf_pasted(p, text@, now)),
            None => old(app)@,
        }),
        final(app)@.valid(),
{
    if let Some(pane) = app.focused_pane_mut() {
        paste_on_leaf(pane, text, now);
    }
}

/// An open menu is closed by any key, and the key does nothing else.
pub proof fn law_menu_takes_the_key(
    a: AppView,
    b: AppView,
    action: Action,
    code: KeyCode,
    ctrl: bool,
    alt: bool,
    shift: bool,
    full: Rect,
    time: u64,
    dirs: Seq<bool>,
)
    requires
        a.menu is Some,
        a.is_keyed(b, action, code, ctrl, alt, shift, full, time, dirs),
    ensures
        action == Action::Continue,
        b == (AppView { menu: None, ..a }),
{
}

/// While a binding is being changed no key leaves the application: the key
/// becomes the combination of the binding.
pub proof fn law_capture_never_quits(
    a: AppView,
    b: AppView,
    action: Action,
    code: KeyCode,
    ctrl: bool,
    alt: bool,
    shift: bool,
    full: Rect,
    time: u64,
    dirs: Seq<bool>,
)
    requires
        a.capturing(),
        a.is_keyed(b, action, code, ctrl, alt, shift, full, time, dirs),
    ensures
        action == Action::Continue,
{
}

/// The key for leaving the application leaves it from every pane, and no other
/// key does, but for an open menu and a binding that is being changed.
pub proof fn law_one_key_quits(
    a: AppView,
    b: AppView,
    action: Action,
    code: KeyCode,
    ctrl: bool,
    alt: bool,
    shift: bool,
    full: Rect,
    time: u64,
    dirs: Seq<bool>,
)
    requires
        a.menu is None,
        !a.capturing(),
        a.is_keyed(b, action, code, ctrl, alt, shift, full, time, dirs),
    ensures
        action == Action::Quit <==> a.keybindings.global.quit.fits(code, ctrl, alt, shift),
        action == Action::Quit ==> b == a,
{
}

/// Changing the choice twice gives back the choice.
pub proof fn law_choice_changes_back(p: PaneView)
    ensures
        with_other_choice(with_other_choice(p)) == p,
{
    let x = exit_choice(p);
    assert((x ^ 1u8) ^ 1u8 == x) by (bit_vector);
    assert(with_other_choice(with_other_choice(p)) =~= p);
}

} // verus!
