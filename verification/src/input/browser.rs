//! Keys for the file browsers.
use vstd::prelude::*;
use crate::app::{App, AppView};
use crate::browser::common::keys::{handle_browser_key, Moment};
use crate::browser::common::{BrowserKeyAction, TransferDirection};
use crate::browser::sftp::{FileBrowser, SftpState, SftpView};
use crate::browser::ssh::{SshBrowser, SshView};
use crate::event::KeyCode;
use crate::keybindings::BrowserBindings;
use crate::pane::{Pane, PaneView};
use super::Action;

verus! {

impl SftpView {
    /// The browser after it was told what a key asks for.
    pub open spec fn acted(self, action: BrowserKeyAction, now: u64) -> SftpView {
        match action {
            BrowserKeyAction::Enter => self.entered(now),
            BrowserKeyAction::GoUp => self.went_up(now),
            BrowserKeyAction::Download => self.transfer_asked(TransferDirection::Download, now),
            BrowserKeyAction::Upload => self.transfer_asked(TransferDirection::Upload, now),
            BrowserKeyAction::Delete => self.delete_asked(),
            BrowserKeyAction::ConfirmDeleteYes => self.delete_confirmed(),
            BrowserKeyAction::Handled => self,
        }
    }

    /// The browser after a key. While it connects, keys go to the process.
    /// Characters with the control or the alt key do nothing, unless file names
    /// are being pasted.
    #[verifier::opaque]
    pub open spec fn pressed(
        self,
        code: KeyCode,
        ctrl: bool,
        alt: bool,
        shift: bool,
        b: BrowserBindings,
        now: u64,
        dirs: Seq<bool>,
    ) -> SftpView {
        if self.state == SftpState::Connecting {
            self.connect_keyed(code)
        } else if (ctrl || alt) && code is Char && self.core.paste_buf.len() == 0 {
            self
        } else {
            let (core, action) = self.core.keyed(code, ctrl, alt, shift, b, now, dirs);
            (SftpView { core, ..self }).acted(action, now)
        }
    }
}

impl SshView {
    /// The browser after it was told what a key asks for.
    pub open spec fn acted(self, action: BrowserKeyAction, now: u64) -> SshView {
        match action {
            BrowserKeyAction::Enter => self.entered(now),
            BrowserKeyAction::GoUp => self.went_up(now),
            BrowserKeyAction::Download => self.transfer_asked(TransferDirection::Download),
            BrowserKeyAction::Upload => self.transfer_asked(TransferDirection::Upload),
            BrowserKeyAction::Delete => self.delete_asked(),
            BrowserKeyAction::ConfirmDeleteYes => self.delete_confirmed(),
            BrowserKeyAction::Handled => self,
        }
    }

    /// The browser after a key. While it asks for a password, the key belongs
    /// to the password; while it connects, keys go to the process.
    #[verifier::opaque]
    pub open spec fn pressed(
        self,
        code: KeyCode,
        ctrl: bool,
        alt: bool,
        shift: bool,
        b: BrowserBindings,
        now: u64,
        dirs: Seq<bool>,
    ) -> SshView {
        if self.asking {
            self.password_keyed(code)
        } else if self.connecting() {
            self.connect_keyed(code)
        } else if (ctrl || alt) && code is Char && self.core.paste_buf.len() == 0 {
            self
        } else {
            let (core, action) = self.core.keyed(code, ctrl, alt, shift, b, now, dirs);
            (SshView { core, ..self }).acted(action, now)
        }
    }
}

impl FileBrowser {
    fn act(&mut self, action: BrowserKeyAction, now: u64)
        ensures
            final(self)@ == old(self)@.acted(action, now),
    {
        match action {
            BrowserKeyAction::Enter => self.enter(now),
            BrowserKeyAction::GoUp => self.go_up(now),
            BrowserKeyAction::Download => self.download(now),
            BrowserKeyAction::Upload => self.upload(now),
            BrowserKeyAction::Delete => self.delete_focused(),
            BrowserKeyAction::ConfirmDeleteYes => self.confirm_delete_yes(),
            BrowserKeyAction::Handled => {},
        }
    }

    /// Handles a key.
    pub fn press(
        &mut self,
        code: KeyCode,
        ctrl: bool,
        alt: bool,
        shift: bool,
        bindings: &BrowserBindings,
        at: &Moment,
    )
        ensures
            final(self)@ == old(self)@.pressed(
                code,
                ctrl,
                alt,
                shift,
                *bindings,
                at.now,
                at.drop_is_dir@,
            ),
    {
        reveal(SftpView::pressed);
        if self.is_connecting() {
            self.send_connect_key(code);
            return ;
        }
        if (ctrl || alt) && matches!(code, KeyCode::Char(_))
            && self.core.paste_buf.as_str().is_empty() {
            return ;
        }
        let action = handle_browser_key(&mut self.core, code, ctrl, alt, shift, bindings, at);
        self.act(action, at.now);
    }
}

impl SshBrowser {
    fn act(&mut self, action: BrowserKeyAction, now: u64)
        ensures
            final(self)@ == old(self)@.acted(action, now),
    {
        match action {
            BrowserKeyAction::Enter => self.enter(now),
            BrowserKeyAction::GoUp => self.go_up(now),
            BrowserKeyAction::Download => self.download(),
            BrowserKeyAction::Upload => self.upload(),
            BrowserKeyAction::Delete => self.delete_focused(),
            BrowserKeyAction::ConfirmDeleteYes => self.confirm_delete_yes(),
            BrowserKeyAction::Handled => {},
        }
    }

    /// Handles a key.
    pub fn press(
        &mut self,
        code: KeyCode,
        ctrl: bool,
        alt: bool,
        shift: bool,
        bindings: &BrowserBindings,
        at: &Moment,
    )
        ensures
            final(self)@ == old(self)@.pressed(
                code,
                ctrl,
                alt,
                shift,
                *bindings,
                at.now,
                at.drop_is_dir@,
            ),
    {
        reveal(SshView::pressed);
        if self.waiting_password {
            self.handle_password_key(code);
            return ;
        }
        if self.is_connecting() {
            self.send_connect_key(code);
            return ;
        }
        if (ctrl || alt) && matches!(code, KeyCode::Char(_))
            && self.core.paste_buf.as_str().is_empty() {
            return ;
        }
        let action = handle_browser_key(&mut self.core, code, ctrl, alt, shift, bindings, at);
        self.act(action, at.now);
    }
}

/// The leaf after a key, where it is a browser.
pub open spec fn leaf_pressed(
    p: PaneView,
    code: KeyCode,
    ctrl: bool,
    alt: bool,
    shift: bool,
    b: BrowserBindings,
    now: u64,
    dirs: Seq<bool>,
) -> PaneView {
    match p {
        PaneView::FileBrowser { browser } => PaneView::FileBrowser {
            browser: browser.pressed(code, ctrl, alt, shift, b, now, dirs),
        },
        PaneView::SshBrowser { browser } => PaneView::SshBrowser {
            browser: browser.pressed(code, ctrl, alt, shift, b, now, dirs),
        },
        _ => p,
    }
}

impl AppView {
    /// Whether a file browser has the focus.
    pub open spec fn browser_focused(self) -> bool {
        match self.focused() {
            Some(p) => p is FileBrowser || p is SshBrowser,
            None => false,
        }
    }

    /// The application after a key for the browser with the focus.
    pub open spec fn browser_keyed(
        self,
        code: KeyCode,
        ctrl: bool,
        alt: bool,
        shift: bool,
        now: u64,
        dirs: Seq<bool>,
    ) -> AppView {
        match self.focused() {
            Some(p) => self.with_focused(
                leaf_pressed(p, code, ctrl, alt, shift, self.keybindings.browser, now, dirs),
            ),
            None => self,
        }
    }
}

fn press_on_leaf(
    pane: &mut Pane,
    code: KeyCode,
    ctrl: bool,
    alt: bool,
    shift: bool,
    bindings: &BrowserBindings,
    at: &Moment,
)
    ensures
        final(pane)@ == leaf_pressed(
            old(pane)@,
            code,
            ctrl,
            alt,
            shift,
            *bindings,
            at.now,
            at.drop_is_dir@,
        ),
{
    match pane {
        Pane::FileBrowser { browser } => browser.press(code, ctrl, alt, shift, bindings, at),
        Pane::SshBrowser { browser } => browser.press(code, ctrl, alt, shift, bindings, at),
        _ => {},
    }
}

/// Handles a key for the browser with the focus. Returns nothing where another
/// pane has the focus.
pub fn handle_browser_key_dispatch(
    app: &mut App,
    code: KeyCode,
    ctrl: bool,
    alt: bool,
    shift: bool,
    at: &Moment,
) -> (r: Option<Action>)
    requires
        old(app)@.valid(),
    ensures
        old(app)@.browser_focused() ==> r == Some(Action::Continue) && final(app)@ == old(
            app,
        )@.browser_keyed(code, ctrl, alt, shift, at.now, at.drop_is_dir@),
        !old(app)@.browser_focused() ==> r is None && final(app)@ == old(app)@,
        final(app)@.valid(),
{
    let is_browser = match app.tab().focused_pane() {
        Some(p) => p.is_browser(),
        None => false,
    };
    if !is_browser {
        return None;
    }
    let bindings = app.keybindings.browser;
    if let Some(pane) = app.focused_pane_mut() {
        press_on_leaf(pane, code, ctrl, alt, shift, &bindings, at);
    }
    Some(Action::Continue)
}

} // verus!
