//! Keys for the pane for choosing a host.
use vstd::prelude::*;
use crate::app::{App, AppView, OpenRequest, OpenView};
use crate::connect::{ConnectRequest, RequestView};
use crate::event::KeyCode;
use crate::keybindings::{ConnectBindings, KeyBinding, KeyBindings};
use crate::pane::{Pane, PaneView};
use super::Action;

verus! {

/// The bindings with another combination in a row of the table.
pub open spec fn with_row(b: KeyBindings, i: usize, k: KeyBinding) -> KeyBindings {
    if i < b.rows().len() {
        b.with_binding(b.rows()[i as int].group, b.rows()[i as int].field, k)
    } else {
        b
    }
}

/// Sets the combination in a row of the table.
pub fn set_row(b: &mut KeyBindings, i: usize, k: KeyBinding)
    ensures
        *final(b) == with_row(*old(b), i, k),
{
    let entries = b.entries();
    if i < entries.len() {
        let group = entries[i].group;
        let field = entries[i].field;
        assert(b.rows()[i as int] == entries@[i as int]@);
        b.set_binding(group, field, k);
    }
}

impl AppView {
    /// The application after a key has asked for something.
    pub open spec fn requested(self, r: RequestView) -> AppView {
        match r {
            RequestView::Nothing => self,
            RequestView::Session(i) => AppView { request: Some(OpenView::Session(i)), ..self },
            RequestView::Manual(s) => AppView { request: Some(OpenView::Manual(s)), ..self },
            RequestView::Sftp(i) => AppView { request: Some(OpenView::Sftp(i)), ..self },
            RequestView::Scp(i) => AppView { request: Some(OpenView::Scp(i)), ..self },
            RequestView::Bind(i, k) => AppView {
                keybindings: with_row(self.keybindings, i, k),
                save_keybindings: true,
                ..self
            },
        }
    }

    /// The application after a key for the pane for choosing a host, where that
    /// pane has the focus.
    pub open spec fn connect_keyed(
        self,
        code: KeyCode,
        ctrl: bool,
        alt: bool,
        shift: bool,
    ) -> AppView {
        match self.focused() {
            Some(PaneView::Connect(c)) => {
                let (after, asked) = c.keyed(code, ctrl, alt, shift, self.keybindings.connect);
                self.with_focused(PaneView::Connect(after)).requested(asked)
            },
            _ => self,
        }
    }
}

fn key_on_leaf(
    pane: &mut Pane,
    code: KeyCode,
    ctrl: bool,
    alt: bool,
    shift: bool,
    bindings: &ConnectBindings,
) -> (r: Option<ConnectRequest>)
    ensures
        match old(pane)@ {
            PaneView::Connect(c) => {
                &&& r is Some
                &&& final(pane)@ == PaneView::Connect(
                    c.keyed(code, ctrl, alt, shift, *bindings).0,
                )
                &&& r->0@ == c.keyed(code, ctrl, alt, shift, *bindings).1
            },
            _ => r is None && final(pane)@ == old(pane)@,
        },
{
    match pane {
        Pane::Connect(c) => Some(c.handle_key(code, ctrl, alt, shift, bindings)),
        _ => None,
    }
}

/// Handles a key for the pane for choosing a host. Returns nothing where
/// another pane has the focus.
pub fn handle_connect_key(app: &mut App, code: KeyCode, ctrl: bool, alt: bool, shift: bool) -> (r:
    Option<Action>)
    requires
        old(app)@.valid(),
    ensures
        r == (match old(app)@.focused() {
            Some(PaneView::Connect(_)) => Some(Action::Continue),
            _ => None,
        }),
        final(app)@ == old(app)@.connect_keyed(code, ctrl, alt, shift),
        final(app)@.valid(),
{
    let is_connect = match app.tab().focused_pane() {
        Some(Pane::Connect(_)) => true,
        _ => false,
    };
    if !is_connect {
        return None;
    }
    let bindings = app.keybindings.connect;
    let asked = match app.focused_pane_mut() {
        Some(pane) => key_on_leaf(pane, code, ctrl, alt, shift, &bindings),
        None => None,
    };
    if let Some(request) = asked {
        match request {
            ConnectRequest::Nothing => {},
            ConnectRequest::Session(i) => {
                app.request = Some(OpenRequest::Session(i));
            },
            ConnectRequest::Manual(s) => {
                app.request = Some(OpenRequest::Manual(s));
            },
            ConnectRequest::Sftp(i) => {
                app.request = Some(OpenRequest::Sftp(i));
            },
            ConnectRequest::Scp(i) => {
                app.request = Some(OpenRequest::Scp(i));
            },
            ConnectRequest::Bind(i, k) => {
                set_row(&mut app.keybindings, i, k);
                app.save_keybindings = true;
            },
        }
    }
    Some(Action::Continue)
}

} // verus!
