//! The state of the application: its tabs, and what is asked of the world
//! outside.
use vstd::prelude::*;
use crate::connect;
use crate::geometry;
use crate::pane;
use crate::text;
use crate::browser::common::CoreView;
use crate::browser::sftp::{FileBrowser, SftpState, SftpView};
use crate::browser::ssh::{SshBrowser, SshBrowserState, SshView};
use crate::connect::SshHost;
use crate::geometry::{pane_inner, Rect, Split};
use crate::keybindings::KeyBindings;
use crate::pane::{Pane, PaneView};
use crate::pty::PtyView;
use crate::tab::{Tab, TabView};
use crate::terminal::{EmbeddedTerminal, TermView};
use crate::text::{cat, chars_of, decimal_of, string_of, words};

pub use crate::geometry::context_menu_rect;

verus! {

/// The items of the context menu.
pub const CONTEXT_MENU_ITEMS: [&'static str; 5] = [
    "New tab",
    "Close tab",
    "Split left/right",
    "Split top/bottom",
    "Exit",
];

/// An open context menu.
#[derive(Clone, Copy, Debug, PartialEq, Eq, Structural)]
pub struct ContextMenu {
    pub col: u16,
    pub row: u16,
    pub selected: Option<usize>,
}

/// A separator that is being moved.
#[derive(Debug)]
pub struct PaneResizeDrag {
    /// The way from the root to the split.
    pub path: Vec<usize>,
    pub sep_idx: usize,
    pub horizontal: bool,
    /// The column or row in which the separator was taken.
    pub start_pos: u16,
    /// The shares of the two panes when the separator was taken.
    pub start_ratios: (u16, u16),
    /// The room that the two panes have together.
    pub span: u16,
    pub split_area: Rect,
}

/// A separator that is being moved.
#[verifier::ext_equal]
pub struct ResizeView {
    pub path: Seq<usize>,
    pub sep_idx: usize,
    pub horizontal: bool,
    pub start_pos: u16,
    pub start_ratios: (u16, u16),
    pub span: u16,
    pub split_area: Rect,
}

impl View for PaneResizeDrag {
    type V = ResizeView;

    open spec fn view(&self) -> ResizeView {
        ResizeView {
            path: self.path@,
            sep_idx: self.sep_idx,
            horizontal: self.horizontal,
            start_pos: self.start_pos,
            start_ratios: self.start_ratios,
            span: self.span,
            split_area: self.split_area,
        }
    }
}

/// A process that is to be started for the pane with the focus.
#[derive(Debug)]
pub enum OpenRequest {
    /// A session on a host of the list.
    Session(usize),
    /// A session with the given arguments.
    Manual(String),
    /// An SFTP browser on a host of the list.
    Sftp(usize),
    /// An SCP browser on a host of the list.
    Scp(usize),
    /// An SFTP browser in the place of one that has ended.
    SftpAgain(String),
    /// An SCP browser in the place of one that has ended.
    ScpAgain(String),
}

/// A process that is to be started.
#[verifier::ext_equal]
pub enum OpenView {
    Session(usize),
    Manual(Seq<char>),
    Sftp(usize),
    Scp(usize),
    SftpAgain(Seq<char>),
    ScpAgain(Seq<char>),
}

impl View for OpenRequest {
    type V = OpenView;

    open spec fn view(&self) -> OpenView {
        match *self {
            OpenRequest::Session(i) => OpenView::Session(i),
            OpenRequest::Manual(s) => OpenView::Manual(s@),
            OpenRequest::Sftp(i) => OpenView::Sftp(i),
            OpenRequest::Scp(i) => OpenView::Scp(i),
            OpenRequest::SftpAgain(s) => OpenView::SftpAgain(s@),
            OpenRequest::ScpAgain(s) => OpenView::ScpAgain(s@),
        }
    }
}

/// There is no host with the number.
#[derive(Clone, Copy, Debug, PartialEq, Eq, Structural)]
pub struct InvalidHost;

/// The state of the application.
#[derive(Debug)]
pub struct App {
    pub tabs: Vec<Tab>,
    pub selected_tab: usize,
    pub hosts: Vec<SshHost>,
    pub context_menu: Option<ContextMenu>,
    pub keybindings: KeyBindings,
    pub pane_resize_drag: Option<PaneResizeDrag>,
    /// A process that is to be started.
    pub request: Option<OpenRequest>,
    /// Whether the key bindings are to be written to their file.
    pub save_keybindings: bool,
}

/// The state of the application.
#[verifier::ext_equal]
pub struct AppView {
    pub tabs: Seq<TabView>,
    pub selected: usize,
    pub hosts: Seq<Seq<char>>,
    pub menu: Option<ContextMenu>,
    pub keybindings: KeyBindings,
    pub drag: Option<ResizeView>,
    pub request: Option<OpenView>,
    pub save_keybindings: bool,
}

/// What the tabs of a list show.
pub open spec fn tabs_view(v: Seq<Tab>) -> Seq<TabView> {
    v.map_values(|t: Tab| t@)
}

impl View for App {
    type V = AppView;

    open spec fn view(&self) -> AppView {
        AppView {
            tabs: tabs_view(self.tabs@),
            selected: self.selected_tab,
            hosts: connect::labels(self.hosts@),
            menu: self.context_menu,
            keybindings: self.keybindings,
            drag: match self.pane_resize_drag {
                Some(d) => Some(d@),
                None => None,
            },
            request: match self.request {
                Some(r) => Some(r@),
                None => None,
            },
            save_keybindings: self.save_keybindings,
        }
    }
}

/// What a session is called that was started with the given arguments: the last
/// of them, or `ssh` where there is none.
pub open spec fn session_name(args: Seq<char>) -> Seq<char> {
    if text::words_of(args).len() > 0 {
        text::words_of(args).last()
    } else {
        "ssh"@
    }
}

/// What a session is called that was started with the given arguments.
pub fn name_of_session(args: &str) -> (r: String)
    ensures
        r@ == session_name(args@),
{
    let v = chars_of(args);
    let w = words(v.as_slice());
    if w.len() > 0 {
        assert(crate::text::slices(w@).last() == w@[w@.len() - 1]@);
        string_of(w[w.len() - 1])
    } else {
        "ssh".to_owned()
    }
}

impl AppView {
    /// Whether one of the tabs is selected.
    pub open spec fn valid(self) -> bool {
        self.selected < self.tabs.len()
    }

    /// The application when it starts.
    pub open spec fn opened() -> AppView {
        AppView {
            tabs: seq![TabView::opened("1"@)],
            selected: 0,
            hosts: Seq::empty(),
            menu: None,
            keybindings: KeyBindings::standard(),
            drag: None,
            request: None,
            save_keybindings: false,
        }
    }

    /// The selected tab.
    pub open spec fn tab(self) -> TabView {
        self.tabs[self.selected as int]
    }

    /// The application with another tab in the place of the selected one.
    pub open spec fn with_tab(self, t: TabView) -> AppView {
        AppView { tabs: self.tabs.update(self.selected as int, t), ..self }
    }

    /// The pane with the focus.
    pub open spec fn focused(self) -> Option<PaneView> {
        self.tab().focused()
    }

    /// The application with another pane in the place of the one with the focus.
    pub open spec fn with_focused(self, p: PaneView) -> AppView {
        self.with_tab(self.tab().with_focused(p))
    }

    /// The application after text was sent to the session with the focus. Where
    /// no session has the focus nothing is sent.
    pub open spec fn sent(self, s: Seq<char>) -> AppView {
        match self.focused() {
            Some(p) => self.with_focused(pane::leaf_sent(p, s)),
            None => self,
        }
    }

    /// The application with a new tab, which is selected.
    pub open spec fn with_new_tab(self) -> AppView {
        AppView {
            tabs: self.tabs.push(TabView::opened(text::decimal((self.tabs.len() + 1) as nat))),
            selected: self.tabs.len() as usize,
            ..self
        }
    }

    /// The application without the selected tab. There is always a tab: where
    /// the last one is closed a new one takes its place.
    pub open spec fn without_tab(self) -> AppView {
        let rest = self.tabs.remove(self.selected as int);
        if rest.len() == 0 {
            AppView { tabs: seq![TabView::opened("1"@)], selected: 0, ..self }
        } else if self.selected >= rest.len() {
            AppView { tabs: rest, selected: (rest.len() - 1) as usize, ..self }
        } else {
            AppView { tabs: rest, ..self }
        }
    }

    /// Whether `now` is the application after all sessions were given the size
    /// that they have on a screen of the given area.
    pub open spec fn is_resized_to(self, now: AppView, full: Rect) -> bool {
        &&& now == (AppView { tabs: now.tabs, ..self })
        &&& now.tabs.len() == self.tabs.len()
        &&& forall|i: int|
            0 <= i < self.tabs.len() ==> self.tabs[i].is_resized_to(
                #[trigger] now.tabs[i],
                geometry::above_tab_bar(full),
            )
    }

    /// Whether `now` is the application after the pane with the focus was closed,
    /// or the tab where it has no other pane.
    pub open spec fn is_closed_to(self, now: AppView, full: Rect) -> bool {
        if pane::count(self.tab().root) > 1 {
            (AppView { drag: None, ..self.with_tab(self.tab().without_pane()) }).is_resized_to(
                now,
                full,
            )
        } else {
            now == (AppView { drag: None, ..self.without_tab() })
        }
    }

    /// Whether `now` is the application after the pane with the focus was
    /// divided.
    pub open spec fn is_split_to(self, now: AppView, kind: Split, full: Rect) -> bool {
        &&& now == self.with_tab(now.tab())
        &&& (TabView { zoom: false, ..self.tab() }).is_split_into(
            now.tab(),
            kind,
            geometry::above_tab_bar(full),
        )
    }

    /// The application with a browser in the pane that has the focus. A tab
    /// with no other pane is named after it.
    pub open spec fn with_browser(self, p: PaneView, name: Seq<char>) -> AppView {
        let named = if pane::count(self.tab().root) == 1 {
            self.with_tab(TabView { name, ..self.tab() })
        } else {
            self
        };
        if named.focused() is Some {
            named.with_focused(p)
        } else {
            named
        }
    }
}

/// An SFTP browser that has just been opened.
pub open spec fn new_sftp(host: Seq<char>, start: Seq<char>, id: u64) -> PaneView {
    PaneView::FileBrowser {
        browser: SftpView {
            core: CoreView::opened(host, start),
            sftp: PtyView { id, ..PtyView::quiet() },
            state: SftpState::Connecting,
        },
    }
}

/// An SCP browser that has just been opened.
pub open spec fn new_scp(host: Seq<char>, start: Seq<char>, id: u64) -> PaneView {
    PaneView::SshBrowser {
        browser: SshView {
            core: CoreView::opened(host, start),
            ssh: PtyView { id, ..PtyView::quiet() },
            scp: None,
            request: None,
            state: SshBrowserState::Connecting,
            saved: None,
            typed: Seq::empty(),
            asking: false,
            prompts: 0,
        },
    }
}

fn open_sftp_pane(host: &str, start: &str, id: u64) -> (r: Pane)
    ensures
        r@ == new_sftp(host@, start@, id),
{
    let mut browser = FileBrowser::new(host, start);
    browser.sftp.id = id;
    let r = Pane::FileBrowser { browser };
    assert(r@ =~= new_sftp(host@, start@, id));
    r
}

fn open_scp_pane(host: &str, start: &str, id: u64) -> (r: Pane)
    ensures
        r@ == new_scp(host@, start@, id),
{
    let mut browser = SshBrowser::new(host, start);
    browser.ssh.id = id;
    let r = Pane::SshBrowser { browser };
    assert(r@ =~= new_scp(host@, start@, id));
    r
}

impl App {
    /// The application when it starts, with one tab and no hosts.
    pub fn new() -> (r: App)
        ensures
            r@ == AppView::opened(),
            r@.valid(),
    {
        let tab = Tab::new("1");
        let r = App {
            tabs: vec![tab],
            selected_tab: 0,
            hosts: Vec::new(),
            context_menu: None,
            keybindings: KeyBindings::default(),
            pane_resize_drag: None,
            request: None,
            save_keybindings: false,
        };
        assert(r@.tabs =~= AppView::opened().tabs);
        assert(r@ =~= AppView::opened());
        r
    }

    /// The selected tab.
    pub fn tab(&self) -> (r: &Tab)
        requires
            self@.valid(),
        ensures
            r@ == self@.tab(),
    {
        &self.tabs[self.selected_tab]
    }

    /// The selected tab, to be changed.
    pub fn tab_mut(&mut self) -> (r: &mut Tab)
        requires
            old(self)@.valid(),
        ensures
            r@ == old(self)@.tab(),
            final(self)@ == old(self)@.with_tab(final(r)@),
            final(self)@.valid(),
    {
        let ghost before = self.tabs@;
        let ghost i = self.selected_tab as int;
        let r = &mut self.tabs[self.selected_tab];
        assert(tabs_view(before.update(i, *final(r))) =~= tabs_view(before).update(i, final(r)@));
        r
    }

    /// The pane with the focus, to be changed or replaced.
    pub fn focused_pane_mut(&mut self) -> (r: Option<&mut Pane>)
        requires
            old(self)@.valid(),
        ensures
            r is None ==> old(self)@.focused() is None && final(self)@ == old(self)@,
            r is Some ==> old(self)@.focused() == Some(r.unwrap()@) && final(self)@ == old(
                self,
            )@.with_focused(final(r.unwrap())@),
            final(self)@.valid(),
    {
        proof {
            lemma_same_focused(self@);
        }
        self.tab_mut().focused_pane_mut()
    }

    /// Whether something has changed since the last look. The look ends with
    /// the first pane in which something has changed.
    pub fn take_dirty(&mut self) -> (r: bool)
        ensures
            r == (first_changed_tab(old(self)@.tabs, 0) < old(self)@.tabs.len()),
            final(self)@ == (if r {
                let i = first_changed_tab(old(self)@.tabs, 0);
                AppView {
                    tabs: old(self)@.tabs.update(i, old(self)@.tabs[i].after_look()),
                    ..old(self)@
                }
            } else {
                old(self)@
            }),
    {
        let ghost model = self@.tabs;
        let mut i: usize = 0;
        while i < self.tabs.len()
            invariant
                self@ == old(self)@,
                model == self@.tabs,
                i <= self.tabs@.len(),
                first_changed_tab(model, 0) == first_changed_tab(model, i as int),
            decreases self.tabs@.len() - i,
        {
            let ghost before = self.tabs@;
            let tab = &mut self.tabs[i];
            let dirty = tab.take_dirty();
            proof {
                assert(model[i as int] == before[i as int]@);
                pane::lemma_unchanged(before[i as int].root@);
                let t = model[i as int];
                assert(self@.tabs =~= model.update(i as int, t.after_look()));
                assert(!dirty ==> t.after_look() == t);
                assert(model.update(i as int, t) =~= model);
            }
            if dirty {
                return true;
            }
            i += 1;
        }
        false
    }

    /// Lets the browsers of all tabs do their work.
    pub fn tick_browsers(&mut self, now: u64)
        ensures
            final(self)@ == (AppView {
                tabs: old(self)@.tabs.map_values(|t: TabView| t.after_tick(now)),
                ..old(self)@
            }),
    {
        let ghost model = self@.tabs;
        let ghost goal = model.map_values(|t: TabView| t.after_tick(now));
        let mut i: usize = 0;
        while i < self.tabs.len()
            invariant
                self@ == (AppView { tabs: self@.tabs, ..old(self)@ }),
                model == old(self)@.tabs,
                goal == model.map_values(|t: TabView| t.after_tick(now)),
                self.tabs@.len() == model.len(),
                i <= self.tabs@.len(),
                forall|k: int| 0 <= k < i ==> #[trigger] self.tabs@[k]@ == goal[k],
                forall|k: int| i <= k < model.len() ==> #[trigger] self.tabs@[k]@ == model[k],
            decreases self.tabs@.len() - i,
        {
            let ghost before = self.tabs@[i as int]@;
            let tab = &mut self.tabs[i];
            tab.tick(now);
            assert(self.tabs@[i as int]@ == before.after_tick(now));
            i += 1;
        }
        assert(self@.tabs =~= goal);
    }

    /// Sends text to the session with the focus.
    pub fn send_str(&mut self, s: &str)
        requires
            old(self)@.valid(),
        ensures
            final(self)@ == old(self)@.sent(s@),
            final(self)@.valid(),
    {
        if let Some(pane) = self.focused_pane_mut() {
            pane.send_str(s);
        }
    }

    /// Sends a character to the session with the focus.
    pub fn send_char(&mut self, c: char)
        requires
            old(self)@.valid(),
        ensures
            final(self)@ == old(self)@.sent(seq![c]),
            final(self)@.valid(),
    {
        let mut s = String::new();
        s.push(c);
        assert(s@ =~= seq![c]);
        self.send_str(s.as_str());
    }

    /// Whether the browser with the focus gathers characters that may turn out
    /// to be pasted file names.
    pub fn paste_accumulating(&self) -> (r: bool)
        requires
            self@.valid(),
        ensures
            r == (match self@.focused() {
                Some(PaneView::FileBrowser { browser }) => browser.core.paste_buf.len() > 0,
                Some(PaneView::SshBrowser { browser }) => browser.core.paste_buf.len() > 0,
                _ => false,
            }),
    {
        match self.tab().focused_pane() {
            Some(p) => match p.as_browser() {
                Some(core) => !core.paste_buf.as_str().is_empty(),
                None => false,
            },
            None => false,
        }
    }

    /// Puts a session on a host of the list into the pane with the focus.
    pub fn open_session(&mut self, host_idx: usize, terminal: EmbeddedTerminal) -> (r: Result<
        (),
        InvalidHost,
    >)
        requires
            old(self)@.valid(),
        ensures
            r is Ok <==> host_idx < old(self)@.hosts.len(),
            r is Ok ==> final(self)@ == old(self)@.with_session(
                old(self)@.hosts[host_idx as int],
                terminal@,
            ),
            r is Err ==> final(self)@ == old(self)@,
            final(self)@.valid(),
    {
        if host_idx >= self.hosts.len() {
            return Err(InvalidHost);
        }
        let label = self.hosts[host_idx].label.clone();
        assert(label@ == self@.hosts[host_idx as int]);
        self.open_session_raw(label.as_str(), terminal);
        Ok(())
    }

    /// Puts a session with the given arguments into the pane with the focus.
    pub fn open_session_raw(&mut self, args: &str, terminal: EmbeddedTerminal)
        requires
            old(self)@.valid(),
        ensures
            final(self)@ == old(self)@.with_session(args@, terminal@),
            final(self)@.valid(),
    {
        let pane = Pane::Session { terminal, ssh_args: args.to_owned(), exit_selection: 0 };
        self.put(pane, name_of_session(args));
    }

    /// Puts an SFTP browser on a host of the list into the pane with the focus.
    pub fn open_browser(&mut self, host_idx: usize, start: &str, id: u64) -> (r: Result<
        (),
        InvalidHost,
    >)
        requires
            old(self)@.valid(),
        ensures
            r is Ok <==> host_idx < old(self)@.hosts.len(),
            r is Ok ==> final(self)@ == old(self)@.with_browser(
                new_sftp(old(self)@.hosts[host_idx as int], start@, id),
                "sftp:"@ + old(self)@.hosts[host_idx as int],
            ),
            r is Err ==> final(self)@ == old(self)@,
            final(self)@.valid(),
    {
        if host_idx >= self.hosts.len() {
            return Err(InvalidHost);
        }
        let label = self.hosts[host_idx].label.clone();
        assert(label@ == self@.hosts[host_idx as int]);
        self.put(open_sftp_pane(label.as_str(), start, id), cat("sftp:", label.as_str()));
        Ok(())
    }

    /// Puts an SCP browser on a host of the list into the pane with the focus.
    pub fn open_ssh_browser(&mut self, host_idx: usize, start: &str, id: u64) -> (r: Result<
        (),
        InvalidHost,
    >)
        requires
            old(self)@.valid(),
        ensures
            r is Ok <==> host_idx < old(self)@.hosts.len(),
            r is Ok ==> final(self)@ == old(self)@.with_browser(
                new_scp(old(self)@.hosts[host_idx as int], start@, id),
                "scp:"@ + old(self)@.hosts[host_idx as int],
            ),
            r is Err ==> final(self)@ == old(self)@,
            final(self)@.valid(),
    {
        if host_idx >= self.hosts.len() {
            return Err(InvalidHost);
        }
        let label = self.hosts[host_idx].label.clone();
        assert(label@ == self@.hosts[host_idx as int]);
        self.put(open_scp_pane(label.as_str(), start, id), cat("scp:", label.as_str()));
        Ok(())
    }

    fn put(&mut self, pane: Pane, name: String)
        requires
            old(self)@.valid(),
        ensures
            final(self)@ == old(self)@.with_browser(pane@, name@),
            final(self)@.valid(),
    {
        let ghost before = self@;
        let single = self.tab().leaf_count() == 1;
        if single {
            self.tab_mut().name = name;
        }
        assert(single ==> self@ == before.with_tab(TabView { name: name@, ..before.tab() }));
        if let Some(p) = self.focused_pane_mut() {
            *p = pane;
        }
    }

    /// Puts an SFTP browser into the pane with the focus, in the place of one
    /// that has ended.
    pub fn reopen_browser(&mut self, host: &str, start: &str, id: u64)
        requires
            old(self)@.valid(),
        ensures
            final(self)@ == (if old(self)@.focused() is Some {
                old(self)@.with_focused(new_sftp(host@, start@, id))
            } else {
                old(self)@
            }),
            final(self)@.valid(),
    {
        let pane = open_sftp_pane(host, start, id);
        if let Some(p) = self.focused_pane_mut() {
            *p = pane;
        }
    }

    /// Puts an SCP browser into the pane with the focus, in the place of one
    /// that has ended.
    pub fn reopen_ssh_browser(&mut self, host: &str, start: &str, id: u64)
        requires
            old(self)@.valid(),
        ensures
            final(self)@ == (if old(self)@.focused() is Some {
                old(self)@.with_focused(new_scp(host@, start@, id))
            } else {
                old(self)@
            }),
            final(self)@.valid(),
    {
        let pane = open_scp_pane(host, start, id);
        if let Some(p) = self.focused_pane_mut() {
            *p = pane;
        }
    }

    /// Whether the cursor keys send application sequences in the session with
    /// the focus.
    pub fn focused_pane_app_cursor(&self) -> (r: bool)
        requires
            self@.valid(),
        ensures
            r == self@.app_cursor(),
    {
        match self.tab().focused_pane() {
            Some(Pane::Session { terminal, .. }) => terminal.app_cursor,
            _ => false,
        }
    }

    /// The area of the pane with the focus on a screen of the given area.
    pub fn focused_pane_area(&self, full: Rect) -> (r: Rect)
        requires
            self@.valid(),
        ensures
            exists|areas: Seq<Rect>| #[trigger]
                pane::is_layout(self@.tab().root, geometry::above_tab_bar(full), areas) && r == area_among(
                    areas,
                    self@.tab().focus,
                    geometry::above_tab_bar(full),
                ),
    {
        let content = pane_inner(full);
        let areas = self.tab().root.leaf_areas(content);
        assert(pane::is_layout(self@.tab().root, geometry::above_tab_bar(full), areas@));
        let i: usize = self.tab().focus_idx;
        if i < areas.len() {
            areas[i]
        } else {
            content
        }
    }

    /// The rows and columns of a session that is opened in the pane with the
    /// focus, on a screen of the given area.
    pub fn session_size(&self, full: Rect) -> (r: (u16, u16))
        requires
            self@.valid(),
        ensures
            exists|areas: Seq<Rect>| #[trigger]
                pane::is_layout(self@.tab().root, geometry::above_tab_bar(full), areas) && ({
                    let a = area_among(areas, self@.tab().focus, geometry::above_tab_bar(full));
                    let t = if pane::count(self@.tab().root) > 1 {
                        geometry::above_tab_bar(a)
                    } else {
                        a
                    };
                    r == (t.height, t.width)
                }),
    {
        let area = self.focused_pane_area(full);
        let inner = if self.tab().leaf_count() > 1 {
            pane_inner(area)
        } else {
            area
        };
        (inner.height, inner.width)
    }

    /// Gives all sessions the size that they have on a screen of the given area.
    pub fn resize_all(&mut self, full: Rect)
        ensures
            old(self)@.is_resized_to(final(self)@, full),
    {
        let ghost model = self@.tabs;
        let content = pane_inner(full);
        let mut i: usize = 0;
        while i < self.tabs.len()
            invariant
                content == geometry::above_tab_bar(full),
                self@ == (AppView { tabs: self@.tabs, ..old(self)@ }),
                model == old(self)@.tabs,
                self.tabs@.len() == model.len(),
                i <= self.tabs@.len(),
                forall|k: int|
                    0 <= k < i ==> model[k].is_resized_to(#[trigger] self.tabs@[k]@, content),
                forall|k: int| i <= k < model.len() ==> #[trigger] self.tabs@[k]@ == model[k],
            decreases self.tabs@.len() - i,
        {
            let tab = &mut self.tabs[i];
            tab.resize_all(content);
            i += 1;
        }
    }

    /// Opens a new tab and selects it.
    pub fn new_tab(&mut self)
        ensures
            final(self)@ == old(self)@.with_new_tab(),
            final(self)@.valid(),
    {
        self.tabs.push(Tab::new(""));
        let n: usize = self.tabs.len();
        self.selected_tab = n - 1;
        let tab = &mut self.tabs[n - 1];
        tab.name = decimal_of(n as u64);
        assert(self@.tabs =~= old(self)@.with_new_tab().tabs);
    }

    /// Closes the selected tab.
    pub fn close_tab(&mut self)
        requires
            old(self)@.valid(),
        ensures
            final(self)@ == old(self)@.without_tab(),
            final(self)@.valid(),
    {
        self.tabs.remove(self.selected_tab);
        assert(self@.tabs =~= old(self)@.tabs.remove(old(self)@.selected as int));
        if self.tabs.len() == 0 {
            self.tabs.push(Tab::new("1"));
            self.selected_tab = 0;
            assert(self@.tabs =~= seq![TabView::opened("1"@)]);
        } else if self.selected_tab >= self.tabs.len() {
            self.selected_tab = self.tabs.len() - 1;
        }
    }

    /// Closes the pane with the focus, or the tab where it has no other pane.
    pub fn close_focused_or_tab(&mut self, full: Rect)
        requires
            old(self)@.valid(),
        ensures
            old(self)@.is_closed_to(final(self)@, full),
            final(self)@.valid(),
    {
        self.pane_resize_drag = None;
        if self.tab().leaf_count() > 1 {
            self.tab_mut().close_pane();
            self.resize_all(full);
        } else {
            self.close_tab();
        }
    }

    /// Divides the pane with the focus.
    pub fn split_focused(&mut self, kind: Split, full: Rect)
        requires
            old(self)@.valid(),
        ensures
            old(self)@.is_split_to(final(self)@, kind, full),
            final(self)@.valid(),
    {
        let tab = self.tab_mut();
        tab.zoom = false;
        tab.split(kind, pane_inner(full));
    }
}

impl AppView {
    /// Whether the cursor keys send application sequences in the session with
    /// the focus.
    pub open spec fn app_cursor(self) -> bool {
        match self.focused() {
            Some(PaneView::Session { terminal, .. }) => terminal.app_cursor,
            _ => false,
        }
    }

    /// The application with a session in the pane that has the focus. A tab with
    /// no other pane is named after it.
    pub open spec fn with_session(self, args: Seq<char>, terminal: TermView) -> AppView {
        self.with_browser(
            PaneView::Session { terminal, ssh_args: args, exit_selection: 0 },
            session_name(args),
        )
    }
}

/// The area at `i`, or the whole where there is none.
pub open spec fn area_among(areas: Seq<Rect>, i: usize, whole: Rect) -> Rect {
    if i < areas.len() {
        areas[i as int]
    } else {
        whole
    }
}

/// The first tab, from the one at `i` on, in which something has changed.
pub open spec fn first_changed_tab(tabs: Seq<TabView>, i: int) -> int
    decreases tabs.len() - i,
{
    if i >= tabs.len() {
        tabs.len() as int
    } else if pane::changed(tabs[i].root) {
        i
    } else {
        first_changed_tab(tabs, i + 1)
    }
}

/// Putting the pane with the focus in its own place changes nothing.
proof fn lemma_same_focused(a: AppView)
    requires
        a.valid(),
    ensures
        a.with_tab(a.tab()) == a,
        a.focused() matches Some(p) ==> a.with_focused(p) == a,
{
    assert(a.tabs.update(a.selected as int, a.tab()) =~= a.tabs);
    if let Some(p) = a.focused() {
        crate::leaves::lemma_same_leaf(a.tab().root, a.tab().focus as int);
        assert(a.tab().with_focused(p) =~= a.tab());
    }
}

/// Putting the selected tab in its own place changes nothing.
pub proof fn lemma_same_tab(a: AppView)
    requires
        a.valid(),
    ensures
        a.with_tab(a.tab()) == a,
{
    assert(a.tabs.update(a.selected as int, a.tab()) =~= a.tabs);
}

/// There is always a selected tab: opening, closing and dividing keep one.
pub proof fn law_a_tab_is_always_selected(a: AppView, kind: Split, full: Rect)
    requires
        a.valid(),
        a.tabs.len() < usize::MAX,
    ensures
        a.with_new_tab().valid(),
        a.without_tab().valid(),
        forall|b: AppView| a.is_closed_to(b, full) ==> b.valid(),
        forall|b: AppView| a.is_split_to(b, kind, full) ==> b.valid(),
        forall|b: AppView| a.is_resized_to(b, full) ==> b.valid(),
{
}

/// Closing a tab that has just been opened gives back the tabs as they were.
pub proof fn law_close_undoes_new_tab(a: AppView)
    requires
        a.valid(),
        a.tabs.len() < usize::MAX,
    ensures
        a.with_new_tab().without_tab().tabs == a.tabs,
{
    let b = a.with_new_tab();
    assert(b.tabs.remove(a.tabs.len() as int) =~= a.tabs);
}

/// Closing a tab keeps all other tabs in their order.
pub proof fn law_close_keeps_other_tabs(a: AppView)
    requires
        a.valid(),
        a.tabs.len() > 1,
    ensures
        a.without_tab().tabs == a.tabs.remove(a.selected as int),
{
}

} // verus!
