//! What keys do to tabs, panes and the list of hosts.
use vstd::prelude::*;
use crate::app;
use crate::app::{AppView, OpenView};
use crate::browser::listing_laws;
use crate::connect;
use crate::connect::{ConnectPaneView, InputView, OverlayView, RequestView};
use crate::event::KeyCode;
use crate::geometry::{Rect, Split};
use crate::input;
use crate::input::Action;
use crate::keybindings::{ConnectBindings, KeyBinding};
use crate::leaves;
use crate::list_state::ListState;
use crate::pane;
use crate::pane::PaneView;
use crate::ssh_config;
use crate::tab;
use crate::tab::{FocusDir, TabView};
use crate::text;
use crate::view::connect::BROWSER_MENU_ITEMS;

verus! {

// ---------------------------------------------------------------------------
// Bindings
// ---------------------------------------------------------------------------

/// A binding is for a key with exactly its modifiers. The case of a letter makes
/// no difference, and no other key stands for its key.
pub proof fn law_binding_is_for_one_key(
    k: KeyBinding,
    code: KeyCode,
    ctrl: bool,
    alt: bool,
    shift: bool,
)
    ensures
        k.fits(code, ctrl, alt, shift) ==> k.ctrl == ctrl && k.alt == alt && k.shift == shift,
        k.fits_any_shift(code, ctrl, alt) ==> k.ctrl == ctrl && k.alt == alt,
        k.fits_any_shift(code, ctrl, alt) ==> k.code == code || (k.code is Char && code is Char
            && text::ascii_lower(k.code->Char_0) == text::ascii_lower(code->Char_0)),
        k.fits(code, ctrl, alt, shift) == (k.fits_any_shift(code, ctrl, alt) && k.shift == shift),
        k.fits(k.code, k.ctrl, k.alt, k.shift),
{
}

// ---------------------------------------------------------------------------
// Tabs
// ---------------------------------------------------------------------------

/// The keys for the next and the previous tab go round: one tab further, or one
/// back, counted modulo the number of tabs. No tab is changed.
pub proof fn law_tab_keys_go_round(
    a: AppView,
    b: AppView,
    action: Action,
    code: KeyCode,
    ctrl: bool,
    alt: bool,
    shift: bool,
    full: Rect,
)
    requires
        a.valid(),
        a.tabs.len() <= usize::MAX,
        !a.keybindings.global.quit.fits(code, ctrl, alt, shift),
        a.is_global_keyed(b, action, code, ctrl, alt, shift, full),
    ensures
        action == Action::Continue,
        a.keybindings.global.prev_tab.fits(code, ctrl, alt, shift) ==> b.tabs == a.tabs
            && b.selected == (a.selected + a.tabs.len() - 1) % (a.tabs.len() as int),
        a.keybindings.global.next_tab.fits(code, ctrl, alt, shift)
            && !a.keybindings.global.prev_tab.fits(code, ctrl, alt, shift) ==> b.tabs == a.tabs
            && b.selected == (a.selected + 1) % (a.tabs.len() as int),
{
    let n = a.tabs.len() as int;
    if a.selected > 0 {
        assert((a.selected + n - 1) % n == a.selected - 1) by (nonlinear_arith)
            requires
                0 < a.selected < n,
        ;
    } else {
        assert((a.selected + n - 1) % n == n - 1) by (nonlinear_arith)
            requires
                a.selected == 0,
                n > 0,
        ;
    }
    if a.selected + 1 < n {
        assert((a.selected + 1) % n == a.selected + 1) by (nonlinear_arith)
            requires
                0 <= a.selected + 1 < n,
        ;
    } else {
        assert((a.selected + 1) % n == 0) by (nonlinear_arith)
            requires
                a.selected + 1 == n,
                n > 0,
        ;
    }
}

/// A new tab comes behind the others, which stay as they are, and is shown. It
/// has one pane, for choosing a host, and is called by its number.
pub proof fn law_new_tab_comes_last(a: AppView)
    requires
        a.valid(),
        a.tabs.len() < usize::MAX,
    ensures
        ({
            let b = a.with_new_tab();
            &&& b.tabs.len() == a.tabs.len() + 1
            &&& forall|i: int| 0 <= i < a.tabs.len() ==> #[trigger] b.tabs[i] == a.tabs[i]
            &&& b.selected == a.tabs.len()
            &&& b.tab().root is Connect
            &&& b.tab().root->Connect_0.overlay is Closed
            &&& b.tab().focus == 0
            &&& !b.tab().zoom
            &&& text::number_of(b.tab().name, usize::MAX as nat) == Some(
                (a.tabs.len() + 1) as nat,
            )
            &&& b.hosts == a.hosts && b.keybindings == a.keybindings && b.request == a.request
        }),
{
    text::law_decimal_reads_back((a.tabs.len() + 1) as nat, usize::MAX as nat);
}

/// Closing a tab takes it away and no other. The one behind it is shown then, or
/// the last; where it was the only one, there is a new one.
pub proof fn law_closing_shows_the_tab_behind(a: AppView)
    requires
        a.valid(),
        a.tabs.len() <= usize::MAX,
    ensures
        ({
            let b = a.without_tab();
            let n = a.tabs.len();
            let k = a.selected as int;
            &&& n == 1 ==> b.tabs.len() == 1 && b.selected == 0 && b.tab().root is Connect
            &&& n > 1 ==> b.tabs.len() == n - 1
            &&& n > 1 ==> forall|i: int| 0 <= i < k ==> #[trigger] b.tabs[i] == a.tabs[i]
            &&& n > 1 ==> forall|i: int|
                k <= i < n - 1 ==> #[trigger] b.tabs[i] == a.tabs[i + 1]
            &&& k < n - 1 ==> b.tab() == a.tabs[k + 1]
            &&& n > 1 && k == n - 1 ==> b.tab() == a.tabs[k - 1]
        }),
{
}

// ---------------------------------------------------------------------------
// Panes
// ---------------------------------------------------------------------------

/// The keys that divide a pane do so in their direction: the horizontal line puts
/// the panes on top of each other, the vertical one side by side.
pub proof fn law_split_keys_divide(
    a: AppView,
    b: AppView,
    action: Action,
    code: KeyCode,
    ctrl: bool,
    alt: bool,
    shift: bool,
    full: Rect,
)
    requires
        a.is_global_keyed(b, action, code, ctrl, alt, shift, full),
        only_fits(a, code, ctrl, alt, shift),
    ensures
        a.keybindings.global.split_horizontal.fits(code, ctrl, alt, shift) ==> a.is_split_to(
            b,
            Split::TopBottom,
            full,
        ),
        a.keybindings.global.split_vertical.fits(code, ctrl, alt, shift) ==> a.is_split_to(
            b,
            Split::LeftRight,
            full,
        ),
        a.keybindings.global.close.fits(code, ctrl, alt, shift) ==> a.is_closed_to(b, full),
        a.keybindings.global.new_tab.fits(code, ctrl, alt, shift) ==> b == a.with_new_tab(),
        a.keybindings.global.zoom.fits(code, ctrl, alt, shift) ==> a.is_zoomed_to(b, full),
        a.keybindings.global.focus_left.fits(code, ctrl, alt, shift) ==> a.is_focus_moved_to(
            b,
            FocusDir::Left,
            full,
        ),
        a.keybindings.global.focus_right.fits(code, ctrl, alt, shift) ==> a.is_focus_moved_to(
            b,
            FocusDir::Right,
            full,
        ),
        a.keybindings.global.focus_up.fits(code, ctrl, alt, shift) ==> a.is_focus_moved_to(
            b,
            FocusDir::Up,
            full,
        ),
        a.keybindings.global.focus_down.fits(code, ctrl, alt, shift) ==> a.is_focus_moved_to(
            b,
            FocusDir::Down,
            full,
        ),
{
    let g = a.keybindings.global;
    let all = global_keys(a);
    assert(all[0] == g.quit && all[1] == g.prev_tab && all[2] == g.next_tab);
    assert(all[3] == g.focus_left && all[4] == g.focus_right && all[5] == g.focus_up);
    assert(all[6] == g.focus_down && all[7] == g.close && all[8] == g.new_tab);
    assert(all[9] == g.split_horizontal && all[10] == g.split_vertical && all[11] == g.zoom);
}

/// The bindings for the whole application.
pub open spec fn global_keys(a: AppView) -> Seq<KeyBinding> {
    let g = a.keybindings.global;
    seq![
        g.quit,
        g.prev_tab,
        g.next_tab,
        g.focus_left,
        g.focus_right,
        g.focus_up,
        g.focus_down,
        g.close,
        g.new_tab,
        g.split_horizontal,
        g.split_vertical,
        g.zoom,
    ]
}

/// Whether no two bindings for the whole application are for this key.
pub open spec fn only_fits(a: AppView, code: KeyCode, ctrl: bool, alt: bool, shift: bool) -> bool {
    let all = global_keys(a);
    forall|i: int, j: int|
        0 <= i < j < all.len() ==> !((#[trigger] all[i]).fits(code, ctrl, alt, shift) && (
        #[trigger] all[j]).fits(code, ctrl, alt, shift))
}

/// Dividing the only pane of a tab puts a pane for choosing a host behind it, with
/// the same share, and gives that the focus. The pane itself stays as it is.
pub proof fn law_dividing_halves_the_pane(p: PaneView, kind: Split)
    ensures
        ({
            let q = pane::halved(p, kind);
            &&& q is Split
            &&& q->kind == kind
            &&& q->children.len() == 2
            &&& q->children[0] == p
            &&& q->children[1] is Connect
            &&& q->children[1]->Connect_0.overlay is Closed
            &&& q->ratios.len() == 2
            &&& q->ratios[0] == q->ratios[1]
            &&& q->ratios[0] > 0
        }),
{
}

/// A pane has the focus after the key for a direction only where it lies there,
/// beside the one that had it, and none lies nearer. Without such a pane the focus
/// stays.
pub proof fn law_focus_goes_in_its_direction(
    t: TabView,
    u: TabView,
    areas: Seq<Rect>,
    dir: FocusDir,
)
    requires
        t.is_focus_moved(u, areas, dir),
        t.focus < areas.len(),
        u.focus != t.focus,
    ensures
        u == (TabView { focus: u.focus, ..t }),
        u.focus < areas.len(),
        ({
            let a = areas[t.focus as int];
            let b = areas[u.focus as int];
            let same_rows = a.y < b.y + b.height && b.y < a.y + a.height;
            let same_columns = a.x < b.x + b.width && b.x < a.x + a.width;
            match dir {
                FocusDir::Left => b.x + b.width <= a.x && same_rows,
                FocusDir::Right => a.x + a.width <= b.x && same_rows,
                FocusDir::Up => b.y + b.height <= a.y && same_columns,
                FocusDir::Down => a.y + a.height <= b.y && same_columns,
            }
        }),
        forall|k: int|
            0 <= k < areas.len() ==> !lies_between(
                areas[t.focus as int],
                #[trigger] areas[k],
                areas[u.focus as int],
                dir,
            ),
{
    let r = choose|r: Option<usize>| #[trigger]
        tab::is_neighbor(areas, t.focus as int, dir, r) && u == (match r {
            Some(i) => TabView { focus: i, ..t },
            None => t,
        });
    let a = areas[t.focus as int];
    assert(tab::lies_beside(a, areas[u.focus as int], dir));
    assert forall|k: int| 0 <= k < areas.len() implies !lies_between(
        a,
        #[trigger] areas[k],
        areas[u.focus as int],
        dir,
    ) by {
        if lies_between(a, areas[k], areas[u.focus as int], dir) {
            assert(tab::lies_beside(a, areas[k], dir));
        }
    }
}

/// Whether `c` lies beside `a` in a direction, with `b` further away.
pub open spec fn lies_between(a: Rect, c: Rect, b: Rect, dir: FocusDir) -> bool {
    let same_rows = a.y < c.y + c.height && c.y < a.y + a.height;
    let same_columns = a.x < c.x + c.width && c.x < a.x + a.width;
    match dir {
        FocusDir::Left => c.x + c.width <= a.x && same_rows && b.x + b.width < c.x + c.width,
        FocusDir::Right => a.x + a.width <= c.x && same_rows && c.x < b.x,
        FocusDir::Up => c.y + c.height <= a.y && same_columns && b.y + b.height < c.y + c.height,
        FocusDir::Down => a.y + a.height <= c.y && same_columns && c.y < b.y,
    }
}

/// Where a pane lies in a direction, the focus moves.
pub proof fn law_focus_moves_where_there_is_a_pane(
    t: TabView,
    u: TabView,
    areas: Seq<Rect>,
    dir: FocusDir,
    k: int,
)
    requires
        t.is_focus_moved(u, areas, dir),
        t.focus < areas.len(),
        areas[t.focus as int].width > 0,
        areas[t.focus as int].height > 0,
        0 <= k < areas.len(),
        ({
            let a = areas[t.focus as int];
            let b = areas[k];
            let same_rows = a.y < b.y + b.height && b.y < a.y + a.height;
            let same_columns = a.x < b.x + b.width && b.x < a.x + a.width;
            match dir {
                FocusDir::Left => b.x + b.width <= a.x && same_rows,
                FocusDir::Right => a.x + a.width <= b.x && same_rows,
                FocusDir::Up => b.y + b.height <= a.y && same_columns,
                FocusDir::Down => a.y + a.height <= b.y && same_columns,
            }
        }),
    ensures
        u.focus != t.focus,
{
    let r = choose|r: Option<usize>| #[trigger]
        tab::is_neighbor(areas, t.focus as int, dir, r) && u == (match r {
            Some(i) => TabView { focus: i, ..t },
            None => t,
        });
    assert(tab::lies_beside(areas[t.focus as int], areas[k], dir));
    if let Some(i) = r {
        assert(tab::lies_beside(areas[t.focus as int], areas[i as int], dir));
    }
}

/// A pane that is opened takes the place of the one with the focus, and no other
/// pane or tab is changed. A tab with one pane is called after it.
pub proof fn law_opened_pane_takes_the_focused_place(a: AppView, p: PaneView, name: Seq<char>)
    requires
        a.valid(),
        !(p is Split),
        a.tab().focus < pane::count(a.tab().root),
    ensures
        ({
            let b = a.with_browser(p, name);
            &&& b.selected == a.selected
            &&& b.tabs.len() == a.tabs.len()
            &&& forall|i: int|
                0 <= i < a.tabs.len() && i != a.selected ==> #[trigger] b.tabs[i] == a.tabs[i]
            &&& leaves::leaves(b.tab().root) == leaves::leaves(a.tab().root).update(
                a.tab().focus as int,
                p,
            )
            &&& b.tab().focus == a.tab().focus
            &&& b.tab().name == (if pane::count(a.tab().root) == 1 {
                name
            } else {
                a.tab().name
            })
        }),
{
    leaves::law_leaf_is_found(a.tab().root, a.tab().focus as int);
    leaves::law_replacing_changes_one_leaf(a.tab().root, a.tab().focus as int, p);
}

/// A session that is opened is that session, with its arguments, and is called
/// after the last of them.
pub proof fn law_session_is_called_after_its_host(
    a: AppView,
    words: Seq<Seq<char>>,
    gaps: Seq<Seq<char>>,
    host: Seq<char>,
)
    requires
        listing_laws::are_spaced(words, gaps),
        listing_laws::is_word(host),
    ensures
        app::session_name(listing_laws::spaced(words, gaps, host)) == host,
{
    listing_laws::law_words_are_read_back(words, gaps, host);
}

/// Zooming shows the pane with the focus alone, and zooming again all of them. A
/// tab with one pane has nothing to zoom.
pub proof fn law_zoom_goes_on_and_off(a: AppView, b: AppView, full: Rect)
    requires
        a.valid(),
        a.is_zoomed_to(b, full),
    ensures
        pane::count(a.tab().root) <= 1 ==> b == a,
        pane::count(a.tab().root) > 1 ==> b.tab().zoom == !a.tab().zoom && b.tab().focus
            == a.tab().focus && b.selected == a.selected && b.tabs.len() == a.tabs.len(),
{
}

// ---------------------------------------------------------------------------
// The overlay of an ended process
// ---------------------------------------------------------------------------

/// Where the process of a pane has ended, the first choice asks for the same
/// connection again, and the other closes the pane. The arrow keys go from one to
/// the other.
pub proof fn law_ended_pane_is_reopened_or_closed(
    a: AppView,
    b: AppView,
    p: PaneView,
    full: Rect,
)
    requires
        a.valid(),
        a.focused() == Some(p),
        input::has_ended(p),
        a.is_exit_keyed(b, KeyCode::Enter, full),
    ensures
        input::exit_choice(p) == 0 ==> b == (AppView { request: b.request, ..a }) && match p {
            PaneView::Session { ssh_args, .. } => b.request == Some(OpenView::Manual(ssh_args)),
            PaneView::FileBrowser { browser } => b.request == Some(
                OpenView::SftpAgain(browser.core.host),
            ),
            PaneView::SshBrowser { browser } => b.request == Some(
                OpenView::ScpAgain(browser.core.host),
            ),
            _ => false,
        },
        input::exit_choice(p) != 0 ==> a.is_closed_to(b, full),
        input::exit_choice(p) == 0 ==> input::exit_choice(input::with_other_choice(p)) == 1,
        input::exit_choice(p) == 1 ==> input::exit_choice(input::with_other_choice(p)) == 0,
{
    assert(0u8 ^ 1u8 == 1u8) by (bit_vector);
    assert(1u8 ^ 1u8 == 0u8) by (bit_vector);
}

// ---------------------------------------------------------------------------
// Pasting
// ---------------------------------------------------------------------------

/// A text that is pasted into a session is sent as it is, between the marks by
/// which a program tells it from what is typed.
pub proof fn law_paste_is_sent_between_marks(p: PaneView, s: Seq<char>, now: u64)
    requires
        p is Session,
    ensures
        ({
            let q = input::leaf_pasted(p, s, now);
            let sent = q->terminal.outbox.last();
            &&& q is Session
            &&& q->terminal.outbox.drop_last() == p->terminal.outbox
            &&& q->terminal.outbox.len() == p->terminal.outbox.len() + 1
            &&& sent.len() == s.len() + 12
            &&& sent.take(6) == seq!['\x1b', '[', '2', '0', '0', '~']
            &&& sent.subrange(6, sent.len() - 6) == s
            &&& sent.skip(sent.len() - 6) == seq!['\x1b', '[', '2', '0', '1', '~']
        }),
{
    reveal_strlit("\x1b[200~");
    reveal_strlit("\x1b[201~");
    let sent = input::leaf_pasted(p, s, now)->terminal.outbox.last();
    assert(sent.take(6) =~= seq!['\x1b', '[', '2', '0', '0', '~']);
    assert(sent.subrange(6, sent.len() - 6) =~= s);
    assert(sent.skip(sent.len() - 6) =~= seq!['\x1b', '[', '2', '0', '1', '~']);
    let q = input::leaf_pasted(p, s, now);
    assert(q->terminal.outbox.drop_last() =~= p->terminal.outbox);
}

// ---------------------------------------------------------------------------
// The list of hosts
// ---------------------------------------------------------------------------

/// In the list of hosts the keys for the next and the previous host move the
/// cursor by one row, and stop at the first.
pub proof fn law_cursor_moves_by_one(s: ListState, i: usize)
    requires
        s.selected == Some(i),
        i < usize::MAX,
    ensures
        s.advanced().selected == Some((i + 1) as usize),
        i > 0 ==> s.retreated().selected == Some((i - 1) as usize),
        i == 0 ==> s.retreated().selected == Some(0usize),
        s.advanced().retreated() == s,
{
}

/// The keys of the list of hosts: to move the cursor, to connect to the host under
/// it, and to open the overlays.
pub proof fn law_list_keys_act_on_the_host_under_the_cursor(
    c: ConnectPaneView,
    code: KeyCode,
    ctrl: bool,
    alt: bool,
    shift: bool,
    b: ConnectBindings,
)
    requires
        c.overlay is Closed,
        ({
            let all = seq![
                b.select_prev,
                b.select_next,
                b.connect,
                b.browser_menu,
                b.manual_connect,
                b.help,
            ];
            forall|i: int, j: int|
                0 <= i < j < all.len() ==> !((#[trigger] all[i]).fits(code, ctrl, alt, shift) && (
                #[trigger] all[j]).fits(code, ctrl, alt, shift))
        }),
    ensures
        ({
            let (n, r) = c.keyed(code, ctrl, alt, shift, b);
            &&& b.select_prev.fits(code, ctrl, alt, shift) ==> r is Nothing && n.list_state
                == c.list_state.retreated() && n.overlay is Closed
            &&& b.select_next.fits(code, ctrl, alt, shift) ==> r is Nothing && n.list_state
                == c.list_state.advanced() && n.overlay is Closed
            &&& b.connect.fits(code, ctrl, alt, shift) ==> n == c && match c.list_state.selected {
                Some(i) => r == RequestView::Session(i),
                None => r is Nothing,
            }
            &&& b.browser_menu.fits(code, ctrl, alt, shift) ==> r is Nothing
                && n.overlay is BrowserMenu && n.list_state == c.list_state
            &&& b.manual_connect.fits(code, ctrl, alt, shift) ==> r is Nothing
                && n.overlay is ConnectInput && n.list_state == c.list_state
                && n.overlay->ConnectInput_0.text.len() == 0
            &&& b.help.fits(code, ctrl, alt, shift) ==> r is Nothing && n.overlay is KeyEditor
                && n.list_state == c.list_state
        }),
{
    let all = seq![
        b.select_prev,
        b.select_next,
        b.connect,
        b.browser_menu,
        b.manual_connect,
        b.help,
    ];
    assert(all[0] == b.select_prev && all[1] == b.select_next && all[2] == b.connect);
    assert(all[3] == b.browser_menu && all[4] == b.manual_connect && all[5] == b.help);
}

/// The menu of browsers opens what its item says on the host under the cursor.
pub proof fn law_browser_menu_opens_what_it_says(c: ConnectPaneView, menu: ListState, host: usize)
    requires
        c.overlay == OverlayView::BrowserMenu(menu),
        c.list_state.selected == Some(host),
        menu.selected is Some,
        menu.selected->0 < 2,
    ensures
        ({
            let (n, r) = c.menu_keyed(menu, KeyCode::Enter);
            let item = BROWSER_MENU_ITEMS@[menu.selected->0 as int]@;
            &&& n.overlay is Closed
            &&& n.list_state == c.list_state
            &&& item[0] == 'S' && item[1] == 'F' ==> r == RequestView::Sftp(host)
            &&& item[0] == 'S' && item[1] == 'C' ==> r == RequestView::Scp(host)
            &&& !(r is Nothing)
        }),
{
    reveal_strlit("SFTP");
    reveal_strlit("SCP (legacy, linux target)");
}

/// What the list of hosts asks for is what the application is then asked to open.
pub proof fn law_requests_are_passed_on(a: AppView, i: usize, s: Seq<char>)
    ensures
        a.requested(RequestView::Session(i)).request == Some(OpenView::Session(i)),
        a.requested(RequestView::Manual(s)).request == Some(OpenView::Manual(s)),
        a.requested(RequestView::Sftp(i)).request == Some(OpenView::Sftp(i)),
        a.requested(RequestView::Scp(i)).request == Some(OpenView::Scp(i)),
        a.requested(RequestView::Nothing) == a,
        a.requested(RequestView::Sftp(i)).tabs == a.tabs,
{
}

/// What was typed is connected to without the white space around it. Nothing but
/// white space connects to nothing.
pub proof fn law_typed_text_is_connected_to(
    c: ConnectPaneView,
    before: Seq<char>,
    s: Seq<char>,
    after: Seq<char>,
    cursor: usize,
    ctrl: bool,
    alt: bool,
)
    requires
        forall|i: int| 0 <= i < before.len() ==> text::is_white(#[trigger] before[i]),
        forall|i: int| 0 <= i < after.len() ==> text::is_white(#[trigger] after[i]),
        listing_laws::is_tight(s),
    ensures
        c.input_keyed(
            InputView { text: before + s + after, cursor },
            KeyCode::Enter,
            ctrl,
            alt,
        ).1 == RequestView::Manual(s),
{
    listing_laws::law_trimming(before, s, after);
}

// ---------------------------------------------------------------------------
// The input field
// ---------------------------------------------------------------------------

/// A character is typed at the cursor, which moves behind it, and erasing takes it
/// back. What is before and behind the cursor stays.
pub proof fn law_typing_and_erasing(i: InputView, c: char)
    requires
        i.cursor <= i.text.len(),
        i.text.len() < usize::MAX,
    ensures
        ({
            let t = i.typed(c);
            let at = i.cursor as int;
            &&& t.text.len() == i.text.len() + 1
            &&& t.text.take(at) == i.text.take(at)
            &&& t.text[at] == c
            &&& t.text.skip(at + 1) == i.text.skip(at)
            &&& t.cursor == at + 1
            &&& t.erased() == i
            &&& t.with_cursor(at).deleted() == i
        }),
{
    let t = i.typed(c);
    let at = i.cursor as int;
    assert(t.text.take(at) =~= i.text.take(at));
    assert(t.text.skip(at + 1) =~= i.text.skip(at));
    assert(t.erased() =~= i);
    assert(t.with_cursor(at).deleted() =~= i);
}

/// The arrow keys move the cursor by one character, inside the text; Home and End
/// move it to the ends. None of them changes the text.
pub proof fn law_cursor_keys_move_the_cursor(
    c: ConnectPaneView,
    i: InputView,
    ctrl: bool,
    alt: bool,
)
    requires
        i.cursor <= i.text.len(),
        i.text.len() <= usize::MAX,
    ensures
        ({
            let left = c.input_keyed(i, KeyCode::Left, ctrl, alt).0.overlay;
            let right = c.input_keyed(i, KeyCode::Right, ctrl, alt).0.overlay;
            let home = c.input_keyed(i, KeyCode::Home, ctrl, alt).0.overlay;
            let end = c.input_keyed(i, KeyCode::End, ctrl, alt).0.overlay;
            &&& left is ConnectInput && left->ConnectInput_0.text == i.text
            &&& i.cursor > 0 ==> left->ConnectInput_0.cursor == i.cursor - 1
            &&& i.cursor == 0 ==> left->ConnectInput_0.cursor == 0
            &&& right is ConnectInput && right->ConnectInput_0.text == i.text
            &&& i.cursor < i.text.len() ==> right->ConnectInput_0.cursor == i.cursor + 1
            &&& i.cursor == i.text.len() ==> right->ConnectInput_0.cursor == i.cursor
            &&& home is ConnectInput && home->ConnectInput_0 == (InputView { cursor: 0, ..i })
            &&& end is ConnectInput && end->ConnectInput_0 == (InputView {
                cursor: i.text.len() as usize,
                ..i
            })
        }),
{
}

/// A text without control characters is pasted at the cursor as it is.
pub proof fn law_paste_goes_to_the_cursor(i: InputView, s: Seq<char>, n: int)
    requires
        i.cursor <= i.text.len(),
        i.text.len() + s.len() <= usize::MAX,
        0 <= n <= s.len(),
        forall|k: int| 0 <= k < s.len() ==> !text::is_control(#[trigger] s[k]),
    ensures
        i.with_pasted(s, n).text == i.text.take(i.cursor as int) + s.take(n) + i.text.skip(
            i.cursor as int,
        ),
        i.with_pasted(s, n).cursor == i.cursor + n,
    decreases n,
{
    let at = i.cursor as int;
    if n > 0 {
        law_paste_goes_to_the_cursor(i, s, n - 1);
        let b = i.with_pasted(s, n - 1);
        assert(s.take(n) =~= s.take(n - 1).push(s[n - 1]));
        assert(b.text.insert(b.at(), s[n - 1]) =~= i.text.take(at) + s.take(n) + i.text.skip(at));
    } else {
        assert(i.text =~= i.text.take(at) + s.take(0) + i.text.skip(at));
    }
}

// ---------------------------------------------------------------------------
// The configuration of `ssh`
// ---------------------------------------------------------------------------

/// A line of the configuration of `ssh` with the word `Host`, in any case, names
/// all words behind it but patterns, in their order. Other lines name none.
pub proof fn law_host_lines_name_hosts(line: Seq<char>)
    ensures
        ({
            let w = text::words_of(line);
            if w.len() > 0 && text::ascii_lowered(w[0]) == seq!['h', 'o', 's', 't'] {
                ssh_config::hosts_in(line) == w.skip(1).filter(
                    |s: Seq<char>|
                        forall|i: int|
                            0 <= i < s.len() ==> #[trigger] s[i] != '*' && s[i] != '?' && s[i]
                                != '!',
                )
            } else {
                ssh_config::hosts_in(line).len() == 0
            }
        }),
{
    reveal_strlit("host");
    assert("host"@ =~= seq!['h', 'o', 's', 't']);
    let w = text::words_of(line);
    if w.len() > 0 {
        lemma_hosts_among(w, w.len() as int);
        assert(w.subrange(1, w.len() as int) =~= w.skip(1));
    }
}

proof fn lemma_hosts_among(w: Seq<Seq<char>>, n: int)
    requires
        1 <= n <= w.len(),
    ensures
        ssh_config::hosts_among(w, n) == w.subrange(1, n).filter(
            |s: Seq<char>|
                forall|i: int|
                    0 <= i < s.len() ==> #[trigger] s[i] != '*' && s[i] != '?' && s[i] != '!',
        ),
    decreases n,
{
    let f = |s: Seq<char>|
        forall|i: int| 0 <= i < s.len() ==> #[trigger] s[i] != '*' && s[i] != '?' && s[i] != '!';
    reveal(Seq::filter);
    if n > 1 {
        lemma_hosts_among(w, n - 1);
        let t = w.subrange(1, n);
        assert(t.drop_last() =~= w.subrange(1, n - 1));
        let s = t.last();
        assert(s == w[n - 1]);
        assert(f(s) == ssh_config::is_host_name(s)) by {
            if f(s) {
                assert(!s.contains('*') && !s.contains('?') && !s.contains('!'));
            }
            if ssh_config::is_host_name(s) {
                assert forall|i: int| 0 <= i < s.len() implies #[trigger] s[i] != '*' && s[i]
                    != '?' && s[i] != '!' by {
                    assert(s.contains(s[i]));
                }
            }
        }
    } else {
        assert(w.subrange(1, n) =~= Seq::empty());
    }
}

/// The hosts of some lines and others are those of the ones and then those of the
/// others.
pub proof fn law_hosts_come_line_by_line(s: Seq<Seq<char>>, n: int)
    requires
        0 <= n < s.len(),
    ensures
        ssh_config::hosts_before(s, n + 1) == ssh_config::hosts_before(s, n)
            + ssh_config::hosts_in(s[n]),
        ssh_config::hosts_before(s, 0).len() == 0,
{
}

/// Putting the cursor of a list at an item keeps what is in sight; taking it away shows
/// the list from its start.
pub proof fn law_list_stays_in_sight(s: ListState, i: usize)
    ensures
        s.with_selected(Some(i)).selected == Some(i),
        s.with_selected(Some(i)).offset == s.offset,
        s.with_selected(None).selected is None,
        s.with_selected(None).offset == 0,
        ListState::at_first().selected == Some(0usize),
        ListState::at_first().offset == 0,
{
}

// ---------------------------------------------------------------------------
// Who gets a key
// ---------------------------------------------------------------------------

/// A key that one of the bindings for the whole application is for is taken by the
/// application, in whatever pane, and every other key is left to the pane.
pub proof fn law_global_keys_work_everywhere(
    a: AppView,
    b: AppView,
    action: Action,
    code: KeyCode,
    ctrl: bool,
    alt: bool,
    shift: bool,
    full: Rect,
    time: u64,
    dirs: Seq<bool>,
)
    requires
        a.menu is None,
        !a.capturing(),
        a.is_keyed(b, action, code, ctrl, alt, shift, full, time, dirs),
    ensures
        (exists|i: int|
            0 <= i < global_keys(a).len() && (#[trigger] global_keys(a)[i]).fits(
                code,
                ctrl,
                alt,
                shift,
            )) ==> a.is_global_keyed(b, action, code, ctrl, alt, shift, full),
        (forall|i: int|
            0 <= i < global_keys(a).len() ==> !(#[trigger] global_keys(a)[i]).fits(
                code,
                ctrl,
                alt,
                shift,
            )) ==> action == Action::Continue && a.is_pane_keyed(
            b,
            code,
            ctrl,
            alt,
            shift,
            full,
            time,
            dirs,
        ),
{
    let g = a.keybindings.global;
    let all = global_keys(a);
    assert(all[0] == g.quit && all[1] == g.prev_tab && all[2] == g.next_tab);
    assert(all[3] == g.focus_left && all[4] == g.focus_right && all[5] == g.focus_up);
    assert(all[6] == g.focus_down && all[7] == g.close && all[8] == g.new_tab);
    assert(all[9] == g.split_horizontal && all[10] == g.split_vertical && all[11] == g.zoom);
}

/// The pane with the focus gets the key: the list of hosts, a browser or a session, but
/// for a pane whose process has ended, which offers its choice.
pub proof fn law_focused_pane_gets_the_key(
    a: AppView,
    b: AppView,
    p: PaneView,
    code: KeyCode,
    ctrl: bool,
    shift: bool,
    full: Rect,
    time: u64,
    dirs: Seq<bool>,
)
    requires
        a.focused() == Some(p),
        a.is_pane_keyed(b, code, ctrl, false, shift, full, time, dirs),
    ensures
        p is Connect ==> b == a.connect_keyed(code, ctrl, false, shift),
        input::has_ended(p) ==> a.is_exit_keyed(b, code, full),
        (p is FileBrowser || p is SshBrowser) && !input::has_ended(p) ==> b == a.browser_keyed(
            code,
            ctrl,
            false,
            shift,
            time,
            dirs,
        ),
        p is Session && !input::has_ended(p) ==> b == a.session_keyed(
            code,
            ctrl,
            false,
            p->terminal.app_cursor,
        ),
{
    reveal(AppView::is_pane_keyed);
}

/// The arrow keys to the sides go from one choice to the other where a process has
/// ended, and the other keys but enter do nothing.
pub proof fn law_arrows_change_the_choice(
    a: AppView,
    b: AppView,
    p: PaneView,
    code: KeyCode,
    full: Rect,
)
    requires
        a.valid(),
        a.focused() == Some(p),
        input::has_ended(p),
        a.is_exit_keyed(b, code, full),
    ensures
        code is Left || code is Right ==> b == a.with_focused(input::with_other_choice(p)),
        !(code is Left || code is Right || code is Enter) ==> b == a,
        input::has_ended(input::with_other_choice(p)),
        input::exit_choice(p) == 0 ==> input::exit_choice(input::with_other_choice(p)) == 1,
{
    assert(0u8 ^ 1u8 == 1u8) by (bit_vector);
}

/// In the key editor the arrow keys go from one combination to the next, in the order of
/// the table, and stop at its ends.
pub proof fn law_editor_goes_through_the_table(row: usize, i: usize)
    requires
        connect::binding_in_row(row) == Some(i),
    ensures
        i < 27 ==> connect::binding_in_row(connect::editor_row_below(row)) == Some((i + 1) as usize),
        i == 27 ==> connect::editor_row_below(row) == row,
        i > 0 ==> connect::binding_in_row(connect::editor_row_above(row)) == Some((i - 1) as usize),
        i == 0 ==> connect::editor_row_above(row) == row,
{
}

} // verus!
