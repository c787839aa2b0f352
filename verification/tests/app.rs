//! The tabs of the application and its context menu.
use sshmux::app::{context_menu_rect, App};
use sshmux::geometry::{Rect, MENU_HEIGHT, MENU_WIDTH};
use sshmux::pane::Pane;

fn make_app() -> App {
    App::new()
}

#[test]
fn new_app_has_one_tab() {
    let app = make_app();
    assert_eq!(app.tabs.len(), 1);
    assert_eq!(app.selected_tab, 0);
}

#[test]
fn new_tab_appends_and_selects() {
    let mut app = make_app();
    app.new_tab();
    assert_eq!(app.tabs.len(), 2);
    assert_eq!(app.selected_tab, 1);
}

#[test]
fn new_tab_names_incrementally() {
    let mut app = make_app();
    app.new_tab();
    assert_eq!(app.tabs[1].name, "2");
    app.new_tab();
    assert_eq!(app.tabs[2].name, "3");
}

#[test]
fn close_tab_removes_current() {
    let mut app = make_app();
    app.new_tab();
    app.new_tab();
    assert_eq!(app.tabs.len(), 3);
    app.selected_tab = 1;
    app.close_tab();
    assert_eq!(app.tabs.len(), 2);
}

#[test]
fn close_last_tab_recreates_default() {
    let mut app = make_app();
    app.close_tab();
    assert_eq!(app.tabs.len(), 1);
    assert_eq!(app.selected_tab, 0);
    assert_eq!(app.tabs[0].name, "1");
}

#[test]
fn close_tab_clamps_index() {
    let mut app = make_app();
    app.new_tab();
    app.selected_tab = 1;
    app.close_tab();
    assert_eq!(app.selected_tab, 0);
}

#[test]
fn close_tab_middle_preserves_order() {
    let mut app = make_app();
    app.new_tab(); // "2"
    app.new_tab(); // "3"
    app.selected_tab = 1;
    app.close_tab();
    assert_eq!(app.tabs.len(), 2);
    assert_eq!(app.tabs[0].name, "1");
    assert_eq!(app.tabs[1].name, "3");
}

#[test]
fn tab_accessors() {
    let mut app = make_app();
    app.new_tab();
    app.selected_tab = 0;
    assert_eq!(app.tab().name, "1");
    app.tab_mut().name = "renamed".to_string();
    assert_eq!(app.tab().name, "renamed");
}

#[test]
fn focused_pane_is_connect_by_default() {
    let app = make_app();
    assert!(matches!(
        app.tab().focused_pane(),
        Some(Pane::Connect(_))
    ));
}

// ---- context_menu_rect tests ----

#[test]
fn context_menu_rect_center() {
    let screen = Rect::new(0, 0, 80, 24);
    let r = context_menu_rect(40, 10, screen);
    assert_eq!(r.width, MENU_WIDTH);
    assert_eq!(r.height, MENU_HEIGHT);
    assert_eq!(r.x, 40 - MENU_WIDTH / 2);
    assert_eq!(r.y, 10);
}

#[test]
fn context_menu_rect_clamp_left() {
    let screen = Rect::new(0, 0, 80, 24);
    let r = context_menu_rect(2, 10, screen);
    assert_eq!(r.x, 0);
}

#[test]
fn context_menu_rect_clamp_right() {
    let screen = Rect::new(0, 0, 80, 24);
    let r = context_menu_rect(78, 10, screen);
    assert!(r.x + r.width <= screen.width);
}

#[test]
fn context_menu_rect_clamp_bottom() {
    let screen = Rect::new(0, 0, 80, 24);
    let r = context_menu_rect(40, 22, screen);
    assert!(r.y + r.height <= screen.height);
}

#[test]
fn context_menu_rect_top_left_corner() {
    let screen = Rect::new(0, 0, 80, 24);
    let r = context_menu_rect(0, 0, screen);
    assert_eq!(r.x, 0);
    assert_eq!(r.y, 0);
}

#[test]
fn context_menu_rect_bottom_right_corner() {
    let screen = Rect::new(0, 0, 80, 24);
    let r = context_menu_rect(79, 23, screen);
    assert!(r.x + r.width <= screen.width);
    assert!(r.y + r.height <= screen.height);
}
