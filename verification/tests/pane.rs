//! The tree of panes: areas, leaves, separators and the frame around them.
use ratatui::buffer::Buffer;
use ratatui::text::{Line, Span};
use ratatui::widgets::{Block, Borders, Widget};
use sshmux::geometry::{pane_border_inner, pane_inner, split_areas, Rect, Split};
use sshmux::pane::{hit_test_separator, remove_leaf, split_at_path_mut, Pane};
use sshmux::tab::{find_directional_neighbor, FocusDir};
use sshmux::view::tree::{draw_title_bar, draw_title_row, Canvas, PaneTreeView};

fn r(w: u16, h: u16) -> Rect {
    Rect {
        x: 0,
        y: 0,
        width: w,
        height: h,
    }
}
fn connect() -> Pane {
    Pane::new_connect()
}
fn hsplit() -> Pane {
    Pane::Split {
        kind: Split::LeftRight,
        children: vec![connect(), connect()],
        ratios: vec![100, 100],
    }
}
fn vsplit() -> Pane {
    Pane::Split {
        kind: Split::TopBottom,
        children: vec![connect(), connect()],
        ratios: vec![100, 100],
    }
}

// ---- split_areas -------------------------------------------------------

#[test]
fn split_areas_horizontal_even() {
    // 100-wide split into 2 panes with a 1-cell separator: widths are 50 + 49 = 99.
    let a = split_areas(r(100, 20), Split::LeftRight, &vec![100, 100]);
    assert_eq!(
        a[0],
        Rect {
            x: 0,
            y: 0,
            width: 50,
            height: 20
        }
    );
    assert_eq!(
        a[1],
        Rect {
            x: 51,
            y: 0,
            width: 49,
            height: 20
        }
    );
}

#[test]
fn split_areas_horizontal_remainder() {
    // 1 cell reserved for separator between the 2 panes.
    let a = split_areas(r(101, 20), Split::LeftRight, &vec![100, 100]);
    assert_eq!(a[0].width + a[1].width, 100);
}

#[test]
fn split_areas_vertical_even() {
    // TopBottom has no spacing: each pane's title bar acts as the visual separator.
    let a = split_areas(r(80, 40), Split::TopBottom, &vec![100, 100]);
    assert_eq!(
        a[0],
        Rect {
            x: 0,
            y: 0,
            width: 80,
            height: 20
        }
    );
    assert_eq!(
        a[1],
        Rect {
            x: 0,
            y: 20,
            width: 80,
            height: 20
        }
    );
}

#[test]
fn split_areas_vertical_three() {
    // TopBottom has no spacing: heights sum to the full parent height.
    let a = split_areas(r(80, 30), Split::TopBottom, &vec![100, 100, 100]);
    assert_eq!(a.len(), 3);
    assert_eq!(a.iter().map(|x| x.height).sum::<u16>(), 30);
}

#[test]
fn split_areas_empty() {
    assert!(split_areas(r(80, 40), Split::LeftRight, &vec![]).is_empty());
}

// ---- leaf_count --------------------------------------------------------

#[test]
fn leaf_count_single() {
    assert_eq!(connect().leaf_count(), 1);
}

#[test]
fn leaf_count_split() {
    assert_eq!(hsplit().leaf_count(), 2);
}

#[test]
fn leaf_count_nested() {
    let p = Pane::Split {
        kind: Split::LeftRight,
        children: vec![connect(), vsplit()],
        ratios: vec![100, 100],
    };
    assert_eq!(p.leaf_count(), 3);
}

// ---- leaf / leaf_areas -------------------------------------------------

#[test]
fn leaf_single_bounds() {
    let p = connect();
    assert!(p.leaf(0).is_some());
    assert!(p.leaf(1).is_none());
}

#[test]
fn leaf_split_dfs_order() {
    let p = hsplit();
    assert!(matches!(p.leaf(0), Some(Pane::Connect(_))));
    assert!(p.leaf(2).is_none());
}

#[test]
fn leaf_areas_covers_full() {
    assert_eq!(connect().leaf_areas(r(100, 50)), vec![r(100, 50)]);
}

#[test]
fn leaf_areas_sum_equals_parent() {
    // 1 cell is the separator between the two panes.
    let a = hsplit().leaf_areas(r(100, 50));
    assert_eq!(a[0].width + a[1].width, 99);
}

#[test]
fn leaf_areas_count_matches_leaf_count() {
    let p = Pane::Split {
        kind: Split::LeftRight,
        children: vec![connect(), vsplit()],
        ratios: vec![100, 100],
    };
    assert_eq!(p.leaf_areas(r(120, 60)).len(), p.leaf_count());
}

// ---- remove_leaf -------------------------------------------------------

#[test]
fn remove_leaf_first() {
    let mut p = hsplit();
    remove_leaf(&mut p, 0);
    assert_eq!(p.leaf_count(), 1);
}

#[test]
fn remove_leaf_second() {
    let mut p = hsplit();
    remove_leaf(&mut p, 1);
    assert_eq!(p.leaf_count(), 1);
}

#[test]
fn remove_leaf_nested() {
    let mut p = Pane::Split {
        kind: Split::LeftRight,
        children: vec![connect(), vsplit()],
        ratios: vec![100, 100],
    };
    remove_leaf(&mut p, 1);
    assert_eq!(p.leaf_count(), 2);
}

#[test]
fn remove_leaf_noop_on_single() {
    let mut p = connect();
    remove_leaf(&mut p, 0); // must not panic
    assert_eq!(p.leaf_count(), 1);
}

// ---- pane_inner --------------------------------------------------------

#[test]
fn pane_inner_shrinks_by_one() {
    // pane_inner strips the bottom tab-bar row; x/y/width are unchanged.
    let inner = pane_inner(r(10, 8));
    assert_eq!(inner.x, 0);
    assert_eq!(inner.y, 0);
    assert_eq!(inner.width, 10);
    assert_eq!(inner.height, 7);
}

#[test]
fn pane_inner_saturates_at_zero() {
    let inner = pane_inner(Rect {
        x: 0,
        y: 0,
        width: 1,
        height: 1,
    });
    assert_eq!(inner.height, 0);
}

// ---- leaf_mut ----------------------------------------------------------

#[test]
fn leaf_mut_single() {
    let mut p = connect();
    assert!(p.leaf_mut(0).is_some());
    assert!(p.leaf_mut(1).is_none());
}

#[test]
fn leaf_mut_split() {
    let mut p = hsplit();
    assert!(p.leaf_mut(0).is_some());
    assert!(p.leaf_mut(1).is_some());
    assert!(p.leaf_mut(2).is_none());
}

#[test]
fn leaf_mut_nested() {
    let mut p = Pane::Split {
        kind: Split::LeftRight,
        children: vec![connect(), vsplit()],
        ratios: vec![100, 100],
    };
    assert!(p.leaf_mut(0).is_some());
    assert!(p.leaf_mut(1).is_some());
    assert!(p.leaf_mut(2).is_some());
    assert!(p.leaf_mut(3).is_none());
}

#[test]
fn leaf_mut_modifies_correct_pane() {
    let mut p = hsplit();
    // Replace leaf 1 with a differently-configured connect pane
    if let Some(pane) = p.leaf_mut(1) {
        *pane = connect();
    }
    assert!(matches!(p.leaf(1), Some(Pane::Connect(_))));
}

// ---- split_leaf --------------------------------------------------------

#[test]
fn split_leaf_increases_count() {
    let mut p = hsplit();
    p.split_leaf(0, Split::TopBottom);
    assert_eq!(p.leaf_count(), 3);
}

#[test]
fn split_leaf_nested() {
    let mut p = Pane::Split {
        kind: Split::LeftRight,
        children: vec![connect(), vsplit()],
        ratios: vec![100, 100],
    };
    p.split_leaf(2, Split::LeftRight);
    assert_eq!(p.leaf_count(), 4);
}

#[test]
fn split_leaf_noop_on_single() {
    // split_leaf on a non-Split pane is a no-op
    let mut p = connect();
    p.split_leaf(0, Split::LeftRight);
    assert_eq!(p.leaf_count(), 1);
}

// ---- remove_leaf (additional) ------------------------------------------

#[test]
fn remove_leaf_collapses_to_single() {
    let mut p = hsplit();
    remove_leaf(&mut p, 0);
    // After removing one child from a 2-child split, it collapses
    assert!(matches!(p, Pane::Connect(_)));
}

#[test]
fn remove_leaf_deep_nested() {
    // 4-leaf tree: split(connect, split(connect, split(connect, connect)))
    let mut p = Pane::Split {
        kind: Split::LeftRight,
        children: vec![
            connect(),
            Pane::Split {
                kind: Split::TopBottom,
                children: vec![
                    connect(),
                    Pane::Split {
                        kind: Split::LeftRight,
                        children: vec![connect(), connect()],
                        ratios: vec![100, 100],
                    },
                ],
                ratios: vec![100, 100],
            },
        ],
        ratios: vec![100, 100],
    };
    assert_eq!(p.leaf_count(), 4);
    remove_leaf(&mut p, 3); // remove deepest right leaf
    assert_eq!(p.leaf_count(), 3);
}

// ---- split_areas (additional) ------------------------------------------

#[test]
fn split_areas_single_element() {
    let a = split_areas(r(100, 50), Split::LeftRight, &vec![100]);
    assert_eq!(a.len(), 1);
    assert_eq!(a[0], r(100, 50));
}

#[test]
fn split_areas_vertical_remainder() {
    // TopBottom has no spacing: heights sum to the full parent height.
    let a = split_areas(r(80, 31), Split::TopBottom, &vec![100, 100]);
    assert_eq!(a[0].height + a[1].height, 31);
}

// ---- junction rendering ------------------------------------------------

fn render_to_buf(p: &mut Pane, area: Rect) -> Canvas {
    let mut canvas = Canvas::new(area);
    PaneTreeView { focus_idx: 0 }.render_with(p, area, &mut canvas);
    canvas
}

fn symbol(canvas: &Canvas, at: (u16, u16)) -> String {
    canvas.get(at.0 as u32, at.1 as u32).to_string()
}

// With Fill(1)/Length(1)/Fill(1) constraints and width=21, the two pane
// areas are x=0 w=10 and x=11 w=10, with the separator drawn at x=10.
// With width=41 the separator is at x=20, safely past the 11-char title.

#[test]
fn pane_junction_lr_separator_is_tee_down_at_top() {
    // LeftRight 2-pane: separator column starts with ┬ then │ below.
    let area = Rect { x: 0, y: 0, width: 21, height: 5 };
    let mut p = Pane::Split {
        kind: Split::LeftRight,
        children: vec![connect(), connect()],
        ratios: vec![100, 100],
    };
    let buf = render_to_buf(&mut p, area);
    assert_eq!(symbol(&buf, (10, 0)), "┬", "top of separator should be ┬");
    for y in 1..5u16 {
        assert_eq!(symbol(&buf, (10, y)), "│", "separator body at y={y} should be │");
    }
}

#[test]
fn pane_junction_title_bar_below_lr_separator_gets_tee_up() {
    let area = Rect { x: 0, y: 0, width: 41, height: 10 };
    let mut p = Pane::Split {
        kind: Split::TopBottom,
        children: vec![
            Pane::Split {
                kind: Split::LeftRight,
                children: vec![connect(), connect()],
                ratios: vec![100, 100],
            },
            connect(),
        ],
        ratios: vec![100, 100],
    };
    let buf = render_to_buf(&mut p, area);
    assert_eq!(symbol(&buf, (20, 0)), "┬", "separator top should be ┬");
    for y in 1..5u16 {
        assert_eq!(symbol(&buf, (20, y)), "│", "separator body at y={y} should be │");
    }
    assert_eq!(symbol(&buf, (20, 5)), "┴", "title bar below separator should be ┴");
}

#[test]
fn pane_junction_lr_separator_left_of_inner_tb_becomes_tee_right() {
    let area = Rect { x: 0, y: 0, width: 21, height: 10 };
    let mut p = Pane::Split {
        kind: Split::LeftRight,
        children: vec![
            connect(),
            Pane::Split {
                kind: Split::TopBottom,
                children: vec![connect(), connect()],
                ratios: vec![100, 100],
            },
        ],
        ratios: vec![100, 100],
    };
    let buf = render_to_buf(&mut p, area);
    assert_eq!(symbol(&buf, (10, 5)), "├");
}

#[test]
fn pane_junction_lr_separator_right_of_inner_tb_becomes_tee_left() {
    let area = Rect { x: 0, y: 0, width: 21, height: 10 };
    let mut p = Pane::Split {
        kind: Split::LeftRight,
        children: vec![
            Pane::Split {
                kind: Split::TopBottom,
                children: vec![connect(), connect()],
                ratios: vec![100, 100],
            },
            connect(),
        ],
        ratios: vec![100, 100],
    };
    let buf = render_to_buf(&mut p, area);
    assert_eq!(symbol(&buf, (10, 5)), "┤");
}

#[test]
fn pane_junction_stacked_lr_separators_at_same_column_produce_cross() {
    let area = Rect { x: 0, y: 0, width: 41, height: 10 };
    let mut p = Pane::Split {
        kind: Split::TopBottom,
        children: vec![
            Pane::Split {
                kind: Split::LeftRight,
                children: vec![connect(), connect()],
                ratios: vec![100, 100],
            },
            Pane::Split {
                kind: Split::LeftRight,
                children: vec![connect(), connect()],
                ratios: vec![100, 100],
            },
        ],
        ratios: vec![100, 100],
    };
    let buf = render_to_buf(&mut p, area);
    assert_eq!(symbol(&buf, (20, 5)), "┼");
}

// ---- split_areas with unequal ratios (drag resize effect) ---------------

#[test]
fn split_areas_lr_unequal_ratios_left_is_wider() {
    // ratio [200, 100] should give the left pane roughly double the right pane.
    let a = split_areas(r(90, 20), Split::LeftRight, &vec![200, 100]);
    // Total pane space = 89 (1 separator). Left ~ 59, right ~ 30.
    assert!(a[0].width > a[1].width, "left pane should be wider with ratio 200:100");
    assert!(a[0].width > a[1].width * 3 / 2, "left pane should be at least 1.5x right");
    assert_eq!(a[0].width + a[1].width, 89);
}

#[test]
fn split_areas_tb_unequal_ratios_top_is_taller() {
    // ratio [300, 100] should give the top pane roughly 3x the bottom.
    let a = split_areas(r(80, 40), Split::TopBottom, &vec![300, 100]);
    assert!(a[0].height > a[1].height, "top pane should be taller with ratio 300:100");
    assert!(a[0].height > a[1].height * 2, "top pane should be more than 2x bottom");
    assert_eq!(a[0].height + a[1].height, 40);
}

#[test]
fn split_areas_lr_min_ratio_still_allocates_space() {
    // Even with a very small ratio, the pane still gets at least some space.
    let a = split_areas(r(60, 10), Split::LeftRight, &vec![1, 99]);
    assert!(a[0].width >= 1);
    assert!(a[1].width >= 1);
    assert_eq!(a[0].width + a[1].width, 59); // 1 separator
}

// ---- hit_test_separator -------------------------------------------------

#[test]
fn hit_test_lr_hits_separator() {
    // r(21,10) with [100,100]: separator is at x=10 (child[0] has width=10).
    let p = hsplit();
    let areas = split_areas(r(21, 10), Split::LeftRight, &vec![100, 100]);
    let sep_x = areas[0].right();
    let hit = hit_test_separator(&p, r(21, 10), sep_x, 5);
    assert!(hit.is_some(), "should hit LR separator at x={sep_x}");
    let hit = hit.unwrap();
    assert_eq!(hit.sep_idx, 0);
    assert!(hit.horizontal);
    assert_eq!(hit.path, Vec::<usize>::new());
}

#[test]
fn hit_test_lr_misses_left_of_separator() {
    let p = hsplit();
    let areas = split_areas(r(21, 10), Split::LeftRight, &vec![100, 100]);
    let sep_x = areas[0].right();
    assert!(hit_test_separator(&p, r(21, 10), sep_x - 1, 5).is_none());
}

#[test]
fn hit_test_lr_misses_right_of_separator() {
    let p = hsplit();
    let areas = split_areas(r(21, 10), Split::LeftRight, &vec![100, 100]);
    let sep_x = areas[0].right();
    assert!(hit_test_separator(&p, r(21, 10), sep_x + 1, 5).is_none());
}

#[test]
fn hit_test_tb_hits_separator() {
    // r(80,20) with [100,100]: separator is the title bar row of child[1] at y=10.
    let p = vsplit();
    let areas = split_areas(r(80, 20), Split::TopBottom, &vec![100, 100]);
    let sep_y = areas[1].y;
    let hit = hit_test_separator(&p, r(80, 20), 40, sep_y);
    assert!(hit.is_some(), "should hit TB separator at y={sep_y}");
    let hit = hit.unwrap();
    assert_eq!(hit.sep_idx, 0);
    assert!(!hit.horizontal);
    assert_eq!(hit.path, Vec::<usize>::new());
}

#[test]
fn hit_test_tb_misses_above_separator() {
    let p = vsplit();
    let areas = split_areas(r(80, 20), Split::TopBottom, &vec![100, 100]);
    let sep_y = areas[1].y;
    assert!(hit_test_separator(&p, r(80, 20), 40, sep_y - 1).is_none());
}

#[test]
fn hit_test_leaf_returns_none() {
    assert!(hit_test_separator(&connect(), r(80, 20), 10, 10).is_none());
}

#[test]
fn hit_test_lr_three_panes_second_separator() {
    // 3-child LR split: sep[0] between child[0] and child[1], sep[1] between [1] and [2].
    let p = Pane::Split {
        kind: Split::LeftRight,
        children: vec![connect(), connect(), connect()],
        ratios: vec![100, 100, 100],
    };
    let area = r(62, 10);
    let areas = split_areas(area, Split::LeftRight, &vec![100, 100, 100]);
    let sep1_x = areas[1].right(); // right edge of child[1] = second separator
    let hit = hit_test_separator(&p, area, sep1_x, 5);
    assert!(hit.is_some(), "should hit second LR separator");
    assert_eq!(hit.unwrap().sep_idx, 1);
}

#[test]
fn hit_test_nested_prepends_path() {
    // Outer LeftRight: child[0]=connect, child[1]=TopBottom(connect, connect).
    // Clicking the TB separator inside child[1] should return path=[1].
    let inner_area_r = r(80, 20);
    let outer = Pane::Split {
        kind: Split::LeftRight,
        children: vec![
            connect(),
            Pane::Split {
                kind: Split::TopBottom,
                children: vec![connect(), connect()],
                ratios: vec![100, 100],
            },
        ],
        ratios: vec![100, 100],
    };
    let outer_areas = split_areas(inner_area_r, Split::LeftRight, &vec![100, 100]);
    let right_area = outer_areas[1];
    let inner_areas = split_areas(right_area, Split::TopBottom, &vec![100, 100]);
    let sep_y = inner_areas[1].y;
    // Click in the right child's TB separator row.
    let hit = hit_test_separator(&outer, inner_area_r, right_area.x + 2, sep_y);
    assert!(hit.is_some(), "should hit nested TB separator");
    let hit = hit.unwrap();
    assert_eq!(hit.path, vec![1], "path should point to child[1]");
    assert!(!hit.horizontal);
    assert_eq!(hit.sep_idx, 0);
}

#[test]
fn hit_test_split_area_is_containing_node_area() {
    // The split_area in the returned hit should match the area passed to the hit-testing Split.
    let p = hsplit();
    let area = r(21, 10);
    let areas = split_areas(area, Split::LeftRight, &vec![100, 100]);
    let sep_x = areas[0].right();
    let hit = hit_test_separator(&p, area, sep_x, 5).unwrap();
    assert_eq!(hit.split_area, area);
}

// ---- split_at_path_mut --------------------------------------------------

#[test]
fn split_at_path_empty_returns_root() {
    let mut p = hsplit();
    let result = split_at_path_mut(&mut p, &[]);
    assert!(result.is_some());
    assert!(matches!(result.unwrap(), Pane::Split { kind: Split::LeftRight, .. }));
}

#[test]
fn split_at_path_single_step_child0() {
    // path [0] navigates into child[0] — which is a leaf, so returns Some(leaf)
    let mut p = Pane::Split {
        kind: Split::LeftRight,
        children: vec![vsplit(), connect()],
        ratios: vec![100, 100],
    };
    let result = split_at_path_mut(&mut p, &[0]);
    assert!(result.is_some());
    assert!(matches!(result.unwrap(), Pane::Split { kind: Split::TopBottom, .. }));
}

#[test]
fn split_at_path_single_step_child1() {
    let mut p = Pane::Split {
        kind: Split::LeftRight,
        children: vec![connect(), vsplit()],
        ratios: vec![100, 100],
    };
    let result = split_at_path_mut(&mut p, &[1]);
    assert!(result.is_some());
    assert!(matches!(result.unwrap(), Pane::Split { kind: Split::TopBottom, .. }));
}

#[test]
fn split_at_path_nested_two_levels() {
    // root=LR(connect, TB(connect, LR(connect, connect)))
    // path [1, 1] should reach the inner LR split
    let mut p = Pane::Split {
        kind: Split::LeftRight,
        children: vec![
            connect(),
            Pane::Split {
                kind: Split::TopBottom,
                children: vec![
                    connect(),
                    Pane::Split {
                        kind: Split::LeftRight,
                        children: vec![connect(), connect()],
                        ratios: vec![100, 100],
                    },
                ],
                ratios: vec![100, 100],
            },
        ],
        ratios: vec![100, 100],
    };
    let result = split_at_path_mut(&mut p, &[1, 1]);
    assert!(result.is_some());
    assert!(matches!(result.unwrap(), Pane::Split { kind: Split::LeftRight, .. }));
}

#[test]
fn split_at_path_out_of_bounds_returns_none() {
    let mut p = hsplit(); // 2 children
    assert!(split_at_path_mut(&mut p, &[5]).is_none());
}

#[test]
fn split_at_path_into_leaf_returns_none() {
    // path [0, 0] into an LR split whose children are leaves — can't descend further
    let mut p = hsplit();
    assert!(split_at_path_mut(&mut p, &[0, 0]).is_none());
}

#[test]
fn split_at_path_mut_modifies_ratios() {
    // Verify we can actually mutate the node returned by split_at_path_mut.
    let mut p = hsplit();
    if let Some(Pane::Split { ratios, .. }) = split_at_path_mut(&mut p, &[]) {
        ratios[0] = 200;
    }
    if let Pane::Split { ratios, .. } = &p {
        assert_eq!(ratios[0], 200, "mutation through split_at_path_mut should be visible");
    }
}

// ---- the frame ---------------------------------------------------------

#[test]
fn view_junction_lr_separator_is_tee_down_at_top() {
    let mut tree = hsplit();
    let buf = render_to_buf(&mut tree, r(21, 5));
    assert_eq!(symbol(&buf, (10, 0)), "┬");
    for y in 1..5u16 {
        assert_eq!(symbol(&buf, (10, y)), "│");
    }
}

#[test]
fn view_junction_title_bar_below_lr_separator_gets_tee_up() {
    let mut tree = Pane::Split {
            kind: Split::TopBottom,
            children: vec![
                Pane::Split {
                    kind: Split::LeftRight,
                    children: vec![connect(), connect()],
                    ratios: vec![100, 100],
                },
                connect(),
            ],
            ratios: vec![100, 100],
        };
    let buf = render_to_buf(&mut tree, r(41, 10));
    assert_eq!(symbol(&buf, (20, 0)), "┬");
    for y in 1..5u16 {
        assert_eq!(symbol(&buf, (20, y)), "│");
    }
    assert_eq!(symbol(&buf, (20, 5)), "┴");
}

#[test]
fn view_junction_lr_separator_left_of_inner_tb_becomes_tee_right() {
    let mut tree = Pane::Split {
            kind: Split::LeftRight,
            children: vec![connect(), vsplit()],
            ratios: vec![100, 100],
        };
    let buf = render_to_buf(&mut tree, r(21, 10));
    assert_eq!(symbol(&buf, (10, 5)), "├");
}

#[test]
fn view_junction_lr_separator_right_of_inner_tb_becomes_tee_left() {
    let mut tree = Pane::Split {
            kind: Split::LeftRight,
            children: vec![vsplit(), connect()],
            ratios: vec![100, 100],
        };
    let buf = render_to_buf(&mut tree, r(21, 10));
    assert_eq!(symbol(&buf, (10, 5)), "┤");
}

#[test]
fn view_junction_stacked_lr_separators_at_same_column_produce_cross() {
    let mut tree = Pane::Split {
            kind: Split::TopBottom,
            children: vec![
                Pane::Split {
                    kind: Split::LeftRight,
                    children: vec![connect(), connect()],
                    ratios: vec![100, 100],
                },
                Pane::Split {
                    kind: Split::LeftRight,
                    children: vec![connect(), connect()],
                    ratios: vec![100, 100],
                },
            ],
            ratios: vec![100, 100],
        };
    let buf = render_to_buf(&mut tree, r(41, 10));
    assert_eq!(symbol(&buf, (20, 5)), "┼");
}

#[test]
fn single_leaf_gets_no_title_bar_and_full_area() {
    let tree = connect();
    let area = r(20, 6);
    let mut canvas = Canvas::new(area);
    let leaves = PaneTreeView { focus_idx: 0 }.render_with(&tree, area, &mut canvas);
    let seen: Vec<(usize, Rect, bool)> =
        leaves.iter().enumerate().map(|(i, l)| (i, l.inner, l.is_focus)).collect();
    assert_eq!(seen, [(0, area, true)]);
    assert!(canvas.cells.iter().all(|c| c == " "));
}

#[test]
fn leaves_receive_inner_below_title_and_focus_flag() {
    let tree = hsplit();
    let area = r(21, 6);
    let mut canvas = Canvas::new(area);
    let leaves = PaneTreeView { focus_idx: 1 }.render_with(&tree, area, &mut canvas);
    let calls: Vec<(usize, Rect, bool)> =
        leaves.iter().enumerate().map(|(i, l)| (i, l.inner, l.is_focus)).collect();
    assert_eq!(calls.len(), 2);
    assert_eq!(calls[0].0, 0);
    assert!(!calls[0].2);
    assert!(calls[1].2);
    // Inner areas start one row below the pane top (title bar).
    assert_eq!(calls[0].1.y, 1);
    assert_eq!(calls[1].1.y, 1);
}

#[test]
fn split_leaf_puts_the_new_pane_behind() {
    let mut p = Pane::Split {
        kind: Split::LeftRight,
        children: vec![connect(), connect()],
        ratios: vec![100, 100],
    };
    if let Some(Pane::Connect(c)) = p.leaf_mut(0) {
        c.list_state.select(Some(7));
    }
    assert!(p.split_leaf(0, Split::TopBottom));
    let rows: Vec<Option<usize>> = (0..3)
        .map(|i| match p.leaf(i) {
            Some(Pane::Connect(c)) => c.list_state.selected(),
            _ => None,
        })
        .collect();
    assert_eq!(rows, [Some(7), Some(0), Some(0)]);
    assert!(!p.split_leaf(3, Split::TopBottom));
}

#[test]
fn remove_leaf_keeps_the_order_of_the_others() {
    let mut p = Pane::Split {
        kind: Split::LeftRight,
        children: vec![connect(), connect(), connect()],
        ratios: vec![100, 200, 300],
    };
    for i in 0..3 {
        if let Some(Pane::Connect(c)) = p.leaf_mut(i) {
            c.list_state.select(Some(i));
        }
    }
    remove_leaf(&mut p, 1);
    let Pane::Split { children, ratios, .. } = &p else { panic!("still a split") };
    assert_eq!(ratios, &vec![100, 300]);
    let rows: Vec<Option<usize>> = children
        .iter()
        .map(|c| match c {
            Pane::Connect(c) => c.list_state.selected(),
            _ => None,
        })
        .collect();
    assert_eq!(rows, [Some(0), Some(2)]);
}

#[test]
fn neighbors_are_found_in_all_directions() {
    let p = Pane::Split {
        kind: Split::LeftRight,
        children: vec![connect(), vsplit()],
        ratios: vec![100, 100],
    };
    let areas = p.leaf_areas(r(81, 40));
    assert_eq!(find_directional_neighbor(&areas, 0, FocusDir::Right), Some(1));
    assert_eq!(find_directional_neighbor(&areas, 0, FocusDir::Left), None);
    assert_eq!(find_directional_neighbor(&areas, 1, FocusDir::Down), Some(2));
    assert_eq!(find_directional_neighbor(&areas, 2, FocusDir::Up), Some(1));
    assert_eq!(find_directional_neighbor(&areas, 2, FocusDir::Left), Some(0));
    assert_eq!(find_directional_neighbor(&areas, 9, FocusDir::Left), None);
}

#[test]
fn pane_border_inner_starts_below_the_title() {
    let inner = pane_border_inner(Rect { x: 3, y: 4, width: 10, height: 5 });
    assert_eq!(inner, Rect { x: 3, y: 5, width: 10, height: 4 });
    assert_eq!(pane_border_inner(r(5, 0)), r(5, 0));
}

#[test]
fn crossing_separators_hit_the_innermost() {
    let p = Pane::Split {
        kind: Split::TopBottom,
        children: vec![connect(), hsplit()],
        ratios: vec![100, 100],
    };
    let area = r(41, 10);
    // The column between the lower panes begins in the title bar above them.
    let hit = hit_test_separator(&p, area, 20, 5).unwrap();
    assert_eq!(hit.path, vec![1]);
    assert_eq!(hit.sep_idx, 0);
    assert!(hit.horizontal);
    assert_eq!(hit.split_area, Rect::new(0, 5, 41, 5));
    // Beside it the title bar itself is hit.
    let hit = hit_test_separator(&p, area, 19, 5).unwrap();
    assert!(hit.path.is_empty());
    assert_eq!(hit.sep_idx, 0);
    assert!(!hit.horizontal);
    assert_eq!(hit.split_area, area);
    assert!(hit_test_separator(&p, area, 19, 6).is_none());
}

#[test]
fn innermost_of_stacked_splits_is_hit() {
    // Three levels: the lower half is divided side by side, its right part again.
    let p = Pane::Split {
        kind: Split::TopBottom,
        children: vec![
            connect(),
            Pane::Split {
                kind: Split::LeftRight,
                children: vec![connect(), hsplit()],
                ratios: vec![100, 100],
            },
        ],
        ratios: vec![100, 100],
    };
    let area = r(43, 10);
    // The areas are 21 cells wide each, the inner ones 10 each.
    let hit = hit_test_separator(&p, area, 32, 5).unwrap();
    assert_eq!(hit.path, vec![1, 1]);
    assert!(hit.horizontal);
    let hit = hit_test_separator(&p, area, 21, 5).unwrap();
    assert_eq!(hit.path, vec![1]);
    assert!(hit.horizontal);
}

fn row_of(canvas: &Canvas, y: u32) -> Vec<String> {
    (0..canvas.area.width as u32).map(|x| canvas.get(x, y)).collect()
}

#[test]
fn title_bar_is_laid_out_cell_by_cell() {
    let area = r(13, 2);
    let mut canvas = Canvas::new(area);
    draw_title_bar(&mut canvas, area, "日e\u{301}\u{7}x");
    let shown = row_of(&canvas, 0);
    assert_eq!(
        shown,
        ["─", "─", " ", "日", " ", "e\u{301}", "x", "─", " ", "─", "─", "─", "─"]
    );
    assert!(row_of(&canvas, 1).iter().all(|c| c == " "));

    let row = ratatui::layout::Rect::new(0, 0, 13, 1);
    let mut buf = Buffer::empty(row);
    Block::default()
        .borders(Borders::TOP)
        .title(Line::from(vec![
            Span::raw("── "),
            Span::raw("日e\u{301}\u{7}x"),
            Span::raw(" "),
        ]))
        .render(row, &mut buf);
    let drawn: Vec<&str> = buf.content.iter().map(|c| c.symbol()).collect();
    assert_eq!(shown, drawn);
}

#[test]
fn title_bar_is_cut_off_at_the_end() {
    let area = r(6, 1);
    let mut canvas = Canvas::new(area);
    draw_title_bar(&mut canvas, area, "abcdef");
    assert_eq!(row_of(&canvas, 0), ["─", "─", " ", "a", "b", "c"]);
    // Half of a wide character is not shown.
    let mut canvas = Canvas::new(area);
    draw_title_bar(&mut canvas, area, "ab日");
    assert_eq!(row_of(&canvas, 0), ["─", "─", " ", "a", "b", "─"]);
}

#[test]
fn title_bar_of_the_greatest_width_ends_in_a_line() {
    let area = r(u16::MAX, 1);
    let mut canvas = Canvas::new(area);
    draw_title_bar(&mut canvas, area, &"a".repeat(70000));
    let shown = row_of(&canvas, 0);
    assert_eq!(shown[65533], "a");
    assert_eq!(shown[65534], "─");
}

#[test]
fn row_of_a_title_bar_is_joined_to_what_is_above() {
    let area = r(5, 2);
    let mut canvas = Canvas::new(area);
    for x in 0..5 {
        canvas.put(x, 0, '│');
    }
    let row: Vec<String> = vec!["─".to_string(), "─\u{301}".to_string(), " ".to_string(), "a".to_string()];
    draw_title_row(&mut canvas, Rect::new(0, 1, 5, 1), &row);
    assert_eq!(row_of(&canvas, 1), ["┴", "─\u{301}", " ", "a", "┴"]);
}
