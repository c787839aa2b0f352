//! The two-panel file browsers.
use vstd::prelude::*;
use crate::geometry;
use crate::geometry::Rect;

pub mod command_laws;
pub mod common;
pub mod dialogue_laws;
pub mod laws;
pub mod listing_laws;
pub mod panel_laws;
pub mod parse;
pub mod path;
pub mod place_laws;
pub mod request_laws;
pub mod sftp;
pub mod ssh;

verus! {

/// The areas of a browser.
#[derive(Clone, Copy, Debug, PartialEq, Eq, Structural)]
pub struct BrowserLayout {
    pub local_panel: Rect,
    pub remote_panel: Rect,
    pub status: Rect,
}

/// How a browser divides its area: a status bar in the last row, and above it
/// the two panels side by side. The local panel has the odd column.
pub open spec fn layout_of(inner: Rect) -> BrowserLayout {
    let height = geometry::monus(inner.height as int, 1) as u16;
    let half = ((inner.width + 1) / 2) as u16;
    BrowserLayout {
        local_panel: Rect { x: inner.x, y: inner.y, width: half, height },
        remote_panel: Rect {
            x: geometry::at_most(inner.x + half, u16::MAX as int) as u16,
            y: inner.y,
            width: (inner.width - half) as u16,
            height,
        },
        status: Rect {
            x: inner.x,
            y: geometry::at_most(inner.y + height, u16::MAX as int) as u16,
            width: inner.width,
            height: 1,
        },
    }
}

/// Divides the area of a browser.
pub fn browser_layout(inner: Rect) -> (r: BrowserLayout)
    ensures
        r == layout_of(inner),
{
    let height: u16 = inner.height.saturating_sub(1);
    let half: u16 = inner.width / 2 + inner.width % 2;
    BrowserLayout {
        local_panel: Rect { x: inner.x, y: inner.y, width: half, height },
        remote_panel: Rect {
            x: inner.x.saturating_add(half),
            y: inner.y,
            width: inner.width - half,
            height,
        },
        status: Rect {
            x: inner.x,
            y: inner.y.saturating_add(height),
            width: inner.width,
            height: 1,
        },
    }
}

/// The two panels stand side by side and fill the area but for its last row,
/// and differ in width by one column at most.
pub proof fn law_panels_fill_area(inner: Rect)
    requires
        inner.on_screen(),
    ensures
        ({
            let l = layout_of(inner);
            &&& l.local_panel.x == inner.x
            &&& l.local_panel.end_x() == l.remote_panel.x
            &&& l.remote_panel.end_x() == inner.end_x()
            &&& 0 <= l.local_panel.width - l.remote_panel.width <= 1
            &&& inner.height > 0 ==> l.local_panel.end_y() == l.status.y && l.status.end_y()
                == inner.end_y()
        }),
{
}

} // verus!
