//! Geometry of the modal overlays.
//!
//! Shared style: one blank line under the title, one space of horizontal padding
//! on each side, and — when hints are present — two blank lines between the body
//! and the bottom hint row.

use vstd::prelude::*;

use super::table::{shifted, Area};

verus! {

/// Rows of modal chrome around a body of text: top border, blank top line, two
/// blank lines before the hint row, the hint row, and the bottom border. A
/// text modal `lines` tall should be `MODAL_CHROME_HEIGHT + lines` high for the
/// shared spacing to land exactly.
pub const MODAL_CHROME_HEIGHT: u16 = 6;

/// `a - b`, at least nothing.
pub open spec fn less(a: u16, b: int) -> u16 {
    if a >= b {
        (a - b) as u16
    } else {
        0
    }
}

/// The space inside the border, with a blank top line and a column of padding on
/// either side.
pub open spec fn padding(inner: Area) -> Area {
    Area {
        x: shifted(inner.x, 1),
        y: shifted(inner.y, 1),
        width: less(inner.width, 2),
        height: less(inner.height, 1),
    }
}

/// Inset the inner rect so body content never hugs the border.
pub fn padded(inner: Area) -> (body: Area)
    ensures
        body == padding(inner),
{
    Area {
        x: inner.x.saturating_add(1),
        y: inner.y.saturating_add(1),
        width: inner.width.saturating_sub(2),
        height: inner.height.saturating_sub(1),
    }
}

/// A modal high enough for its text leaves one row per line, besides the hint row
/// and the two blank lines above it.
pub proof fn chrome_leaves_the_lines(area: Area, lines: u16)
    requires
        area.height == MODAL_CHROME_HEIGHT + lines,
        0 < area.width,
    ensures
        ({
            let inner = Area {
                x: shifted(area.x, 1),
                y: shifted(area.y, 1),
                width: less(area.width, 2),
                height: less(area.height, 2),
            };
            padding(inner).height == lines + 3
        }),
{
}

} // verus!
