//! Geometry of the scrolling table views: which rows are drawn, and where.

use vstd::prelude::*;

verus! {

/// First row of a window of `height` rows that keeps `selected` near its
/// middle, and stays at the first or last rows near either end.
pub open spec fn scroll_offset(selected: int, total: int, height: int) -> int {
    let row = if selected < total { selected } else { total - 1 };
    if total == 0 || height == 0 || total <= height || row < height / 2 {
        0
    } else if row > total - height / 2 {
        total - height
    } else {
        row - height / 2
    }
}

/// Rows left for the detail panel once one row is kept for the table.
pub open spec fn detail_rows(area_height: int, detail_height: int) -> int {
    if area_height == 0 {
        0
    } else if detail_height < area_height - 1 {
        detail_height
    } else {
        area_height - 1
    }
}

pub fn calculate_scroll_offset(selected: usize, total: usize, visible_height: usize) -> (offset:
    usize)
    ensures
        offset == scroll_offset(selected as int, total as int, visible_height as int),
{
    if total == 0 || visible_height == 0 {
        return 0;
    }
    let row: usize = if selected < total {
        selected
    } else {
        total - 1
    };
    if total <= visible_height || row < visible_height / 2 {
        0
    } else if row > total - visible_height / 2 {
        total - visible_height
    } else {
        row - visible_height / 2
    }
}

pub fn calculate_scroll_offset_with_detail(
    selected: usize,
    total: usize,
    area_height: usize,
    detail_height: usize,
) -> (offset: usize)
    ensures
        offset == scroll_offset(
            selected as int,
            total as int,
            area_height - detail_rows(area_height as int, detail_height as int),
        ),
{
    let detail: usize = clamped_detail_height(area_height, detail_height);
    calculate_scroll_offset(selected, total, area_height - detail)
}

pub fn clamped_detail_height(area_height: usize, detail_height: usize) -> (height: usize)
    ensures
        height == detail_rows(area_height as int, detail_height as int),
        area_height > 0 ==> height < area_height,
        area_height == 0 ==> height == 0,
{
    if area_height == 0 {
        0
    } else if detail_height < area_height - 1 {
        detail_height
    } else {
        area_height - 1
    }
}

/// The window that starts at the scroll offset shows the selected row.
pub proof fn selected_row_is_visible(selected: int, total: int, height: int)
    requires
        0 <= selected < total,
        0 < height,
    ensures
        scroll_offset(selected, total, height) <= selected,
        selected < scroll_offset(selected, total, height) + height,
{
}

/// While rows above the window are hidden, the window runs at most one row past
/// the last one, and past it only when its height is odd.
pub proof fn window_is_full(selected: int, total: int, height: int)
    requires
        0 <= selected,
        0 < total,
        0 < height,
    ensures
        0 <= scroll_offset(selected, total, height),
        scroll_offset(selected, total, height) > 0 ==> scroll_offset(selected, total, height)
            + height <= total + height % 2,
{
}

/// A rectangle of terminal cells.
#[derive(Debug, Clone, Copy, PartialEq, Eq, Structural)]
pub struct Area {
    pub x: u16,
    pub y: u16,
    pub width: u16,
    pub height: u16,
}

impl Area {
    pub open spec fn no_cells(self) -> bool {
        self.width == 0 || self.height == 0
    }
}

/// `a + b`, at most the largest coordinate.
pub open spec fn shifted(a: u16, b: int) -> u16 {
    if a + b <= u16::MAX {
        (a + b) as u16
    } else {
        u16::MAX
    }
}

fn shift(a: u16, b: u16) -> (c: u16)
    ensures
        c == shifted(a, b as int),
{
    if a <= u16::MAX - b {
        a + b
    } else {
        u16::MAX
    }
}

/// The rows `start..end` of the items, drawn in an area.
#[derive(Debug, Clone, Copy, PartialEq, Eq, Structural)]
pub struct RowRange {
    pub area: Area,
    pub start: usize,
    pub end: usize,
}

/// What is drawn of a table.
#[derive(Debug, Clone, Copy)]
pub struct TableLayout {
    /// The rows up to the selected one, or all rows without a detail panel.
    pub top: RowRange,
    /// The detail panel below the selected row.
    pub detail: Option<Area>,
    /// The rows below the panel.
    pub bottom: Option<RowRange>,
}

/// The rows of a range that fit its area.
pub open spec fn fitted(area: Area, start: int, end: int, total: int) -> RowRange {
    let stop = if end < total {
        end
    } else {
        total
    };
    let first = if start < stop {
        start
    } else {
        stop
    };
    let last = if stop - first <= area.height {
        stop
    } else {
        first + area.height
    };
    RowRange { area, start: first as usize, end: last as usize }
}

fn fit(area: Area, start: usize, end: usize, total: usize) -> (range: RowRange)
    ensures
        range == fitted(area, start as int, end as int, total as int),
{
    let stop: usize = if end < total {
        end
    } else {
        total
    };
    let first: usize = if start < stop {
        start
    } else {
        stop
    };
    let last: usize = if stop - first <= area.height as usize {
        stop
    } else {
        first + area.height as usize
    };
    RowRange { area, start: first, end: last }
}

/// The selected row, kept on a row.
pub open spec fn on_a_row(selected: int, total: int) -> int {
    if selected < total {
        selected
    } else {
        total - 1
    }
}

/// What is drawn of a table without a detail panel, or without room for one.
pub open spec fn plain_layout(selected: int, total: int, area: Area) -> TableLayout {
    let offset = scroll_offset(selected, total, area.height as int);
    TableLayout {
        top: fitted(area, offset, offset + area.height, total),
        detail: None,
        bottom: None,
    }
}

/// What is drawn of a table whose selected row has a panel of `height` rows
/// below it.
pub open spec fn split_layout(selected: int, total: int, area: Area, height: int) -> TableLayout {
    let capacity = area.height - height;
    let offset = scroll_offset(selected, total, capacity);
    let above = if selected - offset + 1 <= capacity {
        selected - offset + 1
    } else {
        capacity
    };
    let below = area.height - above - height;
    let detail = Area { y: shifted(area.y, above), height: height as u16, ..area };
    TableLayout {
        top: fitted(Area { height: above as u16, ..area }, offset, selected + 1, total),
        detail: Some(detail),
        bottom: Some(
            fitted(
                Area { y: shifted(detail.y, height), height: below as u16, ..area },
                selected + 1,
                selected + 1 + below,
                total,
            ),
        ),
    }
}

/// What is drawn of a table of `total` rows; nothing where there is no room or
/// no row.
pub fn table_layout(
    selected: usize,
    total: usize,
    area: Area,
    detail_height: Option<u16>,
) -> (layout: Option<TableLayout>)
    ensures
        layout is None <==> area.no_cells() || total == 0,
        layout matches Some(l) ==> l == {
            let row = on_a_row(selected as int, total as int);
            let height = match detail_height {
                Some(h) => detail_rows(area.height as int, h as int),
                None => 0,
            };
            if height == 0 {
                plain_layout(row, total as int, area)
            } else {
                split_layout(row, total as int, area, height)
            }
        },
{
    if area.width == 0 || area.height == 0 || total == 0 {
        return None;
    }
    let row: usize = if selected < total {
        selected
    } else {
        total - 1
    };
    let rows: usize = area.height as usize;
    let panel: usize = match detail_height {
        Some(h) => clamped_detail_height(rows, h as usize),
        None => 0,
    };
    if panel == 0 {
        let offset: usize = calculate_scroll_offset(row, total, rows);
        proof {
            selected_row_is_visible(row as int, total as int, rows as int);
        }
        let end: usize = if offset <= usize::MAX - rows {
            offset + rows
        } else {
            usize::MAX
        };
        return Some(TableLayout { top: fit(area, offset, end, total), detail: None, bottom: None });
    }
    let capacity: usize = rows - panel;
    let offset: usize = calculate_scroll_offset(row, total, capacity);
    proof {
        selected_row_is_visible(row as int, total as int, capacity as int);
    }
    let above: u16 = (row - offset + 1) as u16;
    let height: u16 = panel as u16;
    let below: u16 = area.height - above - height;
    let detail = Area { y: shift(area.y, above), height, ..area };
    let bottom = Area { y: shift(detail.y, height), height: below, ..area };
    let end: usize = if row + 1 <= usize::MAX - below as usize {
        row + 1 + below as usize
    } else {
        usize::MAX
    };
    Some(
        TableLayout {
            top: fit(Area { height: above, ..area }, offset, row + 1, total),
            detail: Some(detail),
            bottom: Some(fit(bottom, row + 1, end, total)),
        },
    )
}

/// With a detail panel, the three parts fill the height, the selected row is the
/// last one above the panel, and the rows go on below it without a gap.
pub proof fn detail_follows_the_selected_row(selected: int, total: int, area: Area, height: int)
    requires
        0 <= selected < total <= usize::MAX,
        0 < height < area.height,
    ensures
        ({
            let l = split_layout(selected, total, area, height);
            &&& l.top.area.height + l.detail->0.height + l.bottom->0.area.height == area.height
            &&& l.top.end == selected + 1
            &&& l.top.start <= selected
            &&& l.bottom->0.start == l.top.end
            &&& l.bottom->0.end <= total
        }),
{
    selected_row_is_visible(selected, total, area.height - height);
    window_is_full(selected, total, area.height - height);
}

} // verus!
