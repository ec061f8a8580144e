use tally::tui::modal::{padded, MODAL_CHROME_HEIGHT};
use tally::tui::table::{
    calculate_scroll_offset, calculate_scroll_offset_with_detail, clamped_detail_height,
    table_layout, Area,
};

#[test]
fn detail_scroll_offset_reserves_room_for_detail_panel() {
    assert_eq!(calculate_scroll_offset_with_detail(10, 30, 12, 4), 6);
    assert_eq!(calculate_scroll_offset_with_detail(27, 30, 12, 4), 22);
}

#[test]
fn detail_scroll_offset_handles_short_and_tiny_areas() {
    assert_eq!(calculate_scroll_offset_with_detail(1, 3, 12, 4), 0);
    assert_eq!(clamped_detail_height(5, 8), 4);
    assert_eq!(calculate_scroll_offset_with_detail(4, 10, 5, 8), 4);
    assert_eq!(calculate_scroll_offset_with_detail(0, 10, 0, 8), 0);
}

#[test]
fn the_selected_row_is_kept_in_the_middle() {
    assert_eq!(calculate_scroll_offset(0, 30, 10), 0);
    assert_eq!(calculate_scroll_offset(10, 30, 10), 5);
    assert_eq!(calculate_scroll_offset(29, 30, 10), 20);
    assert_eq!(calculate_scroll_offset(3, 5, 10), 0);
}

#[test]
fn the_detail_panel_opens_below_the_selected_row() {
    let area = Area { x: 0, y: 0, width: 40, height: 12 };
    let layout = table_layout(10, 30, area, Some(4)).unwrap();
    let detail = layout.detail.unwrap();
    assert_eq!(detail.height, 4);
    assert_eq!(detail.y, 5);
}

#[test]
fn a_table_without_rows_or_room_draws_nothing() {
    let area = Area { x: 0, y: 0, width: 40, height: 12 };
    let flat = Area { x: 0, y: 0, width: 40, height: 0 };
    assert!(table_layout(0, 0, area, None).is_none());
    assert!(table_layout(0, 5, flat, None).is_none());
}

#[test]
fn the_modal_chrome_leaves_room_for_the_lines() {
    let inner = Area { x: 1, y: 1, width: 20, height: 3 + MODAL_CHROME_HEIGHT };
    assert!(padded(inner).height >= 3);
}
