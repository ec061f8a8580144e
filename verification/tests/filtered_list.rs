use tally::tui::filtered_list::FilteredList;

#[test]
fn empty_list_is_empty() {
    let list: FilteredList<i32> = FilteredList::default();
    assert_eq!(list.len(), 0);
    assert!(list.is_empty());
    assert_eq!(list.get(0), None);
}

#[test]
fn new_makes_all_visible() {
    let list = FilteredList::new(vec![1, 2, 3]);
    assert_eq!(list.len(), 3);
    assert_eq!(list.iter().into_iter().copied().collect::<Vec<_>>(), vec![1, 2, 3]);
    assert_eq!(list.get(0), Some(&1));
    assert_eq!(list.get(2), Some(&3));
    assert_eq!(list.get(3), None);
}

#[test]
fn refilter_restricts_visible() {
    let mut list = FilteredList::new(vec![1, 2, 3, 4, 5]);
    list.refilter(|n| n % 2 == 0);
    assert_eq!(list.len(), 2);
    assert_eq!(list.iter().into_iter().copied().collect::<Vec<_>>(), vec![2, 4]);
    assert_eq!(list.get(0), Some(&2));
    assert_eq!(list.get(1), Some(&4));
    assert_eq!(list.get(2), None);
}

#[test]
fn refilter_with_no_matches_yields_empty_view() {
    let mut list = FilteredList::new(vec![1, 2, 3]);
    list.refilter(|_| false);
    assert_eq!(list.len(), 0);
    assert!(list.is_empty());
    // Underlying items are preserved.
    assert_eq!(list.items(), &[1, 2, 3]);
}

#[test]
fn show_all_restores_visibility() {
    let mut list = FilteredList::new(vec![1, 2, 3]);
    list.refilter(|n| *n == 2);
    assert_eq!(list.len(), 1);
    list.show_all();
    assert_eq!(list.len(), 3);
}

#[test]
fn set_items_resets_filter() {
    let mut list = FilteredList::new(vec![1, 2, 3]);
    list.refilter(|n| *n == 2);
    list.set_items(vec![10, 20]);
    assert_eq!(list.len(), 2);
    assert_eq!(list.iter().into_iter().copied().collect::<Vec<_>>(), vec![10, 20]);
}

#[test]
fn position_returns_visible_index() {
    let mut list = FilteredList::new(vec![10, 20, 30, 40, 50]);
    list.refilter(|n| n % 20 == 0);
    // Visible items are [20, 40].
    assert_eq!(list.position(|n| *n == 20), Some(0));
    assert_eq!(list.position(|n| *n == 40), Some(1));
    // 30 exists in items but isn't visible.
    assert_eq!(list.position(|n| *n == 30), None);
    assert_eq!(list.position(|n| *n == 999), None);
}

#[test]
fn items_returns_underlying_slice() {
    let mut list = FilteredList::new(vec![1, 2, 3]);
    list.refilter(|n| *n == 2);
    assert_eq!(list.items(), &[1, 2, 3]);
}

#[test]
fn refiltering_starts_from_every_item() {
    let mut list = FilteredList::new(vec![1, 2, 3, 4]);
    list.refilter(|n| *n > 2);
    list.refilter(|n| *n < 3);
    assert_eq!(list.iter().into_iter().copied().collect::<Vec<_>>(), vec![1, 2]);
}
