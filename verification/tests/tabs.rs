use std::collections::HashMap;

use tally::fuzzy::FuzzyMatcher;
use tally::model::{AccountWithBank, Filter, FilterOverride, Timestamp};
use tally::tui::app::tabs::{boundary_prefix, Tab, TabLists};
use tally::tui::filtered_list::FilteredList;

#[test]
fn boundary_prefix_matches_start_of_path() {
    assert!(boundary_prefix("tododo", "todo"));
}

#[test]
fn boundary_prefix_matches_after_slash() {
    assert!(boundary_prefix("tax/todos", "todo"));
}

#[test]
fn boundary_prefix_matches_after_hyphen() {
    assert!(boundary_prefix("Personal-todos", "todo"));
}

#[test]
fn boundary_prefix_does_not_match_after_digit() {
    assert!(!boundary_prefix("Food2todo", "todo"));
}

#[test]
fn boundary_prefix_does_not_match_inside_segment() {
    assert!(!boundary_prefix("AllTax/Larbert", "tax"));
}

#[test]
fn boundary_prefix_is_case_insensitive() {
    assert!(boundary_prefix("AllTax/Larbert", "lar"));
}

#[test]
fn boundary_prefix_empty_query_matches() {
    assert!(boundary_prefix("AllTax/Larbert", ""));
}

fn account(id: i64, path: &str) -> AccountWithBank {
    let (bank_name, name) = path.split_once('/').unwrap();
    AccountWithBank {
        id,
        bank_id: 1,
        bank_name: bank_name.to_string(),
        name: name.to_string(),
        path: path.to_string(),
    }
}

fn lists_with_accounts(paths: &[(i64, &str)]) -> TabLists {
    let accounts = paths.iter().map(|(id, path)| account(*id, path)).collect();
    TabLists {
        transactions: FilteredList::default(),
        linked_transfers: FilteredList::default(),
        categories: FilteredList::default(),
        accounts: FilteredList::new(accounts),
        uncategorised: FilteredList::default(),
        ai_reviews: FilteredList::default(),
        transfer_reviews: FilteredList::default(),
        filters: FilteredList::default(),
    }
}

#[test]
fn accounts_db_search_is_boundary_prefix_over_path() {
    let mut lists = lists_with_accounts(&[(1, "ING/Orange"), (2, "TB/Checking")]);
    let matcher = FuzzyMatcher::new();
    let by_id = HashMap::new();

    // `/`-search (db_query) matches at a path boundary (the account segment).
    lists.apply_fuzzy((Tab::Accounts, None), "check", "", &matcher, &by_id);
    let visible: Vec<_> = lists.accounts.iter().into_iter().map(|a| a.path.as_str()).collect();
    assert_eq!(visible, vec!["TB/Checking"]);
}

#[test]
fn accounts_fuzzy_search_scores_over_path() {
    let mut lists = lists_with_accounts(&[(1, "ING/Orange"), (2, "TB/Checking")]);
    let matcher = FuzzyMatcher::new();
    let by_id = HashMap::new();

    // `~`-search (pattern) fuzzy-matches the path.
    lists.apply_fuzzy((Tab::Accounts, None), "", "orng", &matcher, &by_id);
    let visible: Vec<_> = lists.accounts.iter().into_iter().map(|a| a.path.as_str()).collect();
    assert_eq!(visible, vec!["ING/Orange"]);
}

#[test]
fn filters_are_narrowed_by_the_fuzzy_pattern_alone() {
    let mut lists = lists_with_accounts(&[]);
    lists.filters = FilteredList::new(vec![Filter {
        id: 1,
        name: "Coffee".to_string(),
        query: "amount:>5".to_string(),
        category_id: None,
        override_mode: FilterOverride::Uncategorised,
        review_required: false,
        position: 0,
        created_at: Timestamp { seconds: 0, nanos: 0 },
    }]);
    let matcher = FuzzyMatcher::new();
    let by_id = HashMap::new();

    lists.apply_fuzzy((Tab::Filters, None), "zzz", "", &matcher, &by_id);
    assert_eq!(lists.filters.len(), 1);
    lists.apply_fuzzy((Tab::Filters, None), "zzz", "cof", &matcher, &by_id);
    assert_eq!(lists.filters.len(), 1);
    lists.apply_fuzzy((Tab::Filters, None), "", "zzz", &matcher, &by_id);
    assert_eq!(lists.filters.len(), 0);
}
