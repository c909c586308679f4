use commit_picker::expansion::ExpansionStore;

#[test]
fn new_store_has_nothing_expanded() {
    let store = ExpansionStore::new();
    assert!(!store.is_expanded(0));
    assert!(store.body(0).is_none());
    assert_eq!(store.height(0), 1);
    assert!(store.expanded().is_empty());
    assert!(store.bodies().is_empty());
}

#[test]
fn expanding_caches_the_body_and_grows_the_height() {
    let mut store = ExpansionStore::new();
    assert!(store.wants_body(1));
    let fetch = store.toggle(1);
    assert!(fetch);
    assert!(store.is_expanded(1));
    // expanded, body not yet there: one row
    assert_eq!(store.height(1), 1);
    store.cache_body(1, "Fix bug\n\nDetails line one\nDetails line two");
    assert_eq!(
        store.body(1),
        Some(&vec!["Details line one".to_string(), "Details line two".to_string()])
    );
    assert_eq!(store.height(1), 3);
    assert_eq!(store.height(0), 1);
}

#[test]
fn expanding_a_message_without_body() {
    let mut store = ExpansionStore::new();
    assert!(store.toggle(4));
    store.cache_body(4, "Only a summary");
    assert_eq!(store.body(4), Some(&vec!["(no description)".to_string()]));
    assert_eq!(store.height(4), 2);
}

#[test]
fn toggling_twice_restores_membership_and_never_fetches_again() {
    let mut store = ExpansionStore::new();
    assert!(store.toggle(2));
    store.cache_body(2, "s\n\nbody");
    assert!(!store.toggle(2));
    assert!(!store.is_expanded(2));
    assert_eq!(store.height(2), 1);
    // the body stays cached while collapsed
    assert_eq!(store.body(2), Some(&vec!["body".to_string()]));
    assert!(!store.wants_body(2));
    assert!(!store.toggle(2));
    assert!(store.is_expanded(2));
    assert_eq!(store.height(2), 2);
    assert!(!store.toggle(2));
    assert!(!store.is_expanded(2));
}

#[test]
fn toggling_twice_without_a_body_asks_again() {
    let mut store = ExpansionStore::new();
    assert!(store.toggle(3));
    assert!(!store.toggle(3));
    assert!(!store.is_expanded(3));
    assert!(store.toggle(3));
}

#[test]
fn a_cached_body_is_never_replaced() {
    let mut store = ExpansionStore::new();
    store.cache_body(0, "s\n\nfirst");
    store.cache_body(0, "s\n\nsecond\nthird");
    assert_eq!(store.body(0), Some(&vec!["first".to_string()]));
    store.toggle(0);
    assert_eq!(store.height(0), 2);
}

#[test]
fn collapse_removes_only_the_given_index() {
    let mut store = ExpansionStore::new();
    store.toggle(1);
    store.toggle(2);
    store.cache_body(1, "s\n\nb");
    store.collapse(1);
    assert!(!store.is_expanded(1));
    assert!(store.is_expanded(2));
    assert_eq!(store.body(1), Some(&vec!["b".to_string()]));
    // collapsing what is collapsed changes nothing
    store.collapse(1);
    store.collapse(7);
    assert!(!store.is_expanded(1));
    assert!(store.is_expanded(2));
    assert_eq!(store.expanded().len(), 1);
}

#[test]
fn a_collapsed_item_with_a_body_takes_one_row() {
    let mut store = ExpansionStore::new();
    store.cache_body(5, "s\n\na\nb\nc");
    assert_eq!(store.height(5), 1);
    assert!(!store.toggle(5));
    assert_eq!(store.height(5), 4);
}
