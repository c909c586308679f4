use commit_picker::paged_list::{short_id, Item, PagedList, SHORT_ID_LEN};

fn item(n: usize) -> Item {
    Item { id: format!("{:07x}", n), summary: format!("commit {}", n) }
}

fn page(from: usize, count: usize) -> Vec<Option<Item>> {
    (from..from + count).map(|n| Some(item(n))).collect()
}

#[test]
fn short_id_is_the_first_seven_characters() {
    assert_eq!(SHORT_ID_LEN, 7);
    assert_eq!(short_id("0123456789abcdef0123456789abcdef01234567"), "0123456");
    assert_eq!(short_id("0123456"), "0123456");
    assert_eq!(short_id("01234567"), "0123456");
    assert_eq!(short_id("abc"), "abc");
    assert_eq!(short_id(""), "");
}

#[test]
fn item_new_shortens_the_identifier() {
    let it = Item::new("fedcba9876543210fedcba9876543210fedcba98", "Add parser");
    assert_eq!(it, Item { id: "fedcba9".to_string(), summary: "Add parser".to_string() });
}

#[test]
fn new_list_is_empty() {
    let list = PagedList::new();
    assert_eq!(list.len(), 0);
    assert!(list.is_empty());
    assert!(!list.is_exhausted());
    assert!(list.get(0).is_none());
    assert!(list.items().is_empty());
}

#[test]
fn grow_appends_in_order() {
    let mut list = PagedList::new();
    assert_eq!(list.grow(3, page(0, 3)), 3);
    assert_eq!(list.len(), 3);
    assert!(!list.is_empty());
    assert!(!list.is_exhausted());
    assert_eq!(list.grow(2, page(3, 2)), 2);
    assert_eq!(list.len(), 5);
    for n in 0..5 {
        assert_eq!(list.get(n), Some(&item(n)));
    }
    assert!(list.get(5).is_none());
    assert_eq!(list.items().to_vec(), (0..5).map(item).collect::<Vec<Item>>());
}

#[test]
fn grow_never_shrinks_and_keeps_earlier_items() {
    let mut list = PagedList::new();
    list.grow(4, page(0, 4));
    let before: Vec<Item> = list.items().to_vec();
    list.grow(4, vec![None, Some(item(9)), None]);
    assert!(list.len() >= before.len());
    assert_eq!(&list.items()[..before.len()], &before[..]);
    list.grow(0, page(20, 3));
    assert_eq!(list.len(), 5);
    list.grow(8, Vec::new());
    assert_eq!(list.len(), 5);
    assert_eq!(&list.items()[..before.len()], &before[..]);
}

#[test]
fn grow_drops_entries_that_could_not_be_read() {
    let mut list = PagedList::new();
    let fetched = vec![Some(item(0)), None, Some(item(2)), None, None, Some(item(5))];
    assert_eq!(list.grow(6, fetched), 3);
    assert_eq!(list.items().to_vec(), vec![item(0), item(2), item(5)]);
    // a full page, though with gaps: the source is not exhausted
    assert!(!list.is_exhausted());
}

#[test]
fn grow_takes_no_more_than_was_asked_for() {
    let mut list = PagedList::new();
    assert_eq!(list.grow(2, page(0, 5)), 2);
    assert_eq!(list.items().to_vec(), vec![item(0), item(1)]);
    assert!(!list.is_exhausted());
    assert_eq!(list.grow(2, vec![None, Some(item(7)), Some(item(8))]), 1);
    assert_eq!(list.items().to_vec(), vec![item(0), item(1), item(7)]);
}

#[test]
fn a_short_page_marks_the_source_as_exhausted() {
    let mut list = PagedList::new();
    list.grow(3, page(0, 3));
    assert!(!list.is_exhausted());
    assert_eq!(list.grow(3, page(3, 2)), 2);
    assert!(list.is_exhausted());
    assert_eq!(list.grow(3, Vec::new()), 0);
    assert!(list.is_exhausted());
    assert_eq!(list.len(), 5);
}

#[test]
fn ensure_capacity_asks_when_the_cursor_nears_the_end() {
    let mut list = PagedList::new();
    list.grow(10, page(0, 10));
    assert_eq!(list.ensure_capacity(0, 4), None);
    assert_eq!(list.ensure_capacity(5, 4), None);
    assert_eq!(list.ensure_capacity(6, 4), Some(4));
    assert_eq!(list.ensure_capacity(9, 4), Some(4));
    assert_eq!(list.ensure_capacity(0, 10), Some(10));
    assert_eq!(list.ensure_capacity(0, 50), Some(50));
    assert_eq!(list.ensure_capacity(9, 1), Some(1));
    assert_eq!(list.ensure_capacity(8, 1), None);
    assert_eq!(list.ensure_capacity(9, 0), None);
    assert_eq!(list.ensure_capacity(10, 0), Some(0));
    assert_eq!(list.ensure_capacity(usize::MAX, usize::MAX), Some(usize::MAX));
    assert_eq!(PagedList::new().ensure_capacity(0, 0), Some(0));
}
