use commit_picker::expansion::ExpansionStore;
use commit_picker::input::MenuEvent;
use commit_picker::menu::Menu;
use commit_picker::paged_list::{Item, PagedList};
use commit_picker::render::{plan_frame, Row};
use commit_picker::viewport::ViewportResult;

fn menu_of(count: usize) -> Menu {
    let mut list = PagedList::new();
    let page: Vec<Option<Item>> = (0..count)
        .map(|n| Some(Item { id: format!("{:07x}", n), summary: format!("commit {}", n) }))
        .collect();
    list.grow(count, page);
    match Menu::new(list) {
        Some(menu) => menu,
        None => panic!("a list with items makes a menu"),
    }
}

#[test]
fn frame_of_a_list_that_fits() {
    let menu = menu_of(3);
    assert_eq!(
        menu.frame(5),
        vec![
            Row::Summary { index: 0, selected: true, newline: true },
            Row::Summary { index: 1, selected: false, newline: true },
            Row::Summary { index: 2, selected: false, newline: false },
        ]
    );
}

#[test]
fn frame_with_the_lower_indicator() {
    let menu = menu_of(5);
    assert_eq!(
        menu.frame(4),
        vec![
            Row::Summary { index: 0, selected: true, newline: true },
            Row::Summary { index: 1, selected: false, newline: true },
            Row::Summary { index: 2, selected: false, newline: true },
            Row::MoreBelow,
        ]
    );
}

#[test]
fn frame_with_both_indicators() {
    let mut menu = menu_of(20);
    for _ in 0..4 {
        menu.handle(MenuEvent::Move(1), 4);
    }
    assert_eq!(
        menu.frame(4),
        vec![
            Row::MoreAbove,
            Row::Summary { index: 3, selected: false, newline: true },
            Row::Summary { index: 4, selected: true, newline: true },
            Row::MoreBelow,
        ]
    );
}

#[test]
fn frame_with_an_expanded_item_in_the_middle() {
    let mut menu = menu_of(3);
    menu.handle(MenuEvent::Move(1), 8);
    menu.handle(MenuEvent::Expand, 8);
    menu.supply_message(1, "Fix bug\n\nDetails line one\nDetails line two");
    assert_eq!(
        menu.frame(8),
        vec![
            Row::Summary { index: 0, selected: false, newline: true },
            Row::Summary { index: 1, selected: true, newline: true },
            Row::Body { index: 1, line: 0, newline: true },
            Row::Body { index: 1, line: 1, newline: true },
            Row::Summary { index: 2, selected: false, newline: false },
        ]
    );
}

#[test]
fn frame_that_ends_with_a_body_line() {
    let mut menu = menu_of(2);
    menu.handle(MenuEvent::Move(1), 8);
    menu.handle(MenuEvent::Expand, 8);
    menu.supply_message(1, "s\n\na\nb");
    assert_eq!(
        menu.frame(8),
        vec![
            Row::Summary { index: 0, selected: false, newline: true },
            Row::Summary { index: 1, selected: true, newline: true },
            Row::Body { index: 1, line: 0, newline: true },
            Row::Body { index: 1, line: 1, newline: false },
        ]
    );
}

#[test]
fn an_expanded_last_item_without_body_still_ends_its_line() {
    let mut menu = menu_of(2);
    menu.handle(MenuEvent::Move(1), 8);
    menu.handle(MenuEvent::Expand, 8);
    assert_eq!(
        menu.frame(8),
        vec![
            Row::Summary { index: 0, selected: false, newline: true },
            Row::Summary { index: 1, selected: true, newline: true },
        ]
    );
}

#[test]
fn a_body_before_the_lower_indicator_ends_every_line() {
    let mut menu = menu_of(6);
    menu.handle(MenuEvent::Expand, 4);
    menu.supply_message(0, "s\n\na\nb");
    assert_eq!(
        menu.frame(4),
        vec![
            Row::Summary { index: 0, selected: true, newline: true },
            Row::Body { index: 0, line: 0, newline: true },
            Row::Body { index: 0, line: 1, newline: true },
            Row::MoreBelow,
        ]
    );
}

#[test]
fn frames_stay_within_the_budget() {
    for budget in 1..9usize {
        let mut menu = menu_of(9);
        menu.handle(MenuEvent::Expand, budget);
        menu.supply_message(0, "s\n\na\nb\nc");
        for _ in 0..8 {
            assert!(menu.frame(budget).len() <= budget);
            menu.handle(MenuEvent::Move(1), budget);
        }
        assert!(menu.frame(budget).len() <= budget);
    }
}

#[test]
fn a_frame_without_rows_for_the_list() {
    let menu = menu_of(3);
    assert_eq!(menu.frame(0), Vec::<Row>::new());
    assert_eq!(menu.frame(1), vec![Row::MoreBelow]);
}

#[test]
fn plan_frame_marks_the_selection_only_where_it_is_visible() {
    let store = ExpansionStore::new();
    let view = ViewportResult {
        visible_indices: vec![4, 5],
        has_more_above: true,
        has_more_below: false,
    };
    assert_eq!(
        plan_frame(&view, &store, 9),
        vec![
            Row::MoreAbove,
            Row::Summary { index: 4, selected: false, newline: true },
            Row::Summary { index: 5, selected: false, newline: false },
        ]
    );
    let nothing = ViewportResult {
        visible_indices: Vec::new(),
        has_more_above: false,
        has_more_below: false,
    };
    assert_eq!(plan_frame(&nothing, &store, 0), Vec::<Row>::new());
}
