use commit_picker::action::fixup_arguments;
use commit_picker::input::{read_menu_event, Key, MenuEvent};

#[test]
fn arrow_keys_move_expand_and_collapse() {
    assert_eq!(read_menu_event(Key::Up), Some(MenuEvent::Move(-1)));
    assert_eq!(read_menu_event(Key::Down), Some(MenuEvent::Move(1)));
    assert_eq!(read_menu_event(Key::Right), Some(MenuEvent::Expand));
    assert_eq!(read_menu_event(Key::Left), Some(MenuEvent::Collapse));
}

#[test]
fn letter_keys_follow_the_arrows() {
    assert_eq!(read_menu_event(Key::Char('k')), Some(MenuEvent::Move(-1)));
    assert_eq!(read_menu_event(Key::Char('j')), Some(MenuEvent::Move(1)));
    assert_eq!(read_menu_event(Key::Char('l')), Some(MenuEvent::Expand));
    assert_eq!(read_menu_event(Key::Char('h')), Some(MenuEvent::Collapse));
}

#[test]
fn enter_confirms_and_escape_or_q_quits() {
    assert_eq!(read_menu_event(Key::Enter), Some(MenuEvent::Confirm));
    assert_eq!(read_menu_event(Key::Esc), Some(MenuEvent::Quit));
    assert_eq!(read_menu_event(Key::Char('q')), Some(MenuEvent::Quit));
}

#[test]
fn other_keys_are_passed_over() {
    assert_eq!(read_menu_event(Key::Other), None);
    for c in ['a', 'K', 'J', 'Q', 'H', 'L', ' ', '\n', '1', 'é'] {
        assert_eq!(read_menu_event(Key::Char(c)), None);
    }
}

#[test]
fn exactly_five_characters_are_bound() {
    let mut bound = 0;
    for code in 0..=0x10FFFFu32 {
        if let Some(c) = char::from_u32(code) {
            if read_menu_event(Key::Char(c)).is_some() {
                bound += 1;
            }
        }
    }
    assert_eq!(bound, 5);
}

#[test]
fn fixup_arguments_name_the_commit() {
    assert_eq!(
        fixup_arguments("abc1234"),
        vec!["commit".to_string(), "--fixup".to_string(), "abc1234".to_string()]
    );
    assert_eq!(fixup_arguments(""), vec!["commit".to_string(), "--fixup".to_string(), String::new()]);
}
