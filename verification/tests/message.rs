use commit_picker::message::{body_lines, collect_chars, is_space_char};

fn strings(lines: &[&str]) -> Vec<String> {
    lines.iter().map(|line| line.to_string()).collect()
}

#[test]
fn body_of_a_message_with_details() {
    assert_eq!(
        body_lines("Fix bug\n\nDetails line one\nDetails line two"),
        strings(&["Details line one", "Details line two"])
    );
}

#[test]
fn body_of_a_message_without_details() {
    assert_eq!(body_lines("Fix bug"), strings(&["(no description)"]));
    assert_eq!(body_lines("Fix bug\n"), strings(&["(no description)"]));
    assert_eq!(body_lines("Fix bug\n\n\n"), strings(&["(no description)"]));
    assert_eq!(body_lines("Fix bug\n   \n\t\n"), strings(&["(no description)"]));
}

#[test]
fn body_of_an_empty_message() {
    assert_eq!(body_lines(""), strings(&["(no description)"]));
    assert_eq!(body_lines("\n"), strings(&["(no description)"]));
}

#[test]
fn body_keeps_blank_lines_after_its_first_line() {
    assert_eq!(
        body_lines("Summary\n\n\nfirst\n\nsecond\n  \nthird\n"),
        strings(&["first", "", "second", "  ", "third"])
    );
}

#[test]
fn body_starts_right_after_the_summary_when_no_blank_line_follows() {
    assert_eq!(body_lines("Summary\nnext line"), strings(&["next line"]));
}

#[test]
fn body_lines_end_at_carriage_return_line_feed() {
    assert_eq!(
        body_lines("Summary\r\n\r\nfirst\r\nsecond\r\n"),
        strings(&["first", "second"])
    );
    // a carriage return that no line feed follows stays in the line
    assert_eq!(body_lines("Summary\n\nfirst\rstill first\nlast\r"), strings(&[
        "first\rstill first",
        "last\r"
    ]));
    // only one carriage return is taken off
    assert_eq!(body_lines("Summary\nline\r\r\n"), strings(&["line\r"]));
}

#[test]
fn body_keeps_leading_white_space_of_its_lines() {
    assert_eq!(body_lines("Summary\n\n  indented\n"), strings(&["  indented"]));
}

#[test]
fn body_handles_text_beyond_ascii() {
    assert_eq!(
        body_lines("Résumé\n\u{3000}\u{a0}\nzażółć gęślą jaźń\n日本語\n"),
        strings(&["zażółć gęślą jaźń", "日本語"])
    );
}

#[test]
fn body_agrees_with_the_standard_line_iterator() {
    let messages = [
        "a\nb\nc",
        "a\n\nb\n",
        "a\r\nb\r\n\r\nc",
        "\n\nx",
        "only",
        "s\n \n \nx\n \n",
        "s\n\r\n\r\nx\r",
        "s\n\u{2028}\ny",
    ];
    for message in messages {
        let expected: Vec<String> = message
            .lines()
            .skip(1)
            .skip_while(|line| line.trim().is_empty())
            .map(|line| line.to_string())
            .collect();
        let expected = if expected.is_empty() {
            vec!["(no description)".to_string()]
        } else {
            expected
        };
        assert_eq!(body_lines(message), expected);
    }
}

#[test]
fn white_space_is_what_the_standard_library_calls_white_space() {
    for code in 0..=0x10FFFFu32 {
        if let Some(c) = char::from_u32(code) {
            assert_eq!(is_space_char(c), c.is_whitespace());
        }
    }
}

#[test]
fn collect_chars_gives_the_characters_in_order() {
    assert_eq!(collect_chars("aé日"), vec!['a', 'é', '日']);
    assert_eq!(collect_chars(""), Vec::<char>::new());
}
