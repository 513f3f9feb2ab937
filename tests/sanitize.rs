use rustychat::sanitize::process_backspaces;

#[test]
fn backspace_erases_previous_character() {
    assert_eq!(process_backspaces("ab\u{8}c"), "ac");
}

#[test]
fn backspace_on_empty_line_is_noop() {
    assert_eq!(process_backspaces("\u{8}"), "");
    assert_eq!(process_backspaces("\u{8}\u{8}a"), "a");
}

#[test]
fn backspaces_erase_several_characters() {
    assert_eq!(process_backspaces("hello\u{8}\u{8}\u{8}\u{8}\u{8}\u{8}x"), "x");
    assert_eq!(process_backspaces("héllo\u{8}"), "héll");
}

#[test]
fn line_without_backspace_is_unchanged() {
    assert_eq!(process_backspaces("plain text\n"), "plain text\n");
    assert_eq!(process_backspaces(""), "");
}

#[test]
fn sanitizing_twice_changes_nothing() {
    for s in ["abc", "ab\u{8}c", "\u{8}x\u{8}\u{8}yz", ""] {
        let once = process_backspaces(s);
        assert_eq!(process_backspaces(&once), once);
    }
}
