use devlog::template::prepend_newline_fixup;

#[test]
fn file_starting_with_newline_gains_one_more() {
    let fixed = prepend_newline_fixup("\nSummary line\n");
    assert_eq!(fixed, Some(String::from("\n\nSummary line\n")));
}

#[test]
fn file_not_starting_with_newline_is_left_alone() {
    assert_eq!(prepend_newline_fixup("Summary line\n"), None);
}

#[test]
fn empty_file_is_left_alone() {
    assert_eq!(prepend_newline_fixup(""), None);
}

#[test]
fn newline_only_file_is_doubled() {
    assert_eq!(prepend_newline_fixup("\n"), Some(String::from("\n\n")));
}
