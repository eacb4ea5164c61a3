use rtools::tools::{confirms, echo_text, head_lines, should_overwrite, Overwrite};

#[test]
fn missing_target_is_written() {
    for (n, i) in [(false, false), (false, true), (true, false), (true, true)] {
        assert_eq!(should_overwrite(false, n, i), Overwrite::Proceed);
    }
}

#[test]
fn existing_target_policies() {
    assert_eq!(should_overwrite(true, true, false), Overwrite::Skip);
    assert_eq!(should_overwrite(true, true, true), Overwrite::Skip);
    assert_eq!(should_overwrite(true, false, true), Overwrite::Ask);
    assert_eq!(should_overwrite(true, false, false), Overwrite::Proceed);
}

#[test]
fn replies() {
    assert!(confirms("y\n"));
    assert!(confirms("  Yes\n"));
    assert!(confirms("yep"));
    assert!(!confirms("n\n"));
    assert!(!confirms(""));
    assert!(!confirms("   \n"));
    assert!(!confirms("ok y"));
}

#[test]
fn head_takes_first_lines() {
    assert_eq!(head_lines("a\nb\nc\n", 2), vec![String::from("a"), String::from("b")]);
    assert_eq!(head_lines("a\nb", 10), vec![String::from("a"), String::from("b")]);
    assert_eq!(head_lines("a\nb\n", 0), Vec::<String>::new());
}

#[test]
fn echo_appends_newline_unless_told() {
    assert_eq!(echo_text("hello world", false), "hello world\n");
    assert_eq!(echo_text("hello", true), "hello");
    assert_eq!(echo_text("", false), "\n");
}
