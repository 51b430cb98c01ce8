use smklex::lexer::Lexer;

// The fatal path: a required closing quote is absent and another
// character stands in its place.  The diagnostic names the offending
// character and puts a caret exactly under its column.
#[test]
fn mismatch_diagnostic_names_char_and_aligns_caret() {
    let mut lx = Lexer::new("abcdefg");
    lx.next();
    lx.next();
    lx.next();
    lx.next();
    let err = lx.expect('"').unwrap_err();
    assert_eq!(err.expected, '"');
    assert_eq!(err.found, Some('e'));
    assert_eq!(err.offset, 4);
    assert_eq!(
        err.rendered,
        "smklex: expected [\"] but got [e]\n\nabcdefg\n----^"
    );
    // the caret stands in the same column as the offending character
    let lines: Vec<&str> = err.rendered.lines().collect();
    let window = lines[2];
    let marker = lines[3];
    assert_eq!(marker.chars().count(), marker.chars().filter(|c| *c == '-').count() + 1);
    assert!(marker.ends_with('^'));
    let caret_col = marker.chars().count() - 1;
    assert_eq!(window.chars().nth(caret_col), Some('e'));
}

#[test]
fn mismatch_at_first_column() {
    let mut lx = Lexer::new("a+b");
    let err = lx.expect('"').unwrap_err();
    assert_eq!(err.found, Some('a'));
    assert_eq!(err.offset, 0);
    assert_eq!(err.rendered, "smklex: expected [\"] but got [a]\n\na+b\n^");
}

#[test]
fn exhausted_input_diagnostic() {
    let mut lx = Lexer::new("");
    let err = lx.expect('"').unwrap_err();
    assert_eq!(err.expected, '"');
    assert_eq!(err.found, None);
    assert_eq!(err.offset, 0);
    assert_eq!(err.rendered, "smklex: expected [\"] but found nothing.\n\n\n^");
}

#[test]
fn window_is_cut_at_the_first_newline() {
    let mut lx = Lexer::new("ab\ncd");
    lx.next();
    lx.next();
    lx.next();
    lx.next();
    let err = lx.expect('x').unwrap_err();
    assert_eq!(err.found, Some('d'));
    assert_eq!(err.offset, 4);
    assert_eq!(err.rendered, "smklex: expected [x] but got [d]\n\nab\n-^");
}

#[test]
fn window_is_clamped_to_fifteen_characters_each_side() {
    let source = "0123456789012345678901234567890123456789";
    let mut lx = Lexer::new(source);
    for _ in 0..20 {
        lx.next();
    }
    let err = lx.expect('"').unwrap_err();
    assert_eq!(err.offset, 20);
    assert_eq!(err.found, Some('0'));
    let lines: Vec<&str> = err.rendered.lines().collect();
    // 15 characters before the offending one, it, then 14 after
    assert_eq!(lines[2], "567890123456789012345678901234");
    assert_eq!(lines[3], "---------------^");
}
