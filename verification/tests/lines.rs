use gitcard::lines::{substring_lines, substring_lines_with_max};
use gitcard::range::{LineRange, ResolvedRange};

#[test]
fn selects_the_requested_lines() {
    let text = b"one\ntwo\nthree\nfour\n";
    assert_eq!(substring_lines(text, &ResolvedRange { from: 2, to: 3 }), b"two\nthree\n".to_vec());
    assert_eq!(substring_lines(text, &ResolvedRange { from: 1, to: 1 }), b"one\n".to_vec());
    assert_eq!(substring_lines(text, &ResolvedRange { from: 4, to: 9 }), b"four\n".to_vec());
}

#[test]
fn ends_an_unfinished_last_line() {
    let text = b"one\ntwo";
    assert_eq!(substring_lines(text, &ResolvedRange { from: 2, to: 2 }), b"two\n".to_vec());
    assert_eq!(substring_lines(text, &ResolvedRange { from: 1, to: 5 }), b"one\ntwo\n".to_vec());
    assert_eq!(substring_lines(text, &ResolvedRange { from: 1, to: 1 }), b"one\n".to_vec());
}

#[test]
fn writes_each_line_break_as_one_byte() {
    let text = b"one\r\ntwo\r\nthree\rstill three\r\n\r\nlast\r";
    assert_eq!(
        substring_lines(text, &ResolvedRange { from: 1, to: 10 }),
        b"one\ntwo\nthree\rstill three\n\nlast\r\n".to_vec()
    );
    assert_eq!(substring_lines(b"\r\r\n", &ResolvedRange { from: 1, to: 1 }), b"\r\n".to_vec());
}

#[test]
fn nothing_is_selected_outside_the_text() {
    let text = b"one\ntwo\n";
    assert_eq!(substring_lines(text, &ResolvedRange { from: 3, to: 8 }), Vec::<u8>::new());
    assert_eq!(substring_lines(text, &ResolvedRange { from: 2, to: 1 }), Vec::<u8>::new());
    assert_eq!(substring_lines(b"", &ResolvedRange { from: 1, to: 25 }), Vec::<u8>::new());
}

#[test]
fn caps_the_selection() {
    let text = b"1\n2\n3\n4\n5\n6\n";
    let open = LineRange { from: 2, to: None };
    assert_eq!(substring_lines_with_max(text, &open, 3), b"2\n3\n4\n".to_vec());
    let wide = LineRange { from: 1, to: Some(6) };
    assert_eq!(substring_lines_with_max(text, &wide, 2), b"1\n2\n".to_vec());
    let narrow = LineRange { from: 5, to: Some(6) };
    assert_eq!(substring_lines_with_max(text, &narrow, 3), b"5\n6\n".to_vec());
}
