use gitcard::error::PreviewError;
use gitcard::range::{clamp_query_lines, lines_for_card, lines_for_image, number_of, LineRange, ResolvedRange};

#[test]
fn parses_from_and_to() {
    assert_eq!(LineRange::parse("10-15"), Ok(LineRange { from: 10, to: Some(15) }));
    assert_eq!(LineRange::parse("7-7"), Ok(LineRange { from: 7, to: Some(7) }));
    assert_eq!(LineRange::parse("1-4294967295"), Ok(LineRange { from: 1, to: Some(u32::MAX) }));
}

#[test]
fn parses_open_ended_forms() {
    assert_eq!(LineRange::parse("12-"), Ok(LineRange { from: 12, to: None }));
    assert_eq!(LineRange::parse("12"), Ok(LineRange { from: 12, to: None }));
}

#[test]
fn descending_range_degrades_to_open_ended() {
    assert_eq!(LineRange::parse("5-3"), Ok(LineRange { from: 5, to: None }));
    assert_eq!(LineRange::parse("2-1"), Ok(LineRange { from: 2, to: None }));
}

#[test]
fn descending_range_resolves_to_a_full_window() {
    let range = LineRange::parse("5-3").unwrap();
    assert_eq!(range, LineRange { from: 5, to: None });
    assert_eq!(clamp_query_lines(&range, 25), ResolvedRange { from: 5, to: 29 });
}

#[test]
fn missing_or_unreadable_from_defaults_to_first_line() {
    assert_eq!(LineRange::parse(""), Ok(LineRange { from: 1, to: None }));
    assert_eq!(LineRange::parse("-9"), Ok(LineRange { from: 1, to: Some(9) }));
    assert_eq!(LineRange::parse("abc-9"), Ok(LineRange { from: 1, to: Some(9) }));
    assert_eq!(LineRange::parse("0-9"), Ok(LineRange { from: 1, to: Some(9) }));
    assert_eq!(LineRange::parse("4294967296-9"), Ok(LineRange { from: 1, to: Some(9) }));
    assert_eq!(LineRange::parse("1:5"), Ok(LineRange { from: 1, to: None }));
}

#[test]
fn unreadable_to_is_absent() {
    assert_eq!(LineRange::parse("3-x"), Ok(LineRange { from: 3, to: None }));
    assert_eq!(LineRange::parse("3-4294967296"), Ok(LineRange { from: 3, to: None }));
    assert_eq!(LineRange::parse("3- 9"), Ok(LineRange { from: 3, to: None }));
}

#[test]
fn more_than_one_separator_is_refused() {
    assert_eq!(LineRange::parse("1-2-3"), Err(PreviewError::InvalidRangeFormat));
    assert_eq!(LineRange::parse("--"), Err(PreviewError::InvalidRangeFormat));
    assert_eq!(LineRange::parse_bytes(b"4--"), Err(PreviewError::InvalidRangeFormat));
}

#[test]
fn bounds_may_carry_a_plus_sign_and_leading_zeros() {
    assert_eq!(LineRange::parse("+3-+8"), Ok(LineRange { from: 3, to: Some(8) }));
    assert_eq!(LineRange::parse("007-010"), Ok(LineRange { from: 7, to: Some(10) }));
    assert_eq!(LineRange::parse("+-5"), Ok(LineRange { from: 1, to: Some(5) }));
}

#[test]
fn numbers_are_read_in_base_ten() {
    assert_eq!(number_of("8080"), Some(8080));
    assert_eq!(number_of("0"), Some(0));
    assert_eq!(number_of("4294967295"), Some(u32::MAX));
    assert_eq!(number_of("4294967296"), None);
    assert_eq!(number_of("99999999999999999999999"), None);
    assert_eq!(number_of(""), None);
    assert_eq!(number_of("+"), None);
    assert_eq!(number_of("12a"), None);
    assert_eq!(number_of("１２"), None);
}

#[test]
fn new_normalizes_its_bounds() {
    assert_eq!(LineRange::new(None, None), LineRange { from: 1, to: None });
    assert_eq!(LineRange::new(Some(0), Some(0)), LineRange { from: 1, to: None });
    assert_eq!(LineRange::new(Some(4), Some(4)), LineRange { from: 4, to: Some(4) });
    assert_eq!(LineRange::new(Some(4), Some(3)), LineRange { from: 4, to: None });
    assert_eq!(LineRange::default(), LineRange { from: 1, to: None });
}

#[test]
fn narrow_range_is_kept() {
    let range = LineRange { from: 10, to: Some(15) };
    assert_eq!(clamp_query_lines(&range, 25), ResolvedRange { from: 10, to: 15 });
    let widest = LineRange { from: 10, to: Some(34) };
    assert_eq!(clamp_query_lines(&widest, 25), ResolvedRange { from: 10, to: 34 });
}

#[test]
fn wide_or_open_range_is_capped() {
    let wide = LineRange { from: 10, to: Some(35) };
    assert_eq!(clamp_query_lines(&wide, 25), ResolvedRange { from: 10, to: 34 });
    let open = LineRange { from: 1, to: None };
    assert_eq!(clamp_query_lines(&open, 25), ResolvedRange { from: 1, to: 25 });
    let single = LineRange { from: 3, to: Some(9) };
    assert_eq!(clamp_query_lines(&single, 1), ResolvedRange { from: 3, to: 3 });
}

#[test]
fn resolved_window_is_bounded_and_keeps_its_start() {
    let ranges = [
        LineRange { from: 1, to: None },
        LineRange { from: 1, to: Some(1) },
        LineRange { from: 40, to: Some(4000) },
        LineRange { from: u32::MAX, to: None },
        LineRange { from: u32::MAX, to: Some(u32::MAX) },
    ];
    for range in ranges {
        for max_window in [1u32, 2, 25, u32::MAX] {
            let window = clamp_query_lines(&range, max_window);
            assert_eq!(window.from, range.from as u64);
            assert!(window.to - window.from < max_window as u64);
        }
    }
}

#[test]
fn resolving_twice_changes_nothing() {
    let once = clamp_query_lines(&LineRange { from: 8, to: Some(500) }, 25);
    let again = LineRange { from: once.from as u32, to: Some(once.to as u32) };
    assert_eq!(clamp_query_lines(&again, 25), once);
}

#[test]
fn cap_near_the_end_of_the_number_range_does_not_wrap() {
    let range = LineRange { from: u32::MAX, to: None };
    assert_eq!(
        clamp_query_lines(&range, u32::MAX),
        ResolvedRange { from: 4294967295, to: 8589934589 }
    );
}

#[test]
fn empty_cap_gives_an_empty_window() {
    let range = LineRange { from: 6, to: Some(9) };
    assert_eq!(clamp_query_lines(&range, 0), ResolvedRange { from: 6, to: 5 });
}

#[test]
fn image_request_fails_on_a_malformed_range() {
    assert_eq!(lines_for_image(None), Ok(LineRange { from: 1, to: None }));
    assert_eq!(lines_for_image(Some("3-4")), Ok(LineRange { from: 3, to: Some(4) }));
    assert_eq!(lines_for_image(Some("3-4-5")), Err(PreviewError::InvalidRangeFormat));
}

#[test]
fn card_request_passes_over_a_malformed_range() {
    assert_eq!(lines_for_card(None), LineRange { from: 1, to: None });
    assert_eq!(lines_for_card(Some("3-4")), LineRange { from: 3, to: Some(4) });
    assert_eq!(lines_for_card(Some("3-4-5")), LineRange { from: 1, to: None });
}
