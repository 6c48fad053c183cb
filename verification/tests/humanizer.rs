use rufus::humanizer::{
    line_of, line_starts_of, replace_separator, sanitize_source_span, Humanizer, SourceLocation,
};

#[test]
fn humanizer_test_line_starts() {
    let cases = vec![
        ("", vec![0]),
        ("a", vec![0, 2]),
        ("a\n", vec![0, 2]),
        ("aa", vec![0, 3]),
        ("a\nb", vec![0, 2, 4]),
        ("a\nb\n", vec![0, 2, 4]),
        ("ab\ncd\n", vec![0, 3, 6]),
        ("\na", vec![0, 1, 3]),
    ];
    for (input, expected_line_starts) in cases {
        let humanizer = Humanizer::new(input);
        let expected_line_starts: Vec<_> = expected_line_starts.into_iter().collect();
        assert_eq!(humanizer.line_starts(), &expected_line_starts);
    }
}

#[test]
fn test_translation() {
    let humanizer = Humanizer::new("ab\nc\nde\n\nf");
    let cases = vec![
        (0, 0, 0),
        (1, 0, 1),
        (2, 0, 2),
        (3, 1, 0),
        (4, 1, 1),
        (5, 2, 0),
        (6, 2, 1),
        (7, 2, 2),
        (8, 3, 0),
        (9, 4, 0),
        (10, 4, 1),
        (11, 5, 0),
        (100, 5, 89),
    ];
    for (loc, line, column) in cases {
        assert!(humanizer.run(loc) == SourceLocation { line, column });
    }
}

#[test]
fn carriage_returns_before_line_feeds_are_not_counted() {
    assert_eq!(line_starts_of("a\r\nb"), vec![0, 2, 4]);
    assert_eq!(line_starts_of("a\r\n"), vec![0, 2]);
    assert_eq!(line_starts_of("a\r"), vec![0, 3]);
    assert_eq!(line_starts_of("\r\n\r\n"), vec![0, 1, 2]);
    assert_eq!(line_starts_of("\n\n"), vec![0, 1, 2]);
    assert_eq!(line_starts_of("é\n"), vec![0, 3]);
}

#[test]
fn line_of_finds_the_last_start_before_an_offset() {
    let starts = vec![0, 3, 5, 8];
    assert_eq!(line_of(&starts, 0), 0);
    assert_eq!(line_of(&starts, 2), 0);
    assert_eq!(line_of(&starts, 3), 1);
    assert_eq!(line_of(&starts, 7), 2);
    assert_eq!(line_of(&starts, 8), 3);
    assert_eq!(line_of(&starts, 1000), 3);
    assert_eq!(line_of(&vec![0], 17), 0);
}

#[test]
fn source_spans_get_a_hyphen() {
    let mut msg = "Unrecognized token `)` found at 1:4:1:5".to_string();
    sanitize_source_span(&mut msg);
    assert_eq!(msg, "Unrecognized token `)` found at 1:4-1:5");

    let mut msg = "12:3:14:15 and 1:2:3:4".to_string();
    sanitize_source_span(&mut msg);
    assert_eq!(msg, "12:3-14:15 and 1:2:3:4");

    let mut msg = "no span at 1:4 here".to_string();
    sanitize_source_span(&mut msg);
    assert_eq!(msg, "no span at 1:4 here");
}

#[test]
fn separators_are_replaced_where_they_are_given() {
    let mut msg = "a:b".to_string();
    replace_separator(&mut msg, Some((1, 2)));
    assert_eq!(msg, "a-b");
    replace_separator(&mut msg, None);
    assert_eq!(msg, "a-b");
    let mut msg = "ab".to_string();
    replace_separator(&mut msg, Some((1, 1)));
    assert_eq!(msg, "a-b");
}

#[test]
fn source_locations_are_shown_counting_from_one() {
    assert_eq!(SourceLocation { line: 0, column: 0 }.to_text(), "1:1");
    assert_eq!(SourceLocation { line: 4, column: 1 }.to_text(), "5:2");
    let humanizer = Humanizer::new("ab\nc\nde\n\nf");
    assert_eq!(humanizer.run(10).to_text(), "5:2");
}
