use ifa::source::Position;
use ifa::SourceText;

#[test]
fn empty_source_has_one_line() {
    let source = SourceText::new("empty.ifsl", "");

    assert_eq!(source.line_count(), 1);
    assert_eq!(source.line_start(1), Some(0));
    assert_eq!(source.line_text(1), Some(""));
}

#[test]
fn counts_lines() {
    let source = SourceText::new("example.ifsl", "alpha\nbeta\ngamma");

    assert_eq!(source.line_count(), 3);
    assert_eq!(source.line_start(1), Some(0));
    assert_eq!(source.line_start(2), Some(6));
    assert_eq!(source.line_start(3), Some(11));
}

#[test]
fn returns_line_text_without_newline() {
    let source = SourceText::new("example.ifsl", "alpha\nbeta\n");

    assert_eq!(source.line_text(1), Some("alpha"));
    assert_eq!(source.line_text(2), Some("beta"));
    assert_eq!(source.line_text(3), Some(""));
}

#[test]
fn converts_offset_to_position() {
    let source = SourceText::new("example.ifsl", "alpha\nbeta");

    assert_eq!(
        source.position_of(0),
        Some(Position {
            offset: 0,
            line: 1,
            column: 1
        })
    );

    assert_eq!(
        source.position_of(7),
        Some(Position {
            offset: 7,
            line: 2,
            column: 2
        })
    );
}

#[test]
fn handles_unicode_columns() {
    let source = SourceText::new("unicode.ifsl", "Raúl");

    assert_eq!(
        source.position_of(5),
        Some(Position {
            offset: 5,
            line: 1,
            column: 5
        })
    );
}

#[test]
fn rejects_invalid_utf8_boundary() {
    let source = SourceText::new("unicode.ifsl", "Raúl");

    // The 'ú' character occupies two UTF-8 bytes.
    assert_eq!(source.position_of(3), None);
}

#[test]
fn slices_source() {
    let source = SourceText::new("example.ifsl", "abcdef");

    assert_eq!(source.slice(1..4), Some("bcd"));
}

#[test]
fn rejects_invalid_slice() {
    let source = SourceText::new("example.ifsl", "abcdef");

    assert_eq!(source.slice(std::ops::Range { start: 4, end: 2 }), None);
    assert_eq!(source.slice(0..99), None);
}

#[test]
fn source_keeps_name_and_text() {
    let source = SourceText::new("a.ifsl", "x = 1");
    assert_eq!(source.name(), "a.ifsl");
    assert_eq!(source.text(), "x = 1");
    assert_eq!(source.len_bytes(), 5);
    assert!(!source.is_empty());
    assert!(SourceText::new("e", "").is_empty());
}

#[test]
fn line_zero_and_past_end_are_absent() {
    let source = SourceText::new("a", "one\ntwo");
    assert_eq!(source.line_start(0), None);
    assert_eq!(source.line_start(3), None);
    assert_eq!(source.line_text(0), None);
    assert_eq!(source.line_text(3), None);
}

#[test]
fn line_text_trims_carriage_returns() {
    let source = SourceText::new("crlf", "one\r\ntwo\r\r\n\rthree");
    assert_eq!(source.line_count(), 3);
    assert_eq!(source.line_text(1), Some("one"));
    assert_eq!(source.line_text(2), Some("two"));
    assert_eq!(source.line_text(3), Some("\rthree"));
}

#[test]
fn position_at_end_and_after_newline() {
    let source = SourceText::new("p", "ab\ncd");
    assert_eq!(source.position_of(5), Some(Position { offset: 5, line: 2, column: 3 }));
    assert_eq!(source.position_of(3), Some(Position { offset: 3, line: 2, column: 1 }));
    assert_eq!(source.position_of(2), Some(Position { offset: 2, line: 1, column: 3 }));
    assert_eq!(source.position_of(6), None);
}

#[test]
fn position_line_start_agree() {
    let source = SourceText::new("p", "ñ\nxyz\n\nq");
    for offset in 0..=source.len_bytes() {
        if let Some(position) = source.position_of(offset) {
            let start = source.line_start(position.line).unwrap();
            assert!(start <= offset);
        }
    }
    assert_eq!(source.position_of(1), None);
}

#[test]
fn slice_rejects_split_characters_and_accepts_whole_text() {
    let source = SourceText::new("u", "aúb");
    assert_eq!(source.slice(0..2), None);
    assert_eq!(source.slice(1..3), Some("ú"));
    assert_eq!(source.slice(0..source.len_bytes()), Some("aúb"));
}

#[test]
fn cloned_source_is_equal() {
    let source = SourceText::new("c", "a\nb");
    let copy = source.clone();
    assert_eq!(copy, source);
    assert_eq!(copy.line_start(2), Some(2));
}
