use ifa::{CompilerResult, Position, ResultMessage, ResultStatus, Span};

#[test]
fn stores_position_components() {
    let position = Position::new(12, 3, 5);

    assert_eq!(position.offset(), 12);
    assert_eq!(position.line(), 3);
    assert_eq!(position.column(), 5);
}

#[test]
fn positions_are_value_types() {
    let a = Position::new(12, 3, 5);
    let b = Position::new(12, 3, 5);
    let c = Position::new(13, 3, 5);

    assert_eq!(a, b);
    assert_ne!(a, c);
}

#[test]
fn creates_valid_span() {
    let span = Span::new(3, 8).expect("3..8 should be valid");

    assert_eq!(span.start(), 3);
    assert_eq!(span.end(), 8);
    assert_eq!(span.len(), 5);
    assert!(!span.is_empty());
}

#[test]
fn creates_empty_span() {
    let span = Span::new(5, 5).expect("5..5 should be valid");

    assert!(span.is_empty());
    assert_eq!(span.len(), 0);
}

#[test]
fn rejects_reversed_span() {
    assert!(Span::new(8, 3).is_none());
}

#[test]
fn converts_to_range() {
    let span = Span::new(2, 6).expect("2..6 should be valid");

    assert_eq!(span.range(), 2..6);
}

#[test]
fn contains_offsets_using_half_open_interval() {
    let span = Span::new(2, 6).expect("2..6 should be valid");

    assert!(!span.contains(1));
    assert!(span.contains(2));
    assert!(span.contains(5));
    assert!(!span.contains(6));
}

#[test]
fn contains_nested_span() {
    let outer = Span::new(2, 10).expect("2..10 should be valid");
    let inner = Span::new(4, 7).expect("4..7 should be valid");

    assert!(outer.contains_span(inner));
    assert!(!inner.contains_span(outer));
}

#[test]
fn empty_span_contains_no_offset_but_itself() {
    let span = Span::new(4, 4).unwrap();
    assert!(!span.contains(4));
    assert!(span.contains_span(span));
    assert!(Span::new(0, usize::MAX).unwrap().contains(usize::MAX - 1));
}

#[test]
fn success_contains_value() {
    let result = CompilerResult::success(42);

    assert_eq!(result.value(), Some(&42));
    assert!(result.is_success());
    assert!(!result.has_warnings());
    assert!(!result.has_errors());
}

#[test]
fn warnings_do_not_make_result_unsuccessful() {
    let result = CompilerResult::with_messages(
        42,
        vec![ResultMessage::new(ResultStatus::Warning, "example warning")],
    );

    assert_eq!(result.value(), Some(&42));
    assert!(result.is_success());
    assert!(result.has_warnings());
    assert!(!result.has_errors());
}

#[test]
fn errors_make_result_unsuccessful() {
    let result = CompilerResult::with_messages(
        42,
        vec![ResultMessage::new(ResultStatus::Error, "example error")],
    );

    assert_eq!(result.value(), Some(&42));
    assert!(!result.is_success());
    assert!(result.has_errors());
}

#[test]
fn failure_has_no_value() {
    let result: CompilerResult<u32> =
        CompilerResult::failure(vec![ResultMessage::new(ResultStatus::Error, "failed")]);

    assert_eq!(result.value(), None);
    assert!(result.has_errors());
    assert!(!result.is_success());
}

#[test]
fn messages_are_preserved() {
    let result = CompilerResult::with_messages(
        "value",
        vec![
            ResultMessage::new(ResultStatus::Warning, "warning"),
            ResultMessage::new(ResultStatus::Error, "error"),
        ],
    );

    assert_eq!(result.messages().len(), 2);
    assert_eq!(result.messages()[0].message(), "warning");
    assert_eq!(result.messages()[1].message(), "error");
}

#[test]
fn failure_without_messages_is_not_success() {
    let result: CompilerResult<u8> = CompilerResult::failure(Vec::new());
    assert!(!result.is_success());
    assert!(!result.has_errors());
    assert_eq!(result.into_value(), None);
}

#[test]
fn success_status_messages_do_not_count_as_errors() {
    let message = ResultMessage::new(ResultStatus::Success, "done");
    assert_eq!(message.status(), ResultStatus::Success);
    let result = CompilerResult::with_messages(7u8, vec![message]);
    assert!(result.is_success());
    assert!(!result.has_warnings());
    assert_eq!(result.into_value(), Some(7));
}
