use ifa::{Diagnostic, DiagnosticCode, Severity, Span};

#[test]
fn creates_error_diagnostic() {
    let span = Span::new(2, 5).expect("valid span");

    let diagnostic = Diagnostic::new(
        DiagnosticCode::UnexpectedToken,
        Severity::Error,
        "unexpected token",
        Some(span),
    );

    assert_eq!(diagnostic.code(), DiagnosticCode::UnexpectedToken);
    assert_eq!(diagnostic.severity(), Severity::Error);
    assert_eq!(diagnostic.message(), "unexpected token");
    assert_eq!(diagnostic.span(), Some(span));
}

#[test]
fn creates_diagnostic_without_span() {
    let diagnostic = Diagnostic::new(
        DiagnosticCode::Generic,
        Severity::Info,
        "compiler information",
        None,
    );

    assert_eq!(diagnostic.span(), None);
}

#[test]
fn notes_are_preserved() {
    let diagnostic = Diagnostic::new(
        DiagnosticCode::TypeMismatch,
        Severity::Error,
        "type mismatch",
        None,
    )
    .with_note("expected Integer")
    .with_note("found Percentage");

    assert_eq!(
        diagnostic.notes(),
        &[
            "expected Integer".to_string(),
            "found Percentage".to_string()
        ]
    );
}

#[test]
fn new_diagnostic_has_no_notes_and_note_keeps_the_rest() {
    let diagnostic = Diagnostic::new(DiagnosticCode::InvalidSource, Severity::Warning, "bad", None);
    assert!(diagnostic.notes().is_empty());
    let noted = diagnostic.with_note("hint");
    assert_eq!(noted.code(), DiagnosticCode::InvalidSource);
    assert_eq!(noted.severity(), Severity::Warning);
    assert_eq!(noted.message(), "bad");
    assert_eq!(noted.notes().len(), 1);
}
