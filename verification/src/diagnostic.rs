use vstd::prelude::*;
use crate::span::Span;

verus! {

#[derive(Debug, Clone, Copy, PartialEq, Eq, Hash, Structural)]
pub enum Severity {
    Error,
    Warning,
    Info,
}

#[derive(Debug, Clone, Copy, PartialEq, Eq, Hash, Structural)]
pub enum DiagnosticCode {
    Generic,
    InvalidSource,
    UnexpectedToken,
    UnknownIdentifier,
    TypeMismatch,
}

/// A compiler diagnostic: code, severity, message, optional span and notes.
#[derive(Debug, Clone, PartialEq, Eq)]
pub struct Diagnostic {
    code: DiagnosticCode,
    severity: Severity,
    message: String,
    span: Option<Span>,
    notes: Vec<String>,
}

impl Diagnostic {
    pub closed spec fn code_view(self) -> DiagnosticCode {
        self.code
    }

    pub closed spec fn severity_view(self) -> Severity {
        self.severity
    }

    pub closed spec fn message_view(self) -> Seq<char> {
        self.message@
    }

    pub closed spec fn span_view(self) -> Option<Span> {
        self.span
    }

    /// The notes, in the order they were added.
    pub closed spec fn notes_view(self) -> Seq<Seq<char>> {
        self.notes@.map_values(|n: String| n@)
    }

    /// A diagnostic without notes.
    pub fn new(code: DiagnosticCode, severity: Severity, message: &str, span: Option<Span>) -> (r:
        Diagnostic)
        ensures
            r.code_view() == code,
            r.severity_view() == severity,
            r.message_view() == message@,
            r.span_view() == span,
            r.notes_view() == Seq::<Seq<char>>::empty(),
    {
        let d = Diagnostic {
            code,
            severity,
            message: message.to_owned(),
            span,
            notes: Vec::new(),
        };
        proof {
            assert(d.notes_view() =~= Seq::<Seq<char>>::empty());
        }
        d
    }

    /// The same diagnostic with `note` added after the existing notes.
    pub fn with_note(self, note: &str) -> (r: Diagnostic)
        ensures
            r.code_view() == self.code_view(),
            r.severity_view() == self.severity_view(),
            r.message_view() == self.message_view(),
            r.span_view() == self.span_view(),
            r.notes_view() == self.notes_view().push(note@),
    {
        let mut d = self;
        d.notes.push(note.to_owned());
        proof {
            assert(d.notes_view() =~= self.notes_view().push(note@));
        }
        d
    }

    pub fn code(&self) -> (r: DiagnosticCode)
        ensures
            r == self.code_view(),
    {
        self.code
    }

    pub fn severity(&self) -> (r: Severity)
        ensures
            r == self.severity_view(),
    {
        self.severity
    }

    pub fn message(&self) -> (r: &str)
        ensures
            r@ == self.message_view(),
    {
        self.message.as_str()
    }

    pub fn span(&self) -> (r: Option<Span>)
        ensures
            r == self.span_view(),
    {
        self.span
    }

    pub fn notes(&self) -> (r: &[String])
        ensures
            r@.map_values(|n: String| n@) == self.notes_view(),
    {
        self.notes.as_slice()
    }
}

} // verus!
