use vstd::prelude::*;

verus! {

/// How a compiler message affects the outcome.
#[derive(Debug, Clone, Copy, PartialEq, Eq, Structural)]
pub enum ResultStatus {
    Success,
    Warning,
    Error,
}

/// A message attached to a compiler result.
#[derive(Debug, Clone, PartialEq, Eq)]
pub struct ResultMessage {
    status: ResultStatus,
    message: String,
}

impl ResultMessage {
    pub closed spec fn status_view(self) -> ResultStatus {
        self.status
    }

    pub closed spec fn message_view(self) -> Seq<char> {
        self.message@
    }

    pub fn new(status: ResultStatus, message: &str) -> (r: ResultMessage)
        ensures
            r.status_view() == status,
            r.message_view() == message@,
    {
        ResultMessage { status, message: message.to_owned() }
    }

    pub fn status(&self) -> (r: ResultStatus)
        ensures
            r == self.status_view(),
    {
        self.status
    }

    pub fn message(&self) -> (r: &str)
        ensures
            r@ == self.message_view(),
    {
        self.message.as_str()
    }
}

/// True when some message in `messages` has `status`.
pub open spec fn has_status(messages: Seq<ResultMessage>, status: ResultStatus) -> bool {
    exists|i: int| 0 <= i < messages.len() && (#[trigger] messages[i]).status_view() == status
}

/// The outcome of a compiler phase: an optional value and the messages
/// produced on the way.
#[derive(Debug, Clone, PartialEq, Eq)]
pub struct CompilerResult<T> {
    value: Option<T>,
    messages: Vec<ResultMessage>,
}

impl<T> CompilerResult<T> {
    pub closed spec fn value_view(self) -> Option<T> {
        self.value
    }

    pub closed spec fn messages_view(self) -> Seq<ResultMessage> {
        self.messages@
    }

    /// Successful result: the value is present and there are no errors.
    pub open spec fn succeeded(self) -> bool {
        self.value_view() is Some && !has_status(self.messages_view(), ResultStatus::Error)
    }

    /// A value with no messages.
    pub fn success(value: T) -> (r: CompilerResult<T>)
        ensures
            r.value_view() == Some(value),
            r.messages_view() == Seq::<ResultMessage>::empty(),
    {
        CompilerResult { value: Some(value), messages: Vec::new() }
    }

    /// A value with the given messages.
    pub fn with_messages(value: T, messages: Vec<ResultMessage>) -> (r: CompilerResult<T>)
        ensures
            r.value_view() == Some(value),
            r.messages_view() == messages@,
    {
        CompilerResult { value: Some(value), messages }
    }

    /// No value, only messages.
    pub fn failure(messages: Vec<ResultMessage>) -> (r: CompilerResult<T>)
        ensures
            r.value_view() == None::<T>,
            r.messages_view() == messages@,
    {
        CompilerResult { value: None, messages }
    }

    pub fn value(&self) -> (r: Option<&T>)
        ensures
            r is Some <==> self.value_view() is Some,
            r matches Some(v) ==> self.value_view() == Some(*v),
    {
        self.value.as_ref()
    }

    pub fn into_value(self) -> (r: Option<T>)
        ensures
            r == self.value_view(),
    {
        self.value
    }

    pub fn messages(&self) -> (r: &[ResultMessage])
        ensures
            r@ == self.messages_view(),
    {
        self.messages.as_slice()
    }

    /// True when there is a value and no message is an error; warnings do
    /// not make a result unsuccessful.
    pub fn is_success(&self) -> (r: bool)
        ensures
            r == self.succeeded(),
    {
        self.value.is_some() && !self.has_errors()
    }

    pub fn has_warnings(&self) -> (r: bool)
        ensures
            r == has_status(self.messages_view(), ResultStatus::Warning),
    {
        Self::any_with_status(&self.messages, ResultStatus::Warning)
    }

    pub fn has_errors(&self) -> (r: bool)
        ensures
            r == has_status(self.messages_view(), ResultStatus::Error),
    {
        Self::any_with_status(&self.messages, ResultStatus::Error)
    }

    fn any_with_status(messages: &Vec<ResultMessage>, status: ResultStatus) -> (r: bool)
        ensures
            r == has_status(messages@, status),
    {
        let mut i: usize = 0;
        while i < messages.len()
            invariant
                i <= messages@.len(),
                forall|j: int| 0 <= j < i ==> (#[trigger] messages@[j]).status_view() != status,
            decreases messages@.len() - i,
        {
            if messages[i].status() == status {
                return true;
            }
            i = i + 1;
        }
        false
    }
}

/// A result with a value succeeds exactly when it has no error message,
/// whatever warnings it carries; a successful result has no errors; a
/// result without a value never succeeds.
pub proof fn law_success_means_value_without_errors<T>(r: CompilerResult<T>)
    ensures
        r.succeeded() ==> !has_status(r.messages_view(), ResultStatus::Error),
        r.value_view() is Some ==> (r.succeeded() <==> !has_status(
            r.messages_view(),
            ResultStatus::Error,
        )),
        r.value_view() is None ==> !r.succeeded(),
{
}

/// A message with `status` at any index makes `has_status` true for that
/// status, and `has_status` is true only when some message has it.
pub proof fn law_status_found_at_any_index(messages: Seq<ResultMessage>, status: ResultStatus)
    ensures
        forall|i: int|
            0 <= i < messages.len() && (#[trigger] messages[i]).status_view() == status
                ==> has_status(messages, status),
        has_status(messages, status) ==> exists|i: int|
            0 <= i < messages.len() && (#[trigger] messages[i]).status_view() == status,
{
}

/// An error message at any index makes a result unsuccessful; a result with
/// a value and no error message at any index succeeds.
pub proof fn law_error_anywhere_fails<T>(r: CompilerResult<T>)
    ensures
        forall|i: int|
            0 <= i < r.messages_view().len() && (#[trigger] r.messages_view()[i]).status_view()
                == ResultStatus::Error ==> !r.succeeded(),
        (r.value_view() is Some && forall|i: int|
            0 <= i < r.messages_view().len() ==> (#[trigger] r.messages_view()[i]).status_view()
                != ResultStatus::Error) ==> r.succeeded(),
{
}

/// A result built by `success` succeeds and has neither warnings nor errors.
pub proof fn law_fresh_success_is_clean<T>(r: CompilerResult<T>)
    requires
        r.value_view() is Some,
        r.messages_view().len() == 0,
    ensures
        r.succeeded(),
        !has_status(r.messages_view(), ResultStatus::Warning),
        !has_status(r.messages_view(), ResultStatus::Error),
{
}

} // verus!
