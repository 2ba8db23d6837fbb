use vstd::prelude::*;
use vstd::string::*;

verus! {

/// An error with a stable machine-readable code, a message and, when known,
/// the rule that produced it.
#[derive(Debug, Clone)]
pub struct Error {
    pub code: String,
    pub message: String,
    pub rule_id: Option<String>,
}

/// What an error says: its code, its message and the rule it names.
pub struct ErrorView {
    pub code: Seq<char>,
    pub message: Seq<char>,
    pub rule_id: Option<Seq<char>>,
}

/// An error that names no rule.
pub open spec fn fault(code: Seq<char>, message: Seq<char>) -> ErrorView {
    ErrorView { code, message, rule_id: None }
}

/// An error `e` attributed to the rule `id`.
pub open spec fn with_rule(e: ErrorView, id: Seq<char>) -> ErrorView {
    ErrorView { code: e.code, message: e.message, rule_id: Some(id) }
}

impl View for Error {
    type V = ErrorView;

    open spec fn view(&self) -> ErrorView {
        ErrorView { code: self.code@, message: self.message@, rule_id: self.rule_view() }
    }
}

impl Error {
    /// The rule ID carried by the error, as text.
    pub open spec fn rule_view(&self) -> Option<Seq<char>> {
        match self.rule_id {
            Some(r) => Some(r@),
            None => None,
        }
    }

    /// An error with a code of the given text.
    pub fn new(code: &str, message: &str) -> (e: Error)
        ensures
            e.code@ == code@,
            e.message@ == message@,
            e.rule_id is None,
            e@ == fault(code@, message@),
    {
        Error { code: code.to_owned(), message: message.to_owned(), rule_id: None }
    }

    /// Attaches the ID of the rule that caused the error.
    pub fn rule(self, id: &str) -> (e: Error)
        ensures
            e.code == self.code,
            e.message == self.message,
            e.rule_view() == Some(id@),
            e@ == with_rule(self@, id@),
    {
        Error { code: self.code, message: self.message, rule_id: Some(id.to_owned()) }
    }
}

} // verus!

verus! {

impl Error {
    /// A copy of this error.
    pub fn clone_error(&self) -> (e: Error)
        ensures
            e@ == self@,
    {
        let rule_id = match &self.rule_id {
            Some(r) => Some(r.clone()),
            None => None,
        };
        Error { code: self.code.clone(), message: self.message.clone(), rule_id }
    }

    /// An error with the given code carrying an owned message.
    pub fn with_message(code: &str, message: String) -> (e: Error)
        ensures
            e@ == fault(code@, message@),
    {
        Error { code: code.to_owned(), message, rule_id: None }
    }

    /// An error whose message is `message` followed by `detail`.
    pub fn detailed(code: &str, message: &str, detail: &str) -> (e: Error)
        ensures
            e@ == fault(code@, message@ + detail@),
    {
        let mut m = message.to_owned();
        m.append(detail);
        Error { code: code.to_owned(), message: m, rule_id: None }
    }
}

} // verus!
