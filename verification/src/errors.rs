use vstd::prelude::*;

verus! {

/// Declares `url::Url` so that a failure report can carry the address that failed.
#[verifier::external_type_specification]
#[verifier::external_body]
pub struct ExUrl(url::Url);

/// Raised when a bounded retry loop ran out of attempts.
#[derive(Debug, Clone, Copy, Default, PartialEq, Eq)]
pub struct MaximumAttemptExceeded;

impl MaximumAttemptExceeded {
    /// The human readable description of the error.
    pub fn to_string(&self) -> (text: String)
        ensures
            text@ == "Maximum retrieving count exceeded."@,
    {
        String::from_str("Maximum retrieving count exceeded.")
    }
}

/// An HTTP request to `url` answered with a status that is not a success.
#[derive(Debug)]
pub struct StatusFailure {
    pub url: url::Url,
    pub code: u16,
    pub text: String,
}

/// A field that must hold a value was empty.
#[derive(Debug, Clone, PartialEq, Eq)]
pub struct EmptyError {
    pub field: String,
}

impl EmptyError {
    /// The human readable description of the error.
    pub fn to_string(&self) -> (text: String)
        ensures
            text@ == "Field "@ + self.field@ + " is required, but it's empty"@,
    {
        let text = String::from_str("Field ");
        let text = text.concat(self.field.as_str());
        text.concat(" is required, but it's empty")
    }
}

/// An error that only carries a borrowed message.
#[derive(Debug, Clone)]
pub struct GenericError<'t> {
    msg: &'t str,
}

impl<'t> View for GenericError<'t> {
    type V = Seq<char>;

    closed spec fn view(&self) -> Seq<char> {
        self.msg@
    }
}

impl<'t> GenericError<'t> {
    /// Wraps `msg` into an error.
    pub fn new(msg: &'t str) -> (err: Self)
        ensures
            err@ == msg@,
    {
        GenericError { msg }
    }

    /// The message that the error was made with.
    pub fn to_string(&self) -> (text: String)
        ensures
            text@ == self@,
    {
        self.msg.to_owned()
    }
}

/// The websocket handshake did not switch protocols.
#[derive(Debug, Clone, PartialEq, Eq)]
pub struct WebsocketError {
    /// The status code that the server answered with, where there was an answer.
    pub status: Option<u16>,
    /// The reason phrase of that status, or the transport's own message.
    pub msg: Option<String>,
}

} // verus!
