use vstd::prelude::*;

verus! {

/// The HTTP statuses that the service answers with.
#[derive(Debug, Clone, Copy, PartialEq, Eq, Structural)]
pub enum Status {
    NonAuthoritativeInformation,
    BadRequest,
    Forbidden,
    NotFound,
    ExpectationFailed,
    NetworkAuthenticationRequired,
}

impl Status {
    /// The numeric HTTP code of the status.
    pub open spec fn spec_code(self) -> u16 {
        match self {
            Status::NonAuthoritativeInformation => 203,
            Status::BadRequest => 400,
            Status::Forbidden => 403,
            Status::NotFound => 404,
            Status::ExpectationFailed => 417,
            Status::NetworkAuthenticationRequired => 511,
        }
    }

    /// The numeric HTTP code of the status.
    pub fn code(&self) -> (c: u16)
        ensures
            c == self.spec_code(),
    {
        match self {
            Status::NonAuthoritativeInformation => 203,
            Status::BadRequest => 400,
            Status::Forbidden => 403,
            Status::NotFound => 404,
            Status::ExpectationFailed => 417,
            Status::NetworkAuthenticationRequired => 511,
        }
    }
}

/// An error answer: the status and the message shown to the client.
#[derive(Debug)]
pub struct ErrorT {
    pub status: Status,
    pub message: String,
}

/// `e` answers with `status` and `message`.
pub open spec fn is_error(e: ErrorT, status: Status, message: Seq<char>) -> bool {
    e.status == status && e.message@ == message
}

/// The body of the response that carries an error message.
pub open spec fn error_body(message: Seq<char>) -> Seq<char> {
    "Bad: "@ + message
}

impl ErrorT {
    /// Builds an error from a status and a message.
    pub fn new(status: Status, message: &str) -> (e: ErrorT)
        ensures
            e.status == status,
            e.message@ == message@,
    {
        ErrorT { status, message: message.to_owned() }
    }

    /// The text sent as the body of the error response.
    pub fn response_body(&self) -> (body: String)
        ensures
            body@ == error_body(self.message@),
    {
        let mut body = String::from_str("Bad: ");
        body.append(self.message.as_str());
        body
    }
}

} // verus!
