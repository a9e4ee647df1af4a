use vstd::prelude::*;

verus! {

/// The result type of every fallible operation of the service.
pub type Result<T> = core::result::Result<T, Error>;

/// Everything that can go wrong while serving a request.
#[derive(Debug)]
pub enum Error {
    LoginFail,
    // Authentication errors
    WrongCredentials,
    MissingCredentials,
    TokenCreation,
    InvalidToken,
    TemplateError,
    TicketDeleteFailIdNotFound { id: String },
}

/// HTTP status code of the reply that reports `e` to the client.
pub open spec fn reply_status(e: Error) -> u16 {
    match e {
        Error::WrongCredentials => 401,
        Error::MissingCredentials => 400,
        Error::TokenCreation => 500,
        Error::InvalidToken => 400,
        _ => 500,
    }
}

/// Message of the reply that reports `e` to the client.
pub open spec fn reply_message(e: Error) -> Seq<char> {
    match e {
        Error::WrongCredentials => "Wrong credentials"@,
        Error::MissingCredentials => "Missing credentials"@,
        Error::TokenCreation => "Token creation error"@,
        Error::InvalidToken => "Invalid token"@,
        _ => "UNHANDLED_CLIENT_ERROR"@,
    }
}

impl Error {
    /// The status code and the message under `"error"` of the JSON reply
    /// that reports this error to the client.
    pub fn into_response(self) -> (r: (u16, &'static str))
        ensures
            r.0 == reply_status(self),
            r.1@ == reply_message(self),
    {
        match self {
            Error::WrongCredentials => (401, "Wrong credentials"),
            Error::MissingCredentials => (400, "Missing credentials"),
            Error::TokenCreation => (500, "Token creation error"),
            Error::InvalidToken => (400, "Invalid token"),
            _ => (500, "UNHANDLED_CLIENT_ERROR"),
        }
    }
}

} // verus!
