use http::StatusCode;
use tracker::Error;

fn reply(e: Error) -> (StatusCode, &'static str) {
    let (code, msg) = e.into_response();
    (StatusCode::from_u16(code).unwrap(), msg)
}

#[test]
fn wrong_credentials_is_unauthorized() {
    assert_eq!(reply(Error::WrongCredentials), (StatusCode::UNAUTHORIZED, "Wrong credentials"));
}

#[test]
fn missing_credentials_is_bad_request() {
    assert_eq!(reply(Error::MissingCredentials), (StatusCode::BAD_REQUEST, "Missing credentials"));
}

#[test]
fn token_creation_is_internal_error() {
    assert_eq!(
        reply(Error::TokenCreation),
        (StatusCode::INTERNAL_SERVER_ERROR, "Token creation error")
    );
}

#[test]
fn invalid_token_is_bad_request() {
    assert_eq!(reply(Error::InvalidToken), (StatusCode::BAD_REQUEST, "Invalid token"));
}

#[test]
fn other_errors_are_unhandled() {
    for e in [
        Error::LoginFail,
        Error::TemplateError,
        Error::TicketDeleteFailIdNotFound { id: "x".to_string() },
    ] {
        assert_eq!(reply(e), (StatusCode::INTERNAL_SERVER_ERROR, "UNHANDLED_CLIENT_ERROR"));
    }
}
