use tracker::auth::{
    authorize_claims, authorize_reply, bearer_token, login_message, AuthBody, AuthPayload, Claims,
};
use tracker::Error;

fn payload(id: &str, secret: &str) -> AuthPayload {
    AuthPayload { client_id: id.to_string(), client_secret: secret.to_string() }
}

#[test]
fn known_client_gets_claims() {
    let c = authorize_claims(&payload("foo", "bar")).unwrap();
    assert_eq!(c.sub, "b@b.com");
    assert_eq!(c.company, "ACME");
    assert_eq!(c.exp, 2000000000);
}

#[test]
fn empty_credentials_are_missing() {
    assert!(matches!(authorize_claims(&payload("", "bar")), Err(Error::MissingCredentials)));
    assert!(matches!(authorize_claims(&payload("foo", "")), Err(Error::MissingCredentials)));
    assert!(matches!(authorize_claims(&payload("", "")), Err(Error::MissingCredentials)));
}

#[test]
fn other_credentials_are_wrong() {
    assert!(matches!(authorize_claims(&payload("foo", "baz")), Err(Error::WrongCredentials)));
    assert!(matches!(authorize_claims(&payload("fo", "bar")), Err(Error::WrongCredentials)));
    assert!(matches!(authorize_claims(&payload("bar", "foo")), Err(Error::WrongCredentials)));
}

#[test]
fn signed_token_becomes_bearer_reply() {
    let b = authorize_reply(Some("abc.def.ghi".to_string())).unwrap();
    assert_eq!(b.access_token, "abc.def.ghi");
    assert_eq!(b.token_type, "Bearer");
}

#[test]
fn unsigned_token_is_token_creation_error() {
    assert!(matches!(authorize_reply(None), Err(Error::TokenCreation)));
}

#[test]
fn auth_body_new_is_bearer() {
    let b = AuthBody::new("t0k".to_string());
    assert_eq!((b.access_token.as_str(), b.token_type.as_str()), ("t0k", "Bearer"));
}

#[test]
fn claims_describe() {
    let c = Claims { sub: "b@b.com".to_string(), company: "ACME".to_string(), exp: 1 };
    assert_eq!(c.describe(), "Email: b@b.com\nCompany: ACME");
}

#[test]
fn login_messages() {
    assert_eq!(login_message(true).unwrap(), "Ok");
    assert_eq!(login_message(false).unwrap(), "Token is invalid");
}

#[test]
fn bearer_token_reads_token() {
    assert_eq!(bearer_token(Some(b"Bearer abc.def")).unwrap(), "abc.def");
    assert_eq!(bearer_token(Some(b"Bearer ")).unwrap(), "");
    assert_eq!(bearer_token(Some(b"Bearer a\tb")).unwrap(), "a\tb");
}

#[test]
fn bearer_token_refusals() {
    for v in [
        &b"bearer abc"[..],
        b"Bearer",
        b"Bearerabc",
        b"Basic QWxhZGRpbjpvcGVuIHNlc2FtZQ==",
        b"Bearer ab\x7fc",
        b"Bearer ab\x01c",
        b"Bearer \xc3\xa9",
        b"",
    ] {
        assert!(matches!(bearer_token(Some(v)), Err(Error::InvalidToken)), "{:?}", v);
    }
    assert!(matches!(bearer_token(None), Err(Error::InvalidToken)));
}

#[test]
fn issued_token_reads_back() {
    let b = authorize_reply(Some("eyJ0.eyJz.c2ln".to_string())).unwrap();
    let header = format!("{} {}", b.token_type, b.access_token);
    assert_eq!(bearer_token(Some(header.as_bytes())).unwrap(), b.access_token);
}
