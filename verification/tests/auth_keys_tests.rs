use axum::extract::FromRequestParts;
use axum::http::Request;
use axum_csrf::{CsrfConfig, CsrfToken};
use jsonwebtoken::{decode, encode, Header, Validation};
use tracker::auth::{authorize, claims_of_request, login, AuthPayload, Claims, Keys, LoginPayload};
use tracker::Error;

fn csrf_token() -> CsrfToken {
    let runtime = tokio::runtime::Runtime::new().unwrap();
    let (mut parts, _) = Request::builder().uri("/auth/login").body(()).unwrap().into_parts();
    let config = CsrfConfig::default();
    runtime.block_on(CsrfToken::from_request_parts(&mut parts, &config)).ok().unwrap()
}

fn form(csrf_token: String) -> LoginPayload {
    LoginPayload { csrf_token, username: "tracker".to_string(), password: "tracker".to_string() }
}

fn payload(id: &str, secret: &str) -> AuthPayload {
    AuthPayload { client_id: id.to_string(), client_secret: secret.to_string() }
}

fn claims_json(sub: &str, company: &str, exp: u64) -> serde_json::Value {
    let mut map = serde_json::Map::new();
    map.insert("sub".to_string(), serde_json::Value::from(sub));
    map.insert("company".to_string(), serde_json::Value::from(company));
    map.insert("exp".to_string(), serde_json::Value::from(exp));
    serde_json::Value::Object(map)
}

#[test]
fn login_with_the_page_token_is_ok() {
    let token = csrf_token();
    let authenticity = token.authenticity_token().unwrap();
    assert_eq!(login(&token, &form(authenticity)).unwrap(), "Ok");
}

#[test]
fn login_with_another_token_is_invalid() {
    let token = csrf_token();
    assert_eq!(login(&token, &form("not a hash".to_string())).unwrap(), "Token is invalid");
    let other = csrf_token().authenticity_token().unwrap();
    assert_eq!(login(&token, &form(other)).unwrap(), "Token is invalid");
}

#[test]
fn keys_keep_the_secret() {
    assert_eq!(Keys::new(b"a secret").secret, b"a secret".to_vec());
    assert!(Keys::new(b"").secret.is_empty());
}

#[test]
fn authorize_issues_a_token_that_checks_back() {
    let keys = Keys::new(b"a secret");
    let body = authorize(&payload("foo", "bar"), &keys).unwrap();
    assert_eq!(body.token_type, "Bearer");
    let back = decode::<serde_json::Value>(&body.access_token, &jsonwebtoken::DecodingKey::from_secret(b"a secret"), &Validation::default()).unwrap();
    assert_eq!(back.claims, claims_json("b@b.com", "ACME", 2000000000));
    let header = format!("{} {}", body.token_type, body.access_token);
    let c = claims_of_request(Some(header.as_bytes()), &keys).unwrap();
    assert_eq!((c.sub.as_str(), c.company.as_str(), c.exp), ("b@b.com", "ACME", 2000000000));
}

#[test]
fn issued_token_is_the_jsonwebtoken_signature_of_the_claims() {
    let keys = Keys::new(b"k");
    let body = authorize(&payload("foo", "bar"), &keys).unwrap();
    let expected = encode(
        &Header::default(),
        &claims_json("b@b.com", "ACME", 2000000000),
        &jsonwebtoken::EncodingKey::from_secret(b"k"),
    )
    .unwrap();
    assert_eq!(body.access_token, expected);
}

#[test]
fn authorize_refusals() {
    let keys = Keys::new(b"s");
    assert!(matches!(authorize(&payload("", "bar"), &keys), Err(Error::MissingCredentials)));
    assert!(matches!(authorize(&payload("foo", "x"), &keys), Err(Error::WrongCredentials)));
}

#[test]
fn token_of_another_secret_is_invalid() {
    let body = authorize(&payload("foo", "bar"), &Keys::new(b"one")).unwrap();
    let header = format!("Bearer {}", body.access_token);
    assert!(matches!(
        claims_of_request(Some(header.as_bytes()), &Keys::new(b"two")),
        Err(Error::InvalidToken)
    ));
}

#[test]
fn expired_or_malformed_tokens_are_invalid() {
    let keys = Keys::new(b"s");
    let expired = encode(
        &Header::default(),
        &claims_json("b@b.com", "ACME", 1),
        &jsonwebtoken::EncodingKey::from_secret(b"s"),
    )
    .unwrap();
    let header = format!("Bearer {}", expired);
    assert!(matches!(claims_of_request(Some(header.as_bytes()), &keys), Err(Error::InvalidToken)));
    assert!(matches!(claims_of_request(Some(b"Bearer abc"), &keys), Err(Error::InvalidToken)));
    assert!(matches!(claims_of_request(Some(b"Basic abc"), &keys), Err(Error::InvalidToken)));
    assert!(matches!(claims_of_request(None, &keys), Err(Error::InvalidToken)));
}

#[test]
fn token_without_company_is_invalid() {
    let keys = Keys::new(b"s");
    let mut map = serde_json::Map::new();
    map.insert("sub".to_string(), serde_json::Value::from("b@b.com"));
    map.insert("exp".to_string(), serde_json::Value::from(2000000000u64));
    let token = encode(&Header::default(), &map, &jsonwebtoken::EncodingKey::from_secret(b"s")).unwrap();
    let header = format!("Bearer {}", token);
    assert!(matches!(claims_of_request(Some(header.as_bytes()), &keys), Err(Error::InvalidToken)));
}

#[test]
fn keys_sign_and_check_any_claims() {
    let keys = Keys::new(b"secret");
    let c = Claims { sub: "x@y.z".to_string(), company: "Co \"q\"".to_string(), exp: 4000000000 };
    let token = keys.sign(&c).unwrap();
    let back = keys.check(&token).unwrap();
    assert_eq!((back.sub, back.company, back.exp), (c.sub.clone(), c.company.clone(), c.exp));
    assert!(Keys::new(b"other").check(&token).is_none());
    let old = Claims { sub: "a".to_string(), company: "b".to_string(), exp: 1 };
    assert!(keys.check(&keys.sign(&old).unwrap()).is_none());
}
