use vstd::prelude::*;
use headers::Header;
use axum_csrf::CsrfToken;
use crate::error::{Error, Result};

verus! {

/// The anti-forgery token of a request (`axum_csrf::CsrfToken`), carried
/// through as it is.
#[verifier::external_type_specification]
#[verifier::external_body]
pub struct ExCsrfToken(CsrfToken);

/// The secret that signs and checks the service's access tokens.
pub struct Keys {
    pub secret: Vec<u8>,
}

impl Keys {
    /// The keys made from one shared secret, which they keep as it is.
    pub fn new(secret: &[u8]) -> (k: Keys)
        ensures
            k.secret@ == secret@,
    {
        Keys { secret: vstd::slice::slice_to_vec(secret) }
    }
}

/// The login form.
pub struct LoginPayload {
    pub csrf_token: String,
    pub username: String,
    pub password: String,
}

/// Whether `axum_csrf` accepts a form's authenticity token for the
/// request's anti-forgery token: the form token parses as a password hash
/// and the default Argon2 check of the token that the request's cookie holds
/// against it passes. That cookie token sits inside the opaque `CsrfToken`,
/// so the name takes the `CsrfToken` itself; the check is deterministic.
pub uninterp spec fn csrf_accepts(token: CsrfToken, form_authenticity_token: Seq<char>) -> bool;

/// `axum_csrf::CsrfToken::verify`: whether the authenticity token of a form
/// is an Argon2 hash of the token that the request's cookie holds. The answer
/// depends on the token and the form text alone and is named `csrf_accepts`.
#[verifier::external_body]
fn csrf_verifies(token: &CsrfToken, form_authenticity_token: &str) -> (ok: bool)
    ensures
        ok == csrf_accepts(*token, form_authenticity_token@),
{
    token.verify(form_authenticity_token).is_ok()
}

/// Answers a login form: checks its authenticity token against the
/// request's anti-forgery token and answers `Ok` when it checks out,
/// `Token is invalid` when it does not.
pub fn login(token: &CsrfToken, form_data: &LoginPayload) -> (r: Result<String>)
    ensures
        r matches Ok(s) && s@ == (if csrf_accepts(*token, form_data.csrf_token@) {
            "Ok"@
        } else {
            "Token is invalid"@
        }),
{
    let verified = csrf_verifies(token, form_data.csrf_token.as_str());
    login_message(verified)
}

/// The credentials a client presents to obtain an access token.
pub struct AuthPayload {
    pub client_id: String,
    pub client_secret: String,
}

/// What an access token asserts about its holder.
pub struct Claims {
    pub sub: String,
    pub company: String,
    pub exp: usize,
}

/// The reply to a successful authorization.
pub struct AuthBody {
    pub access_token: String,
    pub token_type: String,
}

/// Subject of the claims issued to an authorized client.
pub open spec fn issued_sub() -> Seq<char> {
    "b@b.com"@
}

/// Company of the claims issued to an authorized client.
pub open spec fn issued_company() -> Seq<char> {
    "ACME"@
}

/// Expiry (UTC timestamp, May 2033) of the claims issued to an authorized client.
pub open spec fn issued_exp() -> usize {
    2000000000
}

/// The credentials of the one known client.
pub open spec fn known_client(client_id: Seq<char>, client_secret: Seq<char>) -> bool {
    client_id == "foo"@ && client_secret == "bar"@
}

/// Checks the credentials of an authorization request. Either part missing
/// (empty) is `MissingCredentials`; otherwise anything but the known client
/// is `WrongCredentials`; the known client gets the claims that its token
/// will carry.
pub fn authorize_claims(payload: &AuthPayload) -> (r: Result<Claims>)
    ensures
        (payload.client_id@.len() == 0 || payload.client_secret@.len() == 0) ==> r matches Err(
            Error::MissingCredentials,
        ),
        (payload.client_id@.len() != 0 && payload.client_secret@.len() != 0 && !known_client(
            payload.client_id@,
            payload.client_secret@,
        )) ==> r matches Err(Error::WrongCredentials),
        known_client(payload.client_id@, payload.client_secret@) ==> (r matches Ok(c) && {
            &&& c.sub@ == issued_sub()
            &&& c.company@ == issued_company()
            &&& c.exp == issued_exp()
        }),
{
    proof {
        reveal_strlit("foo");
        reveal_strlit("bar");
    }
    if payload.client_id.as_str().is_empty() || payload.client_secret.as_str().is_empty() {
        return Err(Error::MissingCredentials);
    }
    let same_id = payload.client_id == "foo".to_owned();
    let same_secret = payload.client_secret == "bar".to_owned();
    if !same_id || !same_secret {
        return Err(Error::WrongCredentials);
    }
    Ok(Claims { sub: "b@b.com".to_owned(), company: "ACME".to_owned(), exp: 2000000000 })
}

/// Finishes an authorization once the claims were signed: no token is
/// `TokenCreation`, a token is handed out as a bearer token.
pub fn authorize_reply(token: Option<String>) -> (r: Result<AuthBody>)
    ensures
        token is None ==> r matches Err(Error::TokenCreation),
        token matches Some(t) ==> (r matches Ok(b) && b.access_token@ == t@ && b.token_type@
            == "Bearer"@),
{
    match token {
        Some(t) => Ok(AuthBody::new(t)),
        None => Err(Error::TokenCreation),
    }
}

impl AuthBody {
    /// A bearer-token reply carrying `access_token`.
    pub fn new(access_token: String) -> (b: AuthBody)
        ensures
            b.access_token@ == access_token@,
            b.token_type@ == "Bearer"@,
    {
        AuthBody { access_token, token_type: "Bearer".to_owned() }
    }
}

impl Claims {
    /// The claims as text: `Email: <sub>`, a new line, `Company: <company>`.
    pub fn describe(&self) -> (s: String)
        ensures
            s@ == "Email: "@ + self.sub@ + "\nCompany: "@ + self.company@,
    {
        let mut s = "Email: ".to_owned();
        s.append(self.sub.as_str());
        s.append("\nCompany: ");
        s.append(self.company.as_str());
        s
    }
}

/// The page text of a login attempt: `Ok` when the form's anti-forgery
/// token checked out, `Token is invalid` when it did not.
pub fn login_message(token_verified: bool) -> (r: Result<String>)
    ensures
        r matches Ok(s) && s@ == (if token_verified {
            "Ok"@
        } else {
            "Token is invalid"@
        }),
{
    if token_verified {
        Ok("Ok".to_owned())
    } else {
        Ok("Token is invalid".to_owned())
    }
}

/// A byte that a header value may hold and still read as text: visible
/// ASCII or a tab.
pub open spec fn is_visible_header_byte(b: u8) -> bool {
    (32 <= b && b < 127) || b == 9
}

/// The bytes of `Bearer ` (scheme and separating space).
pub open spec fn bearer_prefix() -> Seq<u8> {
    seq![66u8, 101u8, 97u8, 114u8, 101u8, 114u8, 32u8]
}

/// The token of an `Authorization` header value in the bearer scheme: the
/// value must start with `Bearer ` and hold only visible ASCII or tabs; the
/// token is what follows the space (possibly nothing).
pub open spec fn bearer_token_of(value: Seq<u8>) -> Option<Seq<char>> {
    if value.len() >= 7 && value.take(7) == bearer_prefix() && forall|i: int|
        0 <= i < value.len() ==> is_visible_header_byte(#[trigger] value[i]) {
        Some(value.skip(7).map_values(|b: u8| b as char))
    } else {
        None
    }
}

/// Reads the bearer token of an `Authorization` header value with the
/// headers crate: `HeaderValue::from_bytes` (which refuses control bytes
/// but tab, and DEL), then `Authorization::<Bearer>::decode` (which asks for
/// the `Bearer` scheme followed by a space, and a value that `to_str`
/// accepts: visible ASCII or tabs), then `token()` (what follows `Bearer `).
#[verifier::external_body]
fn decode_bearer(value: &[u8]) -> (token: Option<String>)
    ensures
        token is Some <==> bearer_token_of(value@) is Some,
        token matches Some(t) ==> t@ == bearer_token_of(value@)->0,
{
    let header = headers::HeaderValue::from_bytes(value).ok()?;
    let mut values = std::iter::once(&header);
    let auth = headers::Authorization::<headers::authorization::Bearer>::decode(&mut values).ok()?;
    Some(auth.token().to_string())
}

/// The bearer token of a request, from the first value of its
/// `Authorization` header: a request without one, or with one that is not
/// a bearer token, is `InvalidToken`.
pub fn bearer_token(authorization: Option<&[u8]>) -> (r: Result<String>)
    ensures
        authorization is None ==> r matches Err(Error::InvalidToken),
        authorization matches Some(v) ==> match bearer_token_of(v@) {
            Some(t) => (r matches Ok(s) && s@ == t),
            None => r matches Err(Error::InvalidToken),
        },
{
    match authorization {
        None => Err(Error::InvalidToken),
        Some(v) => match decode_bearer(v) {
            Some(t) => Ok(t),
            None => Err(Error::InvalidToken),
        },
    }
}

/// The access token that jsonwebtoken makes of the claims `sub`, `company`,
/// `exp` (a JSON object with these members, in this order) under the default
/// header (HS256, type JWT), signed with HMAC-SHA256 keyed by `secret`.
pub uninterp spec fn hs256_token(sub: Seq<char>, company: Seq<char>, exp: nat, secret: Seq<u8>) -> Seq<char>;

/// The claims (`sub`, `company`, `exp`) that an access token carries when
/// jsonwebtoken accepts it under `secret` and the default validation, leaving
/// out the check of `exp` against the clock: the header names HS256, the
/// HMAC-SHA256 signature checks out under `secret`, and the payload holds a
/// string `sub`, a string `company` and an integer `exp` that fits a `usize`
/// (a member that the payload repeats counts with its last value).
/// `None` when any of these fails.
pub uninterp spec fn hs256_claims(token: Seq<char>, secret: Seq<u8>) -> Option<(Seq<char>, Seq<char>, nat)>;

/// Text that a header value can carry: visible ASCII or tabs.
pub open spec fn is_header_text(s: Seq<char>) -> bool {
    forall|i: int| 0 <= i < s.len() ==> ((32 <= #[trigger] (s[i] as int) && (s[i] as int) < 127)
        || s[i] == '\t')
}

/// The bytes of an ASCII text.
pub open spec fn ascii_bytes(s: Seq<char>) -> Seq<u8> {
    s.map_values(|c: char| c as u8)
}

/// Signs claims with `jsonwebtoken::encode` (default header, HS256) under
/// an HMAC key made from `secret` (`EncodingKey::from_secret`). The claims go
/// in as a JSON object with members `sub`, `company`, `exp`, in that order.
/// With an HMAC key and HS256 the call cannot fail. Its token is base64url
/// text with dots, and `jsonwebtoken::decode` under the same secret reads the
/// same claims back.
#[verifier::external_body]
fn sign_claims(claims: &Claims, secret: &[u8]) -> (token: Option<String>)
    ensures
        token is Some,
        token.unwrap()@ == hs256_token(claims.sub@, claims.company@, claims.exp as nat, secret@),
        is_header_text(token.unwrap()@),
        hs256_claims(token.unwrap()@, secret@) == Some((claims.sub@, claims.company@, claims.exp as nat)),
{
    let mut map = serde_json::Map::new();
    map.insert("sub".to_string(), serde_json::Value::from(claims.sub.as_str()));
    map.insert("company".to_string(), serde_json::Value::from(claims.company.as_str()));
    map.insert("exp".to_string(), serde_json::Value::from(claims.exp));
    let key = jsonwebtoken::EncodingKey::from_secret(secret);
    jsonwebtoken::encode(&jsonwebtoken::Header::default(), &map, &key).ok()
}

/// Reads an access token with `jsonwebtoken::decode` under an HMAC key made
/// from `secret` (`DecodingKey::from_secret`) and the default validation
/// without its clock check (`validate_exp` off; `exp` must still be there),
/// and reads the clock as jsonwebtoken does (`get_current_timestamp`, seconds
/// since 1970). The claims come back exactly when the token carries them
/// under `secret`; nothing is claimed of the clock reading.
#[verifier::external_body]
fn check_token(token: &str, secret: &[u8]) -> (r: (Option<Claims>, u64))
    ensures
        r.0 is Some <==> hs256_claims(token@, secret@) is Some,
        r.0 matches Some(c) ==> hs256_claims(token@, secret@) == Some((c.sub@, c.company@, c.exp as nat)),
{
    let key = jsonwebtoken::DecodingKey::from_secret(secret);
    let mut validation = jsonwebtoken::Validation::default();
    validation.validate_exp = false;
    let now = jsonwebtoken::get_current_timestamp();
    let data = jsonwebtoken::decode::<serde_json::Map<String, serde_json::Value>>(token, &key, &validation).ok();
    let claims = data.and_then(|d| {
        let sub = d.claims.get("sub")?.as_str()?.to_string();
        let company = d.claims.get("company")?.as_str()?.to_string();
        let exp = usize::try_from(d.claims.get("exp")?.as_u64()?).ok()?;
        Some(Claims { sub, company, exp })
    });
    (claims, now)
}

/// The claims as a value: subject, company, expiry.
pub open spec fn claims_value(c: Claims) -> (Seq<char>, Seq<char>, nat) {
    (c.sub@, c.company@, c.exp as nat)
}

/// The value of claims that may be missing.
pub open spec fn claims_option(o: Option<Claims>) -> Option<(Seq<char>, Seq<char>, nat)> {
    match o {
        Some(c) => Some(claims_value(c)),
        None => None,
    }
}

/// The value of the claims of an accepted request, `None` for a refused one.
pub open spec fn claims_result(r: Result<Claims>) -> Option<(Seq<char>, Seq<char>, nat)> {
    match r {
        Ok(c) => Some(claims_value(c)),
        Err(_) => None,
    }
}

/// The earliest expiry that the default validation still accepts at clock
/// reading `now`: `now - 60` (a leeway of 60 s) in `u64` arithmetic, which
/// wraps round below 60.
pub open spec fn expiry_limit(now: u64) -> int {
    if now >= 60 {
        now - 60
    } else {
        now + 18446744073709551556
    }
}

/// What the check at clock reading `now` makes of the claims a token
/// carries: claims whose expiry is before the limit are refused as expired,
/// others are accepted as they are.
pub open spec fn accepted_claims(carried: Option<(Seq<char>, Seq<char>, nat)>, now: u64) -> Option<(Seq<char>, Seq<char>, nat)> {
    match carried {
        Some(x) => if x.2 < expiry_limit(now) {
            None
        } else {
            Some(x)
        },
        None => None,
    }
}

/// Applies the expiry rule at clock reading `now` to the claims a token
/// carries: claims expired more than 60 s before `now` are refused.
pub fn accept_claims(carried: Option<Claims>, now: u64) -> (r: Option<Claims>)
    ensures
        claims_option(r) == accepted_claims(claims_option(carried), now),
        r matches Some(c) ==> (carried matches Some(d) && claims_value(c) == claims_value(d)),
{
    match carried {
        Some(c) => {
            let limit: u64 = if now >= 60 {
                now - 60
            } else {
                now + 18446744073709551556
            };
            let exp: u64 = c.exp as u64;
            if exp < limit {
                None
            } else {
                Some(c)
            }
        },
        None => None,
    }
}

impl Keys {
    /// Signs claims into an access token under the secret (HS256, default
    /// header). Signing with an HMAC key cannot fail; the token is header
    /// text, and checking it under the same secret reads the claims back.
    pub fn sign(&self, claims: &Claims) -> (token: Option<String>)
        ensures
            token matches Some(t) && {
                &&& t@ == hs256_token(claims.sub@, claims.company@, claims.exp as nat, self.secret@)
                &&& is_header_text(t@)
                &&& hs256_claims(t@, self.secret@) == Some(
                    (claims.sub@, claims.company@, claims.exp as nat),
                )
            },
    {
        sign_claims(claims, self.secret.as_slice())
    }

    /// Checks an access token under the secret and reads its claims. Besides
    /// the signature, the check compares `exp` with the clock, so a token that
    /// carries claims may still be refused; claims come back only when the
    /// token carries exactly those claims under the secret.
    pub fn check(&self, token: &str) -> (claims: Option<Claims>)
        ensures
            claims matches Some(c) ==> hs256_claims(token@, self.secret@) == Some(
                (c.sub@, c.company@, c.exp as nat),
            ),
            hs256_claims(token@, self.secret@) is None ==> claims is None,
            exists|now: u64|
                #[trigger] accepted_claims(hs256_claims(token@, self.secret@), now) == claims_option(
                    claims,
                ),
    {
        let (carried, now) = check_token(token, self.secret.as_slice());
        let claims = accept_claims(carried, now);
        assert(claims_option(carried) == hs256_claims(token@, self.secret@));
        assert(accepted_claims(hs256_claims(token@, self.secret@), now) == claims_option(claims));
        claims
    }
}

/// Answers an authorization request: checks the credentials as
/// `authorize_claims` does and, for the known client, signs the issued claims
/// with the service's secret and hands the token out as a bearer token.
pub fn authorize(payload: &AuthPayload, keys: &Keys) -> (r: Result<AuthBody>)
    ensures
        (payload.client_id@.len() == 0 || payload.client_secret@.len() == 0) ==> r matches Err(
            Error::MissingCredentials,
        ),
        (payload.client_id@.len() != 0 && payload.client_secret@.len() != 0 && !known_client(
            payload.client_id@,
            payload.client_secret@,
        )) ==> r matches Err(Error::WrongCredentials),
        known_client(payload.client_id@, payload.client_secret@) ==> (r matches Ok(b) && {
            &&& b.token_type@ == "Bearer"@
            &&& b.access_token@ == hs256_token(issued_sub(), issued_company(), issued_exp() as nat, keys.secret@)
            &&& is_header_text(b.access_token@)
            &&& hs256_claims(b.access_token@, keys.secret@) == Some(
                (issued_sub(), issued_company(), issued_exp() as nat),
            )
        }),
{
    let claims = authorize_claims(payload)?;
    let token = keys.sign(&claims);
    authorize_reply(token)
}

/// The claims of a request: the bearer token of its `Authorization` header
/// value, checked under the service's secret. A request without a bearer
/// token, or whose token does not check out, is `InvalidToken`; accepted
/// claims are those that the token carries under the secret.
pub fn claims_of_request(authorization: Option<&[u8]>, keys: &Keys) -> (r: Result<Claims>)
    ensures
        r is Err ==> r matches Err(Error::InvalidToken),
        authorization is None ==> r is Err,
        (authorization matches Some(v) && bearer_token_of(v@) is None) ==> r is Err,
        (authorization matches Some(v) && bearer_token_of(v@) matches Some(t) && hs256_claims(
            t,
            keys.secret@,
        ) is None) ==> r is Err,
        r matches Ok(c) ==> (authorization matches Some(v) && bearer_token_of(v@) matches Some(t)
            && hs256_claims(t, keys.secret@) == Some((c.sub@, c.company@, c.exp as nat))),
        authorization matches Some(v) ==> (bearer_token_of(v@) is Some ==> exists|now: u64|
            #[trigger] accepted_claims(hs256_claims(bearer_token_of(v@)->0, keys.secret@), now)
                == claims_result(r)),
{
    let token = bearer_token(authorization)?;
    let checked = keys.check(token.as_str());
    let r = match checked {
        Some(c) => Ok(c),
        None => Err(Error::InvalidToken),
    };
    proof {
        let now = choose|now: u64|
            #[trigger] accepted_claims(hs256_claims(token@, keys.secret@), now) == claims_option(checked);
        assert(accepted_claims(hs256_claims(token@, keys.secret@), now) == claims_result(r));
    }
    r
}

/// A token handed out by `authorize_reply` is read back by `bearer_token`:
/// the header value `<token_type> <access_token>` that a client sends with
/// the reply's token type (`Bearer`) gives back the access token, provided
/// the token is header text.
pub proof fn law_issued_token_reads_back(token_type: Seq<char>, token: Seq<char>)
    requires
        token_type == "Bearer"@,
        is_header_text(token),
    ensures
        bearer_token_of(ascii_bytes(token_type + " "@ + token)) == Some(token),
{
    reveal_strlit("Bearer");
    reveal_strlit(" ");
    let text = token_type + " "@ + token;
    let v = ascii_bytes(text);
    assert(v.take(7) =~= bearer_prefix());
    assert forall|i: int| 0 <= i < v.len() implies is_visible_header_byte(#[trigger] v[i]) by {
        if i >= 7 {
            assert(text[i] == token[i - 7]);
        }
    }
    assert(v.skip(7).map_values(|b: u8| b as char) =~= token) by {
        assert forall|i: int| 0 <= i < token.len() implies v.skip(7).map_values(|b: u8| b as char)[i]
            == token[i] by {
            assert(text[i + 7] == token[i]);
        }
    }
}

/// A token issued by `authorize` carries the issued claims back: when the
/// client sends the reply's token type and token in its `Authorization`
/// header, the token that `claims_of_request` reads is the issued one, and
/// the only claims it can accept from it are the issued claims.
pub proof fn law_issued_token_gives_issued_claims(
    token_type: Seq<char>,
    token: Seq<char>,
    secret: Seq<u8>,
)
    requires
        token_type == "Bearer"@,
        is_header_text(token),
        hs256_claims(token, secret) == Some((issued_sub(), issued_company(), issued_exp() as nat)),
    ensures
        ({
            let v = ascii_bytes(token_type + " "@ + token);
            &&& bearer_token_of(v) == Some(token)
            &&& forall|sub: Seq<char>, company: Seq<char>, exp: nat|
                hs256_claims(#[trigger] bearer_token_of(v)->0, secret) == Some((sub, company, exp))
                    ==> sub == issued_sub() && company == issued_company() && exp == issued_exp() as nat
        }),
{
    law_issued_token_reads_back(token_type, token);
}

/// The expiry rule: at clock reading `now`, a token that carries claims is
/// accepted with exactly those claims when their expiry is at least
/// `now - 60`, and refused when it is earlier. With `Keys::sign`, whose token
/// carries the claims signed, this gives the round trip: checking a signed
/// token under the same secret before it expires gives the signed claims back.
pub proof fn law_signed_token_accepted_until_expiry(
    token: Seq<char>,
    secret: Seq<u8>,
    claims: (Seq<char>, Seq<char>, nat),
    now: u64,
)
    requires
        hs256_claims(token, secret) == Some(claims),
    ensures
        claims.2 >= expiry_limit(now) ==> accepted_claims(hs256_claims(token, secret), now) == Some(
            claims,
        ),
        claims.2 < expiry_limit(now) ==> accepted_claims(hs256_claims(token, secret), now) == None::<
            (Seq<char>, Seq<char>, nat),
        >,
{
}

/// Acceptance is monotone in time: claims accepted at one clock reading
/// (at or after 60 s past 1970) are accepted at every earlier such reading.
pub proof fn law_accepted_earlier(carried: Option<(Seq<char>, Seq<char>, nat)>, now: u64, earlier: u64)
    requires
        60 <= earlier <= now,
        accepted_claims(carried, now) is Some,
    ensures
        accepted_claims(carried, earlier) == accepted_claims(carried, now),
{
}

/// A token that carries claims expiring at the end of `u64` time is never
/// refused as expired: whatever the clock reads, the check accepts it with
/// its claims, so a check that refuses it is not the expiry rule.
pub proof fn law_unexpiring_token_accepted(carried: (Seq<char>, Seq<char>, nat), now: u64)
    requires
        carried.2 >= 18446744073709551615,
    ensures
        accepted_claims(Some(carried), now) == Some(carried),
{
}

} // verus!
