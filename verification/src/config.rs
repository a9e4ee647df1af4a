use vstd::prelude::*;

verus! {

/// The mode the server runs in.
#[derive(PartialEq, Eq, Structural, Debug, Clone, Copy)]
pub enum AppEnv {
    Dev,
    Prod,
}

/// Name of a mode, as it is written in the `APP_ENV` setting and in logs.
pub open spec fn env_name(env: AppEnv) -> Seq<char> {
    match env {
        AppEnv::Dev => "dev"@,
        AppEnv::Prod => "prod"@,
    }
}

impl AppEnv {
    /// The mode that the `APP_ENV` setting selects: `prod` selects
    /// production; anything else, or no setting, selects development.
    pub fn from_setting(value: Option<String>) -> (env: AppEnv)
        ensures
            env == (if value matches Some(v) && v@ == "prod"@ {
                AppEnv::Prod
            } else {
                AppEnv::Dev
            }),
    {
        match value {
            Some(v) => {
                if v == "prod".to_owned() {
                    AppEnv::Prod
                } else {
                    AppEnv::Dev
                }
            },
            None => AppEnv::Dev,
        }
    }

    /// The name of the mode: `dev` or `prod`.
    pub fn as_str(&self) -> (s: &'static str)
        ensures
            s@ == env_name(*self),
    {
        match self {
            AppEnv::Dev => "dev",
            AppEnv::Prod => "prod",
        }
    }
}

/// Setting a mode's name selects that mode again.
pub proof fn law_env_name_selects_env(env: AppEnv)
    ensures
        (if env_name(env) == "prod"@ {
            AppEnv::Prod
        } else {
            AppEnv::Dev
        }) == env,
{
    reveal_strlit("dev");
    reveal_strlit("prod");
    if env == AppEnv::Dev {
        assert(env_name(env).len() != "prod"@.len());
    }
}

/// A decimal digit.
pub open spec fn is_decimal_digit(c: char) -> bool {
    '0' <= c && c <= '9'
}

/// The number that a run of decimal digits writes.
pub open spec fn decimal_value(digits: Seq<char>) -> nat
    decreases digits.len(),
{
    if digits.len() == 0 {
        0
    } else {
        decimal_value(digits.drop_last()) * 10 + ((digits.last() as int) - ('0' as int)) as nat
    }
}

/// The digits of an unsigned number: the text without a leading `+`.
pub open spec fn unsigned_digits(text: Seq<char>) -> Seq<char> {
    if text.len() > 0 && text[0] == '+' {
        text.drop_first()
    } else {
        text
    }
}

/// What `u16::from_str` reads from `text`: an optional `+` and at least one
/// decimal digit, nothing else (no sign `-`, no spaces), of value at most
/// `u16::MAX`.
pub open spec fn parsed_u16(text: Seq<char>) -> Option<u16> {
    let digits = unsigned_digits(text);
    if digits.len() > 0 && (forall|i: int| 0 <= i < digits.len() ==> is_decimal_digit(#[trigger] digits[i]))
        && decimal_value(digits) <= u16::MAX {
        Some(decimal_value(digits) as u16)
    } else {
        None
    }
}

/// Reads a port number with `str::parse::<u16>` (std's `u16::from_str`,
/// documented as an optional `+` followed by decimal digits, erring on
/// anything else and on overflow).
#[verifier::external_body]
fn parse_u16(text: &str) -> (r: Option<u16>)
    ensures
        r == parsed_u16(text@),
{
    text.parse::<u16>().ok()
}

/// The port that the `PORT` setting selects: 8080 when there is no setting,
/// otherwise the setting read as a `u16`; `None` when it does not read as one.
pub fn server_port(value: Option<String>) -> (port: Option<u16>)
    ensures
        value is None ==> port == Some(8080u16),
        value matches Some(v) ==> port == parsed_u16(v@),
{
    match value {
        None => Some(8080),
        Some(v) => parse_u16(v.as_str()),
    }
}

} // verus!
