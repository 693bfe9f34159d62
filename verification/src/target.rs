//! The target of the connection as the user gives it, and the URL that is made of it.
//!
//! A target that does not name a scheme gets `ws://` in front. What then does not
//! start with `ws` is refused.

use vstd::prelude::*;
use vstd::string::*;
use crate::text::{chars_of, join};

verus! {

/// Why a target gives no URL.
#[derive(Clone, Copy, Debug, PartialEq, Eq, Structural)]
pub enum TargetError {
    /// The target names a scheme, and it does not start with `ws`.
    UnsupportedScheme,
    /// The pattern that finds the scheme was not accepted by the matcher.
    NoMatcher,
}

/// What the `regex` crate makes of `pattern` and `text`: `None` where `Regex::new`
/// refuses the pattern, else whether the pattern matches somewhere in `text`.
pub uninterp spec fn regex_match(pattern: Seq<char>, text: Seq<char>) -> Option<bool>;

/// `Regex::new` of the `regex` crate, followed by `Regex::is_match` on the regex that
/// it returned. Both depend on `pattern` and `text` alone; the contract gives the
/// outcome the name `regex_match(pattern, text)` and claims nothing else.
#[verifier::external_body]
fn regex_is_match(pattern: &str, text: &str) -> (r: Option<bool>)
    ensures
        r == regex_match(pattern@, text@),
{
    match regex::Regex::new(pattern) {
        Ok(re) => Some(re.is_match(text)),
        Err(_) => None,
    }
}

/// The pattern of a target that names a scheme: word characters, then `://`, then
/// anything on one line.
pub open spec fn scheme_pattern() -> Seq<char> {
    "^\\w+://.*$"@
}

/// Whether `s` starts with `ws`.
pub open spec fn starts_with_ws(s: Seq<char>) -> bool {
    s.len() >= 2 && s[0] == 'w' && s[1] == 's'
}

/// The URL for the target `raw`, where `matched` says whether `raw` names a scheme.
pub open spec fn normalize_spec(matched: Option<bool>, raw: Seq<char>) -> Result<
    Seq<char>,
    TargetError,
> {
    match matched {
        None => Err(TargetError::NoMatcher),
        Some(true) => if starts_with_ws(raw) {
            Ok(raw)
        } else {
            Err(TargetError::UnsupportedScheme)
        },
        Some(false) => Ok("ws://"@ + raw),
    }
}

/// Whether `r` is the outcome `expected`.
pub open spec fn is_target(
    r: Result<String, TargetError>,
    expected: Result<Seq<char>, TargetError>,
) -> bool {
    match expected {
        Ok(url) => r matches Ok(text) && text@ == url,
        Err(error) => r matches Err(e) && e == error,
    }
}

/// The URL for the target `raw`, where `matched` says whether `raw` names a scheme,
/// or `None` where that could not be found out.
pub fn normalize_with(matched: Option<bool>, raw: &str) -> (r: Result<String, TargetError>)
    ensures
        is_target(r, normalize_spec(matched, raw@)),
{
    match matched {
        None => Err(TargetError::NoMatcher),
        Some(true) => {
            let v: Vec<char> = chars_of(raw);
            if v.len() >= 2 && v[0] == 'w' && v[1] == 's' {
                Ok(raw.to_owned())
            } else {
                Err(TargetError::UnsupportedScheme)
            }
        },
        Some(false) => Ok(join("ws://", raw)),
    }
}

/// The URL for the target `raw`: `raw` itself where it names a scheme that starts
/// with `ws`, and `ws://` followed by `raw` where it names none.
pub fn normalize_target(raw: &str) -> (r: Result<String, TargetError>)
    ensures
        is_target(r, normalize_spec(regex_match(scheme_pattern(), raw@), raw@)),
{
    normalize_with(regex_is_match("^\\w+://.*$", raw), raw)
}

/// A target that names no scheme is never refused, and its URL starts with `ws://`.
pub proof fn law_bare_target(raw: Seq<char>)
    ensures
        normalize_spec(Some(false), raw) == Ok::<Seq<char>, TargetError>("ws://"@ + raw),
        starts_with_ws("ws://"@ + raw),
{
    reveal_strlit("ws://");
}

/// Every URL that comes out starts with `ws`.
pub proof fn law_target_starts_with_ws(matched: Option<bool>, raw: Seq<char>)
    ensures
        normalize_spec(matched, raw) matches Ok(url) ==> starts_with_ws(url),
{
    reveal_strlit("ws://");
}

impl TargetError {
    /// The cause in words, for one line on the terminal.
    pub open spec fn describe_spec(self) -> Seq<char> {
        match self {
            TargetError::UnsupportedScheme => "The URL must start with ws:// or wss://"@,
            TargetError::NoMatcher => "The URL could not be examined"@,
        }
    }

    /// The cause in words, for one line on the terminal.
    pub fn describe(self) -> (text: String)
        ensures
            text@ == self.describe_spec(),
    {
        match self {
            TargetError::UnsupportedScheme => String::from_str(
                "The URL must start with ws:// or wss://",
            ),
            TargetError::NoMatcher => String::from_str("The URL could not be examined"),
        }
    }
}

} // verus!
