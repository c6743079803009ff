//! Calls into dependency crates, each with the contract that the crate's
//! documentation gives it.
use vstd::prelude::*;

verus! {

/// Text of capture group `group` of the leftmost match of the regular
/// expression `pattern` in `haystack`; `None` when the pattern does not
/// compile, nothing matches, or the group takes no part in the match.
pub uninterp spec fn regex_capture_of(pattern: Seq<char>, haystack: Seq<char>, group: nat) -> Option<Seq<char>>;

pub open spec fn opt_text(o: Option<String>) -> Option<Seq<char>> {
    match o {
        Some(s) => Some(s@),
        None => None,
    }
}

/// Relies on regex::Regex::new, Regex::captures and Captures::get: the text
/// of one capture group of the leftmost match, which depends on the pattern,
/// the haystack and the group index alone.
#[verifier::external_body]
pub(crate) fn regex_capture(pattern: &str, haystack: &str, group: usize) -> (r: Option<String>)
    ensures
        opt_text(r) == regex_capture_of(pattern@, haystack@, group as nat),
{
    let re = regex::Regex::new(pattern).ok()?;
    re.captures(haystack)?.get(group).map(|m| m.as_str().to_string())
}

pub open spec fn is_ascii_alphanumeric(c: char) -> bool {
    ('0' <= c <= '9') || ('a' <= c <= 'z') || ('A' <= c <= 'Z')
}

/// Relies on rand's `Alphanumeric.sample_string` over `thread_rng`: `len`
/// characters, each drawn from `A-Z`, `a-z` and `0-9`.
#[verifier::external_body]
pub(crate) fn random_alphanumeric(len: usize) -> (r: String)
    ensures
        r@.len() == len,
        forall|i: int| 0 <= i < len ==> is_ascii_alphanumeric(#[trigger] r@[i]),
{
    <rand::distributions::Alphanumeric as rand::distributions::DistString>::sample_string(
        &rand::distributions::Alphanumeric,
        &mut rand::thread_rng(),
        len,
    )
}

/// Relies on chrono's `Utc::now().timestamp_millis()`: the current time in
/// milliseconds since the Unix epoch. Nothing is promised of its value.
#[verifier::external_body]
pub(crate) fn now_millis() -> (r: i64) {
    chrono::Utc::now().timestamp_millis()
}

} // verus!
