//! Banner extraction: what a probe's pattern finds in a response.
//!
//! Patterns are compiled and run by the `regex` crate. What that crate
//! computes is named here, not restated; the rest is proved from the names.

use crate::text::{concat, texts};
use vstd::prelude::*;
use vstd::string::*;

verus! {

/// `regex::Regex`, a compiled expression; nothing is seen of its inside.
#[verifier::external_type_specification]
#[verifier::external_body]
pub struct ExRegex(regex::Regex);

/// `regex::Error`, the reason why a pattern did not compile; it is never
/// looked into.
#[verifier::external_type_specification]
#[verifier::external_body]
pub struct ExRegexError(regex::Error);

/// Whether `regex::Regex::new` accepts `pattern`: it is well formed and
/// compiles within the crate's default size limit.
pub uninterp spec fn pattern_compiles(pattern: Seq<char>) -> bool;

/// The pattern that a compiled expression was made from, as
/// `regex::Regex::as_str` gives it back.
pub uninterp spec fn pattern_of(re: regex::Regex) -> Seq<char>;

/// The successive non-overlapping matches of `pattern` in `text`, from left
/// to right, as `regex::Regex::captures_iter` yields them (each match whole).
pub uninterp spec fn pattern_matches(pattern: Seq<char>, text: Seq<char>) -> Seq<Seq<char>>;

/// `bytes` read as UTF-8 the way `String::from_utf8_lossy` reads them, a
/// replacement character standing for what is no UTF-8.
pub uninterp spec fn utf8_lossy(bytes: Seq<u8>) -> Seq<char>;

/// Calls `regex::Regex::new`. Trusted: it succeeds on the patterns that
/// `pattern_compiles` names, and the expression it returns remembers the
/// pattern it was made from.
#[verifier::external_body]
fn compile(pattern: &str) -> (r: Result<regex::Regex, regex::Error>)
    ensures
        r is Ok <==> pattern_compiles(pattern@),
        r matches Ok(re) ==> pattern_of(re) == pattern@,
{
    regex::Regex::new(pattern)
}

/// Calls `regex::Regex::captures_iter` on an expression that `compile`
/// made, and copies the whole match out of each item. Trusted: these are
/// the matches that `pattern_matches` names for the expression's pattern
/// and `text`.
#[verifier::external_body]
fn find_all(re: &regex::Regex, text: &str) -> (found: Vec<String>)
    ensures
        texts(found@) == pattern_matches(pattern_of(*re), text@),
{
    re.captures_iter(text).map(|found| found[0].to_string()).collect()
}

/// Calls `String::from_utf8_lossy`. Trusted: the text is what `utf8_lossy`
/// names for the bytes.
#[verifier::external_body]
fn decode_lossy(bytes: &Vec<u8>) -> (text: String)
    ensures
        text@ == utf8_lossy(bytes@),
{
    String::from_utf8_lossy(bytes).into_owned()
}

/// The banner that `pattern` draws from a response: every match in the
/// decoded response, joined in order with nothing between. A pattern that
/// does not compile draws none.
pub open spec fn banner_of(pattern: Seq<char>, response: Seq<u8>) -> Option<Seq<char>> {
    if pattern_compiles(pattern) {
        Some(concat(pattern_matches(pattern, utf8_lossy(response))))
    } else {
        None
    }
}

/// Tells whether `pattern` is a regular expression that compiles.
pub fn is_valid_pattern(pattern: &str) -> (ok: bool)
    ensures
        ok == pattern_compiles(pattern@),
{
    compile(pattern).is_ok()
}

/// Joins matches end to end.
pub fn join_matches(found: &Vec<String>) -> (banner: String)
    ensures
        banner@ == concat(texts(found@)),
{
    let mut banner = String::new();
    let mut i: usize = 0;
    while i < found.len()
        invariant
            i <= found@.len(),
            banner@ == concat(texts(found@).take(i as int)),
        decreases found@.len() - i,
    {
        proof {
            let whole = texts(found@).take(i + 1);
            assert(whole.drop_last() =~= texts(found@).take(i as int));
            assert(whole.last() == found@[i as int]@);
        }
        banner.append(found[i].as_str());
        i = i + 1;
    }
    assert(texts(found@).take(found@.len() as int) =~= texts(found@));
    banner
}

/// Extracts the banner that `pattern` draws from the bytes of a response.
pub fn extract_banner(pattern: &str, response: &Vec<u8>) -> (banner: Option<String>)
    ensures
        match banner_of(pattern@, response@) {
            Some(text) => banner matches Some(b) && b@ == text,
            None => banner is None,
        },
{
    match compile(pattern) {
        Ok(re) => {
            let text = decode_lossy(response);
            let found = find_all(&re, text.as_str());
            Some(join_matches(&found))
        },
        Err(_) => None,
    }
}

} // verus!
