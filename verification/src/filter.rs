//! Character admission: a candidate is matched against deny and allow
//! pattern lists. Each pattern is tried as a regular expression; one that
//! does not compile falls back to exact string equality. Deny takes
//! precedence; an empty allow list means no restriction beyond deny.

use vstd::prelude::*;

verus! {

/// Whether `regex_lite::Regex::new` accepts this pattern. The result
/// depends on the pattern alone.
pub uninterp spec fn regex_compiles(pattern: Seq<char>) -> bool;

/// Whether the regular expression compiled from `pattern` matches anywhere
/// in `text`. The result depends on the pattern and the text alone.
pub uninterp spec fn regex_matches(pattern: Seq<char>, text: Seq<char>) -> bool;

/// Relies on `regex_lite::Regex::new`, which accepts or refuses a pattern
/// deterministically, and on `regex_lite::Regex::is_match`, whose result is
/// a function of the compiled pattern and the haystack: `Some` holds the
/// match verdict when the pattern compiles, `None` says it does not.
#[verifier::external_body]
fn regex_match_attempt(pattern: &String, text: &String) -> (r: Option<bool>)
    ensures
        r is Some <==> regex_compiles(pattern@),
        r is Some ==> r->0 == regex_matches(pattern@, text@),
{
    match regex_lite::Regex::new(pattern.as_str()) {
        Ok(re) => Some(re.is_match(text.as_str())),
        Err(_) => None,
    }
}

/// One pattern against one candidate: the regex verdict when the pattern
/// compiles, exact string equality otherwise.
pub open spec fn spec_pattern_matches(pattern: Seq<char>, text: Seq<char>) -> bool {
    if regex_compiles(pattern) {
        regex_matches(pattern, text)
    } else {
        pattern == text
    }
}

/// Whether any pattern of the list matches the candidate.
pub open spec fn spec_any_match(patterns: Seq<Seq<char>>, text: Seq<char>) -> bool {
    exists|i: int| 0 <= i < patterns.len() && spec_pattern_matches(patterns[i], text)
}

/// The views of a list of pattern strings.
pub open spec fn pattern_views(patterns: Seq<String>) -> Seq<Seq<char>> {
    patterns.map_values(|p: String| p@)
}

/// The admission rule on one candidate: rejected when a deny pattern
/// matches, or when the allow list is non-empty and none of it matches.
pub open spec fn spec_is_ignored(
    deny: Seq<Seq<char>>,
    allow: Seq<Seq<char>>,
    text: Seq<char>,
) -> bool {
    spec_any_match(deny, text) || (allow.len() > 0 && !spec_any_match(allow, text))
}

fn pattern_matches(pattern: &String, text: &String) -> (r: bool)
    ensures
        r == spec_pattern_matches(pattern@, text@),
{
    match regex_match_attempt(pattern, text) {
        Some(b) => b,
        None => *pattern == *text,
    }
}

fn any_match(patterns: &Vec<String>, text: &String) -> (r: bool)
    ensures
        r == spec_any_match(pattern_views(patterns@), text@),
{
    let mut i: usize = 0;
    while i < patterns.len()
        invariant
            i <= patterns@.len(),
            forall|k: int|
                0 <= k < i ==> !spec_pattern_matches(pattern_views(patterns@)[k], text@),
        decreases patterns@.len() - i,
    {
        if pattern_matches(&patterns[i], text) {
            proof {
                assert(spec_pattern_matches(pattern_views(patterns@)[i as int], text@));
            }
            return true;
        }
        i = i + 1;
    }
    false
}

/// Whether the candidate is kept out of the text by the deny and allow
/// pattern lists.
pub fn is_ignored(deny: &Vec<String>, allow: &Vec<String>, text: &String) -> (r: bool)
    ensures
        r == spec_is_ignored(pattern_views(deny@), pattern_views(allow@), text@),
{
    if any_match(deny, text) {
        return true;
    }
    if allow.len() > 0 {
        return !any_match(allow, text);
    }
    false
}

/// Whether the candidate may be inserted: the admission predicate of the
/// filter, the negation of `is_ignored`.
pub fn is_admitted(deny: &Vec<String>, allow: &Vec<String>, text: &String) -> (r: bool)
    ensures
        r == !spec_is_ignored(pattern_views(deny@), pattern_views(allow@), text@),
{
    !is_ignored(deny, allow, text)
}

} // verus!
