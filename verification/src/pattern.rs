//! The calls into the `regex` crate. Verus does not read that crate: what a
//! search returns is named here, and the rest of the library reasons about the
//! names.

use vstd::prelude::*;

verus! {

/// Whether `c` is one of the characters that `regex` treats as syntax.
pub open spec fn is_meta_character(c: char) -> bool {
    c == '\\' || c == '.' || c == '+' || c == '*' || c == '?' || c == '(' || c == ')' || c == '|'
        || c == '[' || c == ']' || c == '{' || c == '}' || c == '^' || c == '$' || c == '#' || c
        == '&' || c == '-' || c == '~'
}

/// A text with a backslash put before each of its meta characters.
pub open spec fn escaped(s: Seq<char>) -> Seq<char>
    decreases s.len(),
{
    if s.len() == 0 {
        seq![]
    } else if is_meta_character(s.last()) {
        escaped(s.drop_last()).push('\\').push(s.last())
    } else {
        escaped(s.drop_last()).push(s.last())
    }
}

/// The groups of the leftmost match of a pattern in a text: group 0 is the
/// whole match, and a group that took no part in the match is `None`. The
/// result is `None` when the pattern does not compile or matches nowhere.
pub uninterp spec fn regex_groups(pattern: Seq<char>, haystack: Seq<char>) -> Option<
    Seq<Option<Seq<char>>>,
>;

/// A text with every match of a pattern replaced, or `None` when the pattern
/// does not compile.
pub uninterp spec fn regex_replaced(
    pattern: Seq<char>,
    haystack: Seq<char>,
    replacement: Seq<char>,
) -> Option<Seq<char>>;

/// What stands behind each match of a pattern in a text, for the
/// non-overlapping matches from left to right. Empty when the pattern does
/// not compile.
pub uninterp spec fn regex_tails(pattern: Seq<char>, haystack: Seq<char>) -> Seq<Seq<char>>;

/// Whether a pattern matches somewhere in a text. `None` when the pattern
/// does not compile.
pub uninterp spec fn regex_found(pattern: Seq<char>, haystack: Seq<char>) -> Option<bool>;

/// `regex::escape`: walks the text once and puts a backslash before each
/// character for which `regex_syntax::is_meta_character` holds, leaving all
/// others as they are.
#[verifier::external_body]
pub(crate) fn escape(text: &str) -> (r: String)
    ensures
        r@ == escaped(text@),
{
    regex::escape(text)
}

/// `Regex::new` followed by `Regex::captures`: compiles the pattern and
/// searches the text for its leftmost match. Nothing is claimed about which
/// groups come back beyond their name; a pattern that the crate refuses and
/// a text without a match both give `None`.
#[verifier::external_body]
pub(crate) fn captures(pattern: &str, haystack: &str) -> (r: Option<Vec<Option<String>>>)
    ensures
        r.deep_view() == regex_groups(pattern@, haystack@),
{
    let re = regex::Regex::new(pattern).ok()?;
    let caps = re.captures(haystack)?;
    Some(caps.iter().map(|g| g.map(|m| m.as_str().to_string())).collect())
}

/// `Regex::new` followed by `Regex::replace_all`: compiles the pattern and
/// replaces each of its non-overlapping matches in the text. Nothing is
/// claimed about the outcome beyond its name; a pattern that the crate
/// refuses gives `None`.
#[verifier::external_body]
pub(crate) fn replace_all(pattern: &str, haystack: &str, replacement: &str) -> (r: Option<String>)
    ensures
        r.deep_view() == regex_replaced(pattern@, haystack@, replacement@),
{
    let re = regex::Regex::new(pattern).ok()?;
    Some(re.replace_all(haystack, replacement).into_owned())
}

/// `Regex::new` followed by `Regex::find_iter`: compiles the pattern and
/// walks its successive non-overlapping matches in the text, giving for
/// each the text from the end of the match on. Nothing is claimed about the
/// matches beyond their name; a pattern that the crate refuses gives no
/// match.
#[verifier::external_body]
pub(crate) fn tails(pattern: &str, haystack: &str) -> (r: Vec<String>)
    ensures
        r.deep_view() == regex_tails(pattern@, haystack@),
{
    match regex::Regex::new(pattern) {
        Ok(re) => re.find_iter(haystack).map(|m| haystack[m.end()..].to_string()).collect(),
        Err(_) => Vec::new(),
    }
}

/// `Regex::new` followed by `Regex::is_match`: compiles the pattern and
/// says whether it matches somewhere in the text. Nothing is claimed about
/// the answer beyond its name; a pattern that the crate refuses gives
/// `None`.
#[verifier::external_body]
pub(crate) fn is_match(pattern: &str, haystack: &str) -> (r: Option<bool>)
    ensures
        r == regex_found(pattern@, haystack@),
{
    let re = regex::Regex::new(pattern).ok()?;
    Some(re.is_match(haystack))
}

} // verus!
