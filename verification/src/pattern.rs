//! Regular-expression matching through the `regex` crate.
use vstd::prelude::*;

verus! {

/// Whether `regex::Regex::new(pattern)` compiles and the compiled expression
/// finds a match somewhere in `text`.
pub uninterp spec fn regex_finds(pattern: Seq<char>, text: Seq<char>) -> bool;

/// Compiles `pattern` with `regex::Regex::new` and asks `Regex::is_match`
/// whether it matches somewhere in `content`; a pattern that does not compile
/// matches nothing. The contract claims only that the answer is the same for
/// the same pattern and text; what the regex language means is not stated.
#[verifier::external_body]
pub(crate) fn regex_match(pattern: &str, content: &str) -> (r: bool)
    ensures
        r == regex_finds(pattern@, content@),
{
    regex::Regex::new(pattern).map(|re| re.is_match(content)).unwrap_or(false)
}

/// The first capture group of each match of `pattern` in `text`, in the order
/// `regex::Regex::captures_iter` yields the matches; `None` where the group took
/// no part in a match. A pattern that does not compile gives no matches.
pub uninterp spec fn regex_first_groups(pattern: Seq<char>, text: Seq<char>) -> Seq<Option<Seq<char>>>;

/// The characters of an optional string.
pub open spec fn opt_chars(o: Option<String>) -> Option<Seq<char>> {
    match o {
        Some(s) => Some(s@),
        None => None,
    }
}

/// Compiles `pattern` with `regex::Regex::new` and collects, for each match that
/// `Regex::captures_iter` finds in `text`, the text of capture group 1. The
/// contract names the result; the regex language itself is not stated.
#[verifier::external_body]
pub(crate) fn regex_captures(pattern: &str, text: &str) -> (r: Vec<Option<String>>)
    ensures
        r@.map_values(|o: Option<String>| opt_chars(o)) == regex_first_groups(pattern@, text@),
{
    match regex::Regex::new(pattern) {
        Ok(re) => re.captures_iter(text).map(|c| c.get(1).map(|m| m.as_str().to_string())).collect(),
        Err(_) => Vec::new(),
    }
}

/// The text before the first match of `pattern` in `text`, if it matches.
pub uninterp spec fn regex_first_match_prefix(pattern: Seq<char>, text: Seq<char>) -> Option<Seq<char>>;

/// Compiles `pattern` with `regex::Regex::new`, finds its first match in `text`
/// with `Regex::find`, and returns the text before the match's start. The
/// contract names the result and states that it is a prefix of `text`; the
/// regex language is not stated.
#[verifier::external_body]
pub(crate) fn regex_find_prefix(pattern: &str, text: &str) -> (r: Option<String>)
    ensures
        match r {
            Some(p) => regex_first_match_prefix(pattern@, text@) == Some(p@) && p@.is_prefix_of(text@),
            None => regex_first_match_prefix(pattern@, text@) is None,
        },
{
    match regex::Regex::new(pattern) {
        Ok(re) => re.find(text).map(|m| text[..m.start()].to_string()),
        Err(_) => None,
    }
}

/// The text before each match of `pattern` in `text`, in order.
pub uninterp spec fn regex_match_prefixes(pattern: Seq<char>, text: Seq<char>) -> Seq<Seq<char>>;

/// Compiles `pattern` with `regex::Regex::new` and, for each match that
/// `Regex::find_iter` yields in `text`, returns the text before the match's
/// start. The contract names the result and states that each is a prefix of
/// `text`; the regex language is not stated.
#[verifier::external_body]
pub(crate) fn regex_find_prefixes(pattern: &str, text: &str) -> (r: Vec<String>)
    ensures
        crate::text::strs(r@) == regex_match_prefixes(pattern@, text@),
        forall|i: int| 0 <= i < r@.len() ==> (#[trigger] r@[i])@.is_prefix_of(text@),
{
    match regex::Regex::new(pattern) {
        Ok(re) => re.find_iter(text).map(|m| text[..m.start()].to_string()).collect(),
        Err(_) => Vec::new(),
    }
}

/// What `regex::Regex::replace_all` makes of `text` with every match of
/// `pattern` replaced by `rep`; `text` itself when the pattern does not
/// compile.
pub uninterp spec fn regex_replaced(pattern: Seq<char>, text: Seq<char>, rep: Seq<char>) -> Seq<char>;

/// Compiles `pattern` with `regex::Regex::new` and replaces every match in
/// `text` with `rep` through `Regex::replace_all`. The contract names the
/// result; the regex language and replacement syntax are not stated.
#[verifier::external_body]
pub(crate) fn regex_replace_all(pattern: &str, text: &str, rep: &str) -> (r: String)
    ensures
        r@ == regex_replaced(pattern@, text@, rep@),
{
    match regex::Regex::new(pattern) {
        Ok(re) => re.replace_all(text, rep).into_owned(),
        Err(_) => text.to_string(),
    }
}

} // verus!
