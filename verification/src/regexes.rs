//! Regular expressions, by the `regex` crate.
//!
//! What a pattern matches (with Unicode `\d` and `\w`) takes the crate's syntax to
//! state, so each result the library reads is named here. The patterns themselves are
//! the library's and are passed in; a pattern that does not compile gives `None`.
use vstd::prelude::*;
use crate::text::opt_view;

verus! {

/// Whether `text` has a match of `pattern` (`Regex::is_match`); `None` where the
/// pattern does not compile.
pub uninterp spec fn regex_match(pattern: Seq<char>, text: Seq<char>) -> Option<bool>;

/// `text` with the first match of `pattern` replaced by the literal `replacement`
/// (`Regex::replace` with `NoExpand`); `None` where the pattern does not compile.
pub uninterp spec fn regex_replaced(pattern: Seq<char>, text: Seq<char>, replacement: Seq<char>) -> Option<
    Seq<char>,
>;

/// The capture groups `1..` of each successive non-overlapping match of `pattern` in
/// `text` (`Regex::captures_iter`), a group that took no part in a match being `None`;
/// `None` where the pattern does not compile.
pub uninterp spec fn regex_all_captures(pattern: Seq<char>, text: Seq<char>) -> Option<
    Seq<Seq<Option<Seq<char>>>>,
>;

/// The capture groups `1..` of the first match of `pattern` in `text`
/// (`Regex::captures`): `Some(None)` where there is no match, `None` where the
/// pattern does not compile.
pub uninterp spec fn regex_first_captures(pattern: Seq<char>, text: Seq<char>) -> Option<
    Option<Seq<Option<Seq<char>>>>,
>;

pub open spec fn groups_view(g: Seq<Option<String>>) -> Seq<Option<Seq<char>>> {
    Seq::new(g.len(), |i: int| opt_view(g[i]))
}

pub open spec fn matches_view(m: Seq<Vec<Option<String>>>) -> Seq<Seq<Option<Seq<char>>>> {
    Seq::new(m.len(), |i: int| groups_view(m[i]@))
}

/// Compiles `pattern` with `Regex::new` and calls `Regex::is_match`; the result is the
/// named [`regex_match`].
#[verifier::external_body]
pub(crate) fn regex_is_match(pattern: &str, text: &str) -> (r: Option<bool>)
    ensures
        r == regex_match(pattern@, text@),
{
    regex::Regex::new(pattern).ok().map(|re| re.is_match(text))
}

/// Compiles `pattern` with `Regex::new` and calls `Regex::replace` with a literal
/// replacement; the result is the named [`regex_replaced`].
#[verifier::external_body]
pub(crate) fn regex_replace_first(pattern: &str, text: &str, replacement: &str) -> (r: Option<String>)
    ensures
        opt_view(r) == regex_replaced(pattern@, text@, replacement@),
{
    regex::Regex::new(pattern).ok().map(|re| re.replace(text, regex::NoExpand(replacement)).into_owned())
}

/// Compiles `pattern` with `Regex::new` and calls `Regex::captures_iter`; the result
/// is the named [`regex_all_captures`].
#[verifier::external_body]
pub(crate) fn regex_captures_all(pattern: &str, text: &str) -> (r: Option<Vec<Vec<Option<String>>>>)
    ensures
        match r {
            Some(m) => regex_all_captures(pattern@, text@) == Some(matches_view(m@)),
            None => regex_all_captures(pattern@, text@) is None,
        },
{
    let re = regex::Regex::new(pattern).ok()?;
    Some(re.captures_iter(text).map(|c| c.iter().skip(1).map(|g| g.map(|m| m.as_str().to_string())).collect()).collect())
}


/// Compiles `pattern` with `Regex::new` and calls `Regex::captures`; the result is the
/// named [`regex_first_captures`].
#[verifier::external_body]
pub(crate) fn regex_captures_first(pattern: &str, text: &str) -> (r: Option<Option<Vec<Option<String>>>>)
    ensures
        match r {
            Some(Some(g)) => regex_first_captures(pattern@, text@) == Some(Some(groups_view(g@))),
            Some(None) => regex_first_captures(pattern@, text@) == Some(None::<Seq<Option<Seq<char>>>>),
            None => regex_first_captures(pattern@, text@) is None,
        },
{
    let re = regex::Regex::new(pattern).ok()?;
    Some(re.captures(text).map(|c| c.iter().skip(1).map(|g| g.map(|m| m.as_str().to_string())).collect()))
}

} // verus!
