//! The one place where patterns are handed to the `regex` crate.
use vstd::prelude::*;

verus! {

/// The capture groups of one match: for every group of the pattern, in the order
/// of the opening parentheses and with the whole match first, the name of the
/// group where it has one and the text it captured where it took part.
pub type Groups = Vec<(Option<String>, Option<String>)>;

/// What a search of `text` with `pattern` gives. `None` where the pattern
/// does not compile. Else what the search finds: the groups of the leftmost
/// match, or `None` where the pattern matches nowhere in the text.
pub uninterp spec fn regex_captures(pattern: Seq<char>, text: Seq<char>) -> Option<
    Option<Seq<(Option<Seq<char>>, Option<Seq<char>>)>>,
>;

/// Whether `pattern` compiles.
pub open spec fn pattern_compiles(pattern: Seq<char>) -> bool {
    regex_captures(pattern, Seq::empty()) is Some
}

/// The groups of the leftmost match of `pattern` in `text`. `None` where there
/// is no match: a pattern that does not compile matches nothing.
pub open spec fn regex_match(pattern: Seq<char>, text: Seq<char>) -> Option<
    Seq<(Option<Seq<char>>, Option<Seq<char>>)>,
> {
    match regex_captures(pattern, text) {
        Some(found) => found,
        None => None,
    }
}

/// Compiles `pattern` with `regex::Regex::new` and searches `text` with
/// `Regex::captures`. The groups are read with `Regex::capture_names` and
/// `Captures::iter`, which run over the same groups in the same order. Nothing
/// is proved of the outcome. The contract gives it its name, so that two
/// searches with the same pattern and text are known to agree, and says that
/// whether the pattern compiles does not depend on the text: the pattern is
/// compiled before the text is looked at.
#[verifier::external_body]
pub(crate) fn capture_groups(pattern: &str, text: &str) -> (found: Option<Option<Groups>>)
    ensures
        found.deep_view() == regex_captures(pattern@, text@),
        found is Some == pattern_compiles(pattern@),
{
    let re = regex::Regex::new(pattern).ok()?;
    Some(
        re.captures(text).map(
            |caps|
                re.capture_names().zip(caps.iter()).map(
                    |(name, m)| (name.map(|n| n.to_string()), m.map(|m| m.as_str().to_string())),
                ).collect(),
        ),
    )
}

/// Searches `text` with `pattern`.
pub fn search(pattern: &str, text: &str) -> (found: Option<Groups>)
    ensures
        found.deep_view() == regex_match(pattern@, text@),
{
    match capture_groups(pattern, text) {
        Some(found) => found,
        None => None,
    }
}

/// Whether `pattern` compiles.
pub fn compiles(pattern: &str) -> (ok: bool)
    ensures
        ok == pattern_compiles(pattern@),
{
    capture_groups(pattern, "").is_some()
}

} // verus!
