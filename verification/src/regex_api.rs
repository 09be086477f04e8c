//! Trusted access to the `regex` crate. Each call compiles its pattern and
//! runs one query on it; positions are reported as character indices into
//! the text.
use regex::Regex;
use vstd::prelude::*;

verus! {

/// Whether `Regex::new` accepts the pattern.
pub uninterp spec fn regex_compiles(pattern: Seq<char>) -> bool;

/// `Regex::is_match`: whether the pattern matches somewhere in the text.
pub uninterp spec fn regex_matches(pattern: Seq<char>, text: Seq<char>) -> bool;

/// `Regex::find`: the span of the leftmost-first match, if any.
pub uninterp spec fn regex_first_match(pattern: Seq<char>, text: Seq<char>) -> Option<(int, int)>;

/// `Regex::find_iter`: the spans of the successive non-overlapping matches.
pub uninterp spec fn regex_all_matches(pattern: Seq<char>, text: Seq<char>) -> Seq<(int, int)>;

/// `Regex::captures` then `Captures::get(group)`: `None` when the pattern
/// does not match, `Some(None)` when the group took no part in the match.
pub uninterp spec fn regex_group(pattern: Seq<char>, text: Seq<char>, group: int) -> Option<
    Option<(int, int)>,
>;

/// The spans are within the text, ordered and non-overlapping.
pub open spec fn spans_ordered(spans: Seq<(int, int)>, len: int) -> bool {
    &&& forall|i: int| 0 <= i < spans.len() ==> 0 <= (#[trigger] spans[i]).0 <= spans[i].1 <= len
    &&& forall|i: int| 0 <= i < spans.len() - 1 ==> (#[trigger] spans[i]).1 <= spans[i + 1].0
}

/// Compiles `pattern` and asks whether it matches `text`; `None` when the
/// pattern does not compile.
#[verifier::external_body]
pub(crate) fn regex_is_match(pattern: &str, text: &str) -> (r: Option<bool>)
    ensures
        match r {
            Some(b) => regex_compiles(pattern@) && b == regex_matches(pattern@, text@),
            None => !regex_compiles(pattern@),
        },
{
    match Regex::new(pattern) {
        Ok(re) => Some(re.is_match(text)),
        Err(_) => None,
    }
}

/// Compiles `pattern` and returns the span of its first match in `text`;
/// the outer `None` when the pattern does not compile. A match lies within
/// the text.
#[verifier::external_body]
pub(crate) fn regex_find(pattern: &str, text: &str) -> (r: Option<Option<(usize, usize)>>)
    ensures
        match r {
            Some(m) => regex_compiles(pattern@) && match m {
                Some((s, e)) => regex_first_match(pattern@, text@) == Some((s as int, e as int))
                    && s <= e <= text@.len(),
                None => regex_first_match(pattern@, text@) is None,
            },
            None => !regex_compiles(pattern@),
        },
{
    match Regex::new(pattern) {
        Ok(re) => match re.find(text) {
            Some(m) => Some(Some((text[..m.start()].chars().count(), text[..m.end()].chars().count()))),
            None => Some(None),
        },
        Err(_) => None,
    }
}

/// Compiles `pattern` and returns the spans of its successive
/// non-overlapping matches in `text`; `None` when the pattern does not
/// compile. The spans come in order, within the text.
#[verifier::external_body]
pub(crate) fn regex_find_all(pattern: &str, text: &str) -> (r: Option<Vec<(usize, usize)>>)
    ensures
        match r {
            Some(v) => regex_compiles(pattern@) && v@.map_values(|p: (usize, usize)| (p.0 as int, p.1 as int))
                == regex_all_matches(pattern@, text@) && spans_ordered(
                regex_all_matches(pattern@, text@),
                text@.len() as int,
            ),
            None => !regex_compiles(pattern@),
        },
{
    match Regex::new(pattern) {
        Ok(re) => Some(
            re.find_iter(text).map(
                |m| (text[..m.start()].chars().count(), text[..m.end()].chars().count()),
            ).collect(),
        ),
        Err(_) => None,
    }
}

/// Compiles `pattern`, matches it against `text` and returns the span of
/// capture group `group`; `None` when the pattern does not compile. A
/// group's span lies within the text.
#[verifier::external_body]
pub(crate) fn regex_capture(pattern: &str, text: &str, group: usize) -> (r: Option<
    Option<Option<(usize, usize)>>,
>)
    ensures
        match r {
            Some(c) => regex_compiles(pattern@) && match c {
                None => regex_group(pattern@, text@, group as int) is None,
                Some(None) => regex_group(pattern@, text@, group as int) == Some(
                    None::<(int, int)>,
                ),
                Some(Some((s, e))) => regex_group(pattern@, text@, group as int) == Some(
                    Some((s as int, e as int)),
                ) && s <= e <= text@.len(),
            },
            None => !regex_compiles(pattern@),
        },
{
    match Regex::new(pattern) {
        Ok(re) => match re.captures(text) {
            Some(caps) => match caps.get(group) {
                Some(m) => Some(Some(Some((text[..m.start()].chars().count(), text[..m.end()].chars().count())))),
                None => Some(Some(None)),
            },
            None => Some(None),
        },
        Err(_) => None,
    }
}

} // verus!
