//! Regular expressions, as the `regex` crate matches them.
//!
//! What a pattern matches is not modelled here: each search is known by a name
//! that takes the pattern's source and the text searched. A compiled pattern
//! is carried as an opaque value that remembers its source.

use crate::text::{contains, lemma_utf8_len_concat, occurs_at, utf8_len};
use vstd::prelude::*;

verus! {

/// A compiled pattern of the `regex` crate.
#[verifier::external_type_specification]
#[verifier::external_body]
pub struct ExRegex(regex::Regex);

/// One match of a pattern in a text: the byte offsets where it starts and
/// ends, and the text matched.
#[derive(Debug, Clone)]
pub struct TextMatch {
    pub start: usize,
    pub end: usize,
    pub text: String,
}

/// A match, as contracts speak of it.
pub struct MatchView {
    pub start: usize,
    pub end: usize,
    pub text: Seq<char>,
}

impl View for TextMatch {
    type V = MatchView;

    open spec fn view(&self) -> MatchView {
        MatchView { start: self.start, end: self.end, text: self.text@ }
    }
}

/// The views of a vector of matches.
pub open spec fn match_views(v: Seq<TextMatch>) -> Seq<MatchView> {
    v.map_values(|m: TextMatch| m@)
}

/// The source text from which a pattern was compiled.
pub uninterp spec fn pattern_of(re: regex::Regex) -> Seq<char>;

/// Whether a source text compiles to a pattern.
pub uninterp spec fn pattern_compiles(source: Seq<char>) -> bool;

/// The successive matches of the pattern compiled from `source` in `text`,
/// from left to right and without overlap.
pub uninterp spec fn pattern_matches(source: Seq<char>, text: Seq<char>) -> Seq<MatchView>;

/// Whether the pattern compiled from `source` matches somewhere in `text`.
pub uninterp spec fn pattern_is_match(source: Seq<char>, text: Seq<char>) -> bool;

/// `text` with every match of the pattern compiled from `source` replaced by
/// what `replacement` expands to.
pub uninterp spec fn pattern_replace_all(
    source: Seq<char>,
    text: Seq<char>,
    replacement: Seq<char>,
) -> Seq<char>;

/// Compiles a pattern with `regex::Regex::new`. Whether that succeeds depends
/// on the source alone; the compiled pattern keeps its source.
#[verifier::external_body]
pub(crate) fn compile(source: &str) -> (r: Option<regex::Regex>)
    ensures
        r is Some <==> pattern_compiles(source@),
        r matches Some(re) ==> pattern_of(re) == source@,
{
    regex::Regex::new(source).ok()
}

/// Whether `part` is the piece of `text` between the byte offsets `start` and
/// `end`: it starts where the characters before it take `start` bytes, and
/// it takes the bytes from there to `end`.
pub open spec fn is_slice(text: Seq<char>, start: int, end: int, part: Seq<char>) -> bool {
    exists|i: int|
        {
            &&& 0 <= i
            &&& i + part.len() <= text.len()
            &&& utf8_len(#[trigger] text.take(i)) == start
            &&& text.subrange(i, i + part.len()) == part
            &&& end == start + utf8_len(part)
        }
}

/// A piece of a text occurs in the text, and its offsets lie in order within
/// the bytes of the text.
pub proof fn lemma_slice_is_part(text: Seq<char>, start: int, end: int, part: Seq<char>)
    requires
        is_slice(text, start, end, part),
    ensures
        contains(text, part),
        0 <= start <= end <= utf8_len(text),
{
    let i = choose|i: int|
        {
            &&& 0 <= i
            &&& i + part.len() <= text.len()
            &&& utf8_len(#[trigger] text.take(i)) == start
            &&& text.subrange(i, i + part.len()) == part
            &&& end == start + utf8_len(part)
        };
    assert(occurs_at(text, i, part));
    let rest = text.skip(i + part.len() as int);
    assert(text =~= text.take(i) + part + rest);
    lemma_utf8_len_concat(text.take(i), part);
    lemma_utf8_len_concat(text.take(i) + part, rest);
}

/// Collects what `regex::Regex::find_iter` yields: every match in `text`, in
/// order, each with its offsets and its text, which is the piece of `text`
/// between the offsets.
#[verifier::external_body]
pub(crate) fn find_all(re: &regex::Regex, text: &str) -> (r: Vec<TextMatch>)
    ensures
        match_views(r@) == pattern_matches(pattern_of(*re), text@),
        forall|k: int|
            0 <= k < r@.len() ==> is_slice(
                text@,
                (#[trigger] r@[k]).start as int,
                r@[k].end as int,
                r@[k].text@,
            ),
{
    re.find_iter(text).map(
        |m| TextMatch { start: m.start(), end: m.end(), text: m.as_str().to_string() },
    ).collect()
}

/// `regex::Regex::is_match`: whether the pattern matches anywhere in `text`.
#[verifier::external_body]
pub(crate) fn is_match(re: &regex::Regex, text: &str) -> (r: bool)
    ensures
        r == pattern_is_match(pattern_of(*re), text@),
{
    re.is_match(text)
}

/// `regex::Regex::replace_all` with a text as the replacement.
#[verifier::external_body]
pub(crate) fn replace_all(re: &regex::Regex, text: &str, replacement: &str) -> (r: String)
    ensures
        r@ == pattern_replace_all(pattern_of(*re), text@, replacement@),
{
    re.replace_all(text, replacement).into_owned()
}

/// Whether `source` compiles to a pattern.
pub fn compiles(source: &str) -> (r: bool)
    ensures
        r == pattern_compiles(source@),
{
    compile(source).is_some()
}

} // verus!
