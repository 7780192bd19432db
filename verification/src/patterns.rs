//! Regular expressions: the searches that the extractors and transformers
//! make in template text, with the `regex` crate behind them.
//!
//! What a search finds is not derived here. Each search has a name for its
//! result, and the functions of this crate that search state their results
//! over those names.

use crate::text::{slice, to_chars};
use regex::Regex;
use vstd::prelude::*;

verus! {

/// `regex::Regex`: a compiled regular expression.
#[verifier::external_type_specification]
#[verifier::external_body]
pub struct ExRegex(Regex);

/// One match of a pattern in a text: the text before the match, the text
/// of each capture group (the whole match first) where the group took part,
/// and the text after the match.
#[derive(Debug)]
pub struct Captured {
    pub before: String,
    pub groups: Vec<Option<String>>,
    pub after: String,
}

/// A match as a mathematical value.
pub struct CapturedView {
    pub before: Seq<char>,
    pub groups: Seq<Option<Seq<char>>>,
    pub after: Seq<char>,
}

/// The texts of the groups `v`.
pub open spec fn group_views(v: Seq<Option<String>>) -> Seq<Option<Seq<char>>> {
    Seq::new(
        v.len(),
        |i: int|
            match v[i] {
                Some(s) => Some(s@),
                None => None,
            },
    )
}

impl View for Captured {
    type V = CapturedView;

    open spec fn view(&self) -> CapturedView {
        CapturedView {
            before: self.before@,
            groups: group_views(self.groups@),
            after: self.after@,
        }
    }
}

/// The views of the matches `v`.
pub open spec fn captured_views(v: Seq<Captured>) -> Seq<CapturedView> {
    Seq::new(v.len(), |i: int| v[i]@)
}

/// The text of group `i` of a match, if the match has such a group and
/// the group took part in it.
pub open spec fn group(m: CapturedView, i: int) -> Option<Seq<char>> {
    if 0 <= i < m.groups.len() {
        m.groups[i]
    } else {
        None
    }
}

/// The text that a match covers: its group 0.
pub open spec fn matched_text(m: CapturedView) -> Seq<char> {
    match group(m, 0) {
        Some(text) => text,
        None => Seq::empty(),
    }
}

/// The index in the text at which a match ends.
pub open spec fn match_end(m: CapturedView) -> int {
    (m.before.len() + matched_text(m).len()) as int
}

/// The text between match `i` and the match before it, or the start of
/// the text.
pub open spec fn text_between(matches: Seq<CapturedView>, i: int) -> Seq<char> {
    let from = if i <= 0 {
        0
    } else {
        match_end(matches[i - 1])
    };
    let before = matches[i].before;
    if 0 <= from <= before.len() {
        before.subrange(from, before.len() as int)
    } else {
        Seq::empty()
    }
}

/// The text that a match covers.
pub fn matched_text_of(m: &Captured) -> (r: String)
    ensures
        r@ == matched_text(m@),
{
    if m.groups.len() > 0 {
        match &m.groups[0] {
            Some(text) => text.clone(),
            None => String::new(),
        }
    } else {
        String::new()
    }
}

/// The text between match `i` and the match before it, or the start of
/// the text.
pub fn text_between_of(matches: &Vec<Captured>, i: usize) -> (r: Vec<char>)
    requires
        i < matches.len(),
    ensures
        r@ == text_between(captured_views(matches@), i as int),
{
    assert(captured_views(matches@)[i as int] == matches@[i as int]@);
    let before = to_chars(matches[i].before.as_str());
    let from: usize = if i == 0 {
        0
    } else {
        assert(captured_views(matches@)[i - 1] == matches@[i - 1]@);
        let earlier = to_chars(matches[i - 1].before.as_str());
        let covered = to_chars(matched_text_of(&matches[i - 1]).as_str());
        if earlier.len() > before.len() || covered.len() > before.len() - earlier.len() {
            return Vec::new();
        }
        earlier.len() + covered.len()
    };
    slice(&before, from, before.len())
}

/// Whether `Regex::new` accepts `pattern`.
pub uninterp spec fn is_valid_pattern(pattern: Seq<char>) -> bool;

/// Whether a regular expression was made by `Regex::new`, with no option
/// set beside its pattern. Only then does the pattern alone say what it
/// matches.
pub uninterp spec fn regex_is_plain(re: Regex) -> bool;

/// What `Regex::as_str` returns for a regular expression: the pattern
/// that it was made from.
pub uninterp spec fn regex_source(re: Regex) -> Seq<char>;

/// What `Regex::captures` returns for a pattern and a text: the leftmost
/// match, if there is one.
pub uninterp spec fn first_match(pattern: Seq<char>, text: Seq<char>) -> Option<CapturedView>;

/// What `Regex::captures_iter` yields for a pattern and a text: the
/// successive matches that do not overlap.
pub uninterp spec fn all_matches(pattern: Seq<char>, text: Seq<char>) -> Seq<CapturedView>;

/// Calls `Regex::new`, which compiles a pattern or refuses it. The
/// regular expression made remembers its pattern and has no other option
/// set.
#[verifier::external_body]
pub(crate) fn compile(pattern: &str) -> (r: Option<Regex>)
    ensures
        r is Some == is_valid_pattern(pattern@),
        r matches Some(re) ==> regex_source(re) == pattern@ && regex_is_plain(re),
{
    Regex::new(pattern).ok()
}

/// Calls `Regex::captures`, which finds the leftmost match in the text,
/// and hands it out as text: what stands before it, its groups, what
/// stands after it.
#[verifier::external_body]
pub(crate) fn captures(re: &Regex, text: &str) -> (r: Option<Captured>)
    requires
        regex_is_plain(*re),
    ensures
        match r {
            Some(c) => first_match(regex_source(*re), text@) == Some(c@),
            None => first_match(regex_source(*re), text@) is None,
        },
{
    match re.captures(text) {
        Some(c) => Some(
            Captured {
                before: text[..c.get_match().start()].to_string(),
                groups: c.iter().map(|g| g.map(|m| m.as_str().to_string())).collect(),
                after: text[c.get_match().end()..].to_string(),
            },
        ),
        None => None,
    }
}

/// Calls `Regex::captures_iter`, which yields the successive matches in
/// the text that do not overlap, and hands each out as text.
#[verifier::external_body]
pub(crate) fn captures_iter(re: &Regex, text: &str) -> (r: Vec<Captured>)
    requires
        regex_is_plain(*re),
    ensures
        captured_views(r@) == all_matches(regex_source(*re), text@),
{
    re.captures_iter(text).map(
        |c|
            Captured {
                before: text[..c.get_match().start()].to_string(),
                groups: c.iter().map(|g| g.map(|m| m.as_str().to_string())).collect(),
                after: text[c.get_match().end()..].to_string(),
            },
    ).collect()
}

} // verus!
