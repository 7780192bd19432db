//! The rewriting of the URLs of a stylesheet.

use crate::errors::{TransformError, TransformErrorView};
use crate::replacements::ReplacementMap;
use crate::text::{append_chars, from_chars, slice, starts_with_str, to_chars};
use vstd::prelude::*;

verus! {

/// Whether a URL leaves the source tree or holds its data itself: it
/// starts with `data:`, `http:`, `https:` or `//`.
pub open spec fn is_external(url: Seq<char>) -> bool {
    "data:"@.is_prefix_of(url) || "http:"@.is_prefix_of(url) || "https:"@.is_prefix_of(url)
        || "//"@.is_prefix_of(url)
}

/// The index at or after `from` of the first `?` or `#` of `url`, or the
/// length of `url`.
pub open spec fn suffix_start_from(url: Seq<char>, from: int) -> int
    decreases url.len() - from,
{
    if from >= url.len() {
        url.len() as int
    } else if url[from] == '?' || url[from] == '#' {
        from
    } else {
        suffix_start_from(url, from + 1)
    }
}

/// The index at which the query or fragment of `url` starts.
pub open spec fn suffix_start(url: Seq<char>) -> int {
    suffix_start_from(url, 0)
}

/// `url` without its query and fragment.
pub open spec fn url_base(url: Seq<char>) -> Seq<char> {
    url.subrange(0, suffix_start(url))
}

/// The query and fragment of `url`, from its first `?` or `#` on.
pub open spec fn url_suffix(url: Seq<char>) -> Seq<char> {
    url.subrange(suffix_start(url), url.len() as int)
}

/// The URL to write in place of `url`: an external URL stays; any other
/// has its base replaced as `replacements` says and keeps its suffix; a
/// base that `replacements` does not hold is an error.
pub open spec fn rewritten_url(replacements: Map<Seq<char>, Seq<char>>, url: Seq<char>) -> Result<
    Seq<char>,
    TransformErrorView,
> {
    let base = url_base(url);
    if is_external(base) {
        Ok(url)
    } else if replacements.contains_key(base) {
        Ok(replacements[base] + url_suffix(url))
    } else {
        Err(TransformErrorView::UrlNotFound { url: base })
    }
}

fn suffix_start_exec(url: &Vec<char>) -> (r: usize)
    ensures
        r == suffix_start(url@),
        r <= url.len(),
{
    let mut i: usize = 0;
    while i < url.len() && url[i] != '?' && url[i] != '#'
        invariant
            i <= url.len(),
            suffix_start(url@) == suffix_start_from(url@, i as int),
        decreases url.len() - i,
    {
        i += 1;
    }
    i
}

/// Whether a URL is to be looked at: it is not external.
pub fn should_transform_url(url: &str) -> (r: bool)
    ensures
        r == !is_external(url@),
{
    let chars = to_chars(url);
    !(starts_with_str(&chars, "data:") || starts_with_str(&chars, "http:") || starts_with_str(
        &chars,
        "https:",
    ) || starts_with_str(&chars, "//"))
}

/// `url` without its query and fragment.
pub fn clean_url(url: &str) -> (r: String)
    ensures
        r@ == url_base(url@),
{
    let chars = to_chars(url);
    let cut = suffix_start_exec(&chars);
    from_chars(&slice(&chars, 0, cut))
}

/// Rewrites one URL of a stylesheet as `replacements` says.
pub fn rewrite_url(replacements: &ReplacementMap, url: &str) -> (r: Result<String, TransformError>)
    ensures
        match rewritten_url(replacements@, url@) {
            Ok(new_url) => r matches Ok(u) && u@ == new_url,
            Err(e) => r matches Err(err) && err@ == e,
        },
{
    let chars = to_chars(url);
    let cut = suffix_start_exec(&chars);
    let base = from_chars(&slice(&chars, 0, cut));
    if !should_transform_url(base.as_str()) {
        return Ok(from_chars(&chars));
    }
    match replacements.get(base.as_str()) {
        Some(replacement) => {
            let suffix = slice(&chars, cut, chars.len());
            Ok(from_chars(&append_chars(&to_chars(replacement.as_str()), &suffix)))
        },
        None => Err(TransformError::UrlNotFound { url: base }),
    }
}

/// Rewrites the `url(...)` references of a stylesheet.
pub struct UrlReplacer<'a> {
    url_replacements: &'a ReplacementMap,
}

impl<'a> UrlReplacer<'a> {
    /// The replacement map that the replacer works with.
    pub closed spec fn replacements(&self) -> Map<Seq<char>, Seq<char>> {
        self.url_replacements@
    }

    /// A replacer that works with `url_replacements`.
    pub fn new(url_replacements: &'a ReplacementMap) -> (r: Self)
        ensures
            r.replacements() == url_replacements@,
    {
        UrlReplacer { url_replacements }
    }

    /// The URL to write in place of the reference `url`.
    pub fn visit_url(&self, url: &str) -> (r: Result<String, TransformError>)
        ensures
            match rewritten_url(self.replacements(), url@) {
                Ok(new_url) => r matches Ok(u) && u@ == new_url,
                Err(e) => r matches Err(err) && err@ == e,
            },
    {
        rewrite_url(self.url_replacements, url)
    }
}

/// Rewrites the targets of the `@import` rules of a stylesheet.
pub struct ImportReplacer<'a> {
    url_replacements: &'a ReplacementMap,
}

impl<'a> ImportReplacer<'a> {
    /// The replacement map that the replacer works with.
    pub closed spec fn replacements(&self) -> Map<Seq<char>, Seq<char>> {
        self.url_replacements@
    }

    /// A replacer that works with `url_replacements`.
    pub fn new(url_replacements: &'a ReplacementMap) -> (r: Self)
        ensures
            r.replacements() == url_replacements@,
    {
        ImportReplacer { url_replacements }
    }

    /// The URL to write in place of the target `url` of an `@import` rule.
    pub fn visit_rule(&self, url: &str) -> (r: Result<String, TransformError>)
        ensures
            match rewritten_url(self.replacements(), url@) {
                Ok(new_url) => r matches Ok(u) && u@ == new_url,
                Err(e) => r matches Err(err) && err@ == e,
            },
    {
        rewrite_url(self.url_replacements, url)
    }
}

} // verus!
