//! The references of a script: the sources of its imports, the links and
//! assets named in its template text, and its internal URLs.

use crate::dependencies::css::{non_empty, non_empty_upto};
use crate::errors::{DependencyError, DependencyErrorView};
use crate::patterns::{
    all_matches, captured_views, captures_iter, compile, group, is_valid_pattern, Captured,
    CapturedView,
};
use crate::text::{append_chars, from_chars, starts_with_str, strings, to_chars, trim, trim_chars};
use crate::utils::jar_resolver::is_internal;
use vstd::prelude::*;

verus! {

/// A `<link>` tag with `rel="stylesheet"` followed by an `href`; group 1
/// is the value of the `href`.
pub const STYLESHEET_LINK: &'static str =
    r#"<link[^>]*rel\s*=\s*[\"']stylesheet[\"'][^>]*href\s*=\s*[\"']([^\"']+)[\"'][^>]*/?>"#;

/// A `src`, `href` or `iconsrc` attribute whose value ends with a file
/// extension; group 1 is the value.
pub const ASSET_REFERENCE: &'static str =
    r#"(?:src|href|iconsrc)\s*=\s*[\"']([^\"']+\.[a-zA-Z0-9]+)[\"']"#;

/// The stylesheet links among the first `n` matches: group 1 of each
/// match, trimmed, unless it is empty.
pub open spec fn stylesheet_links_upto(matches: Seq<CapturedView>, n: int) -> Seq<Seq<char>>
    decreases n,
{
    if n <= 0 {
        Seq::empty()
    } else {
        let before = stylesheet_links_upto(matches, n - 1);
        match group(matches[n - 1], 1) {
            Some(href) => if trim(href).len() > 0 {
                before.push(trim(href))
            } else {
                before
            },
            None => before,
        }
    }
}

/// The stylesheet links that the matches give.
pub open spec fn stylesheet_links(matches: Seq<CapturedView>) -> Seq<Seq<char>> {
    stylesheet_links_upto(matches, matches.len() as int)
}

/// Whether a reference is taken as a dependency: an internal URL, or
/// anything that is no absolute URL of the web, starting with `http://` or
/// `https://`.
pub open spec fn is_local_reference(url: Seq<char>) -> bool {
    is_internal(url) || (!"http://"@.is_prefix_of(url) && !"https://"@.is_prefix_of(url))
}

/// The asset references among the first `n` matches: group 1 of each
/// match, trimmed, where it is a local reference.
pub open spec fn asset_references_upto(matches: Seq<CapturedView>, n: int) -> Seq<Seq<char>>
    decreases n,
{
    if n <= 0 {
        Seq::empty()
    } else {
        let before = asset_references_upto(matches, n - 1);
        match group(matches[n - 1], 1) {
            Some(url) => if is_local_reference(trim(url)) {
                before.push(trim(url))
            } else {
                before
            },
            None => before,
        }
    }
}

/// The asset references that the matches give.
pub open spec fn asset_references(matches: Seq<CapturedView>) -> Seq<Seq<char>> {
    asset_references_upto(matches, matches.len() as int)
}

/// The stylesheet links in a piece of template text.
pub open spec fn stylesheet_links_in(html: Seq<char>) -> Seq<Seq<char>> {
    if is_valid_pattern(STYLESHEET_LINK@) {
        stylesheet_links(all_matches(STYLESHEET_LINK@, html))
    } else {
        Seq::empty()
    }
}

/// The asset references in a piece of template text.
pub open spec fn asset_references_in(html: Seq<char>) -> Seq<Seq<char>> {
    if is_valid_pattern(ASSET_REFERENCE@) {
        asset_references(all_matches(ASSET_REFERENCE@, html))
    } else {
        Seq::empty()
    }
}

fn group_text(m: &Captured, i: usize) -> (r: Option<&String>)
    ensures
        match r {
            Some(s) => group(m@, i as int) == Some(s@),
            None => group(m@, i as int) is None,
        },
{
    if i < m.groups.len() {
        match &m.groups[i] {
            Some(s) => Some(s),
            None => None,
        }
    } else {
        None
    }
}

/// The stylesheet links that the matches of the link pattern give.
pub fn stylesheet_links_from(matches: &Vec<Captured>) -> (r: Vec<String>)
    ensures
        strings(r@) == stylesheet_links(captured_views(matches@)),
{
    let mut out: Vec<String> = Vec::new();
    let mut i: usize = 0;
    assert(strings(out@) =~= Seq::empty());
    while i < matches.len()
        invariant
            i <= matches.len(),
            strings(out@) == stylesheet_links_upto(captured_views(matches@), i as int),
        decreases matches.len() - i,
    {
        let ghost before = strings(out@);
        assert(captured_views(matches@)[i as int] == matches@[i as int]@);
        if let Some(href) = group_text(&matches[i], 1) {
            let trimmed = trim_chars(&to_chars(href.as_str()));
            if trimmed.len() > 0 {
                out.push(from_chars(&trimmed));
                assert(strings(out@) =~= before.push(trim(href@)));
            }
        }
        i += 1;
    }
    out
}

/// Whether a reference is taken as a dependency.
pub fn is_local_reference_exec(url: &Vec<char>) -> (r: bool)
    ensures
        r == is_local_reference(url@),
{
    (starts_with_str(url, "chrome://") || starts_with_str(url, "resource://")) || (
    !starts_with_str(url, "http://") && !starts_with_str(url, "https://"))
}

/// The asset references that the matches of the attribute pattern give.
pub fn asset_references_from(matches: &Vec<Captured>) -> (r: Vec<String>)
    ensures
        strings(r@) == asset_references(captured_views(matches@)),
{
    let mut out: Vec<String> = Vec::new();
    let mut i: usize = 0;
    assert(strings(out@) =~= Seq::empty());
    while i < matches.len()
        invariant
            i <= matches.len(),
            strings(out@) == asset_references_upto(captured_views(matches@), i as int),
        decreases matches.len() - i,
    {
        let ghost before = strings(out@);
        assert(captured_views(matches@)[i as int] == matches@[i as int]@);
        if let Some(url) = group_text(&matches[i], 1) {
            let trimmed = trim_chars(&to_chars(url.as_str()));
            if is_local_reference_exec(&trimmed) {
                out.push(from_chars(&trimmed));
                assert(strings(out@) =~= before.push(trim(url@)));
            }
        }
        i += 1;
    }
    out
}

fn append_all(out: &mut Vec<String>, more: Vec<String>)
    ensures
        strings(final(out)@) == strings(old(out)@) + strings(more@),
{
    let ghost start = strings(out@);
    let mut i: usize = 0;
    assert(strings(out@) =~= start + strings(more@).take(0));
    while i < more.len()
        invariant
            i <= more.len(),
            strings(out@) == start + strings(more@).take(i as int),
        decreases more.len() - i,
    {
        let ghost before = strings(out@);
        out.push(more[i].clone());
        assert(strings(out@) =~= before.push(more@[i as int]@));
        assert(strings(out@) =~= start + strings(more@).take(i + 1));
        i += 1;
    }
    assert(strings(more@).take(more.len() as int) =~= strings(more@));
}

/// Collects the references of a script while its syntax tree is walked.
pub struct DependencyVisitor {
    pub dependencies: Vec<String>,
}

impl View for DependencyVisitor {
    type V = Seq<Seq<char>>;

    open spec fn view(&self) -> Seq<Seq<char>> {
        strings(self.dependencies@)
    }
}

impl DependencyVisitor {
    /// A collector that has seen nothing.
    pub fn new() -> (r: Self)
        ensures
            r@ == Seq::<Seq<char>>::empty(),
    {
        let r = DependencyVisitor { dependencies: Vec::new() };
        assert(r@ =~= Seq::<Seq<char>>::empty());
        r
    }

    /// Takes the value of a string literal as a reference.
    pub fn extract_string_literal(&mut self, value: &str)
        ensures
            final(self)@ == old(self)@.push(value@),
    {
        self.dependencies.push(from_chars(&to_chars(value)));
        assert(self@ =~= old(self)@.push(value@));
    }

    /// Takes the stylesheet links of a piece of template text as
    /// references.
    pub fn extract_css_links_from_html(&mut self, html_content: &str)
        ensures
            final(self)@ == old(self)@ + stylesheet_links_in(html_content@),
    {
        match compile(STYLESHEET_LINK) {
            Some(re) => {
                let matches = captures_iter(&re, html_content);
                append_all(&mut self.dependencies, stylesheet_links_from(&matches));
            },
            None => {
                assert(self@ =~= old(self)@ + Seq::<Seq<char>>::empty());
            },
        }
    }

    /// Takes the asset references of a piece of template text as
    /// references.
    pub fn extract_any_link_from_html(&mut self, html_content: &str)
        ensures
            final(self)@ == old(self)@ + asset_references_in(html_content@),
    {
        match compile(ASSET_REFERENCE) {
            Some(re) => {
                let matches = captures_iter(&re, html_content);
                append_all(&mut self.dependencies, asset_references_from(&matches));
            },
            None => {
                assert(self@ =~= old(self)@ + Seq::<Seq<char>>::empty());
            },
        }
    }

    /// Sees a static import: its source is a reference.
    pub fn visit_import_declaration(&mut self, source: &str)
        ensures
            final(self)@ == old(self)@.push(source@),
    {
        self.extract_string_literal(source);
    }

    /// Sees the raw text of one fragment of a template literal: its
    /// stylesheet links and then its asset references are references.
    pub fn visit_template_element(&mut self, raw: &str)
        ensures
            final(self)@ == old(self)@ + stylesheet_links_in(raw@) + asset_references_in(raw@),
    {
        self.extract_css_links_from_html(raw);
        self.extract_any_link_from_html(raw);
    }

    /// Sees a string literal outside an import: an internal URL is a
    /// reference.
    pub fn visit_string_literal(&mut self, value: &str)
        ensures
            final(self)@ == if is_internal(value@) {
                old(self)@.push(value@)
            } else {
                old(self)@
            },
    {
        let chars = to_chars(value);
        if starts_with_str(&chars, "chrome://") || starts_with_str(&chars, "resource://") {
            self.extract_string_literal(value);
        }
    }

    /// The dependencies of the script: the references that are not empty,
    /// in the order in which they were seen.
    pub fn into_dependencies(self) -> (r: Vec<String>)
        ensures
            strings(r@) == non_empty(self@),
    {
        let found = self.dependencies;
        let mut out: Vec<String> = Vec::new();
        let mut i: usize = 0;
        assert(strings(out@) =~= non_empty_upto(strings(found@), 0));
        while i < found.len()
            invariant
                i <= found.len(),
                strings(out@) == non_empty_upto(strings(found@), i as int),
            decreases found.len() - i,
        {
            let ghost before = strings(out@);
            assert(strings(found@)[i as int] == found@[i as int]@);
            if !found[i].as_str().is_empty() {
                out.push(found[i].clone());
                assert(strings(out@) =~= before.push(found@[i as int]@));
            }
            i += 1;
        }
        out
    }
}

/// What the parser's report means for the extraction: a parser that gave
/// up is an error, and so is a first diagnostic, with its message.
pub open spec fn parse_verdict(panicked: bool, diagnostics: Seq<Seq<char>>) -> Result<
    (),
    DependencyErrorView,
> {
    if panicked {
        Err(DependencyErrorView::JsPanicParse)
    } else if diagnostics.len() > 0 {
        Err(DependencyErrorView::JsParse { message: "Parser errors: "@ + diagnostics[0] })
    } else {
        Ok(())
    }
}

/// Judges the parser's report before the syntax tree is walked.
pub fn check_parse(panicked: bool, diagnostics: &Vec<String>) -> (r: Result<(), DependencyError>)
    ensures
        match parse_verdict(panicked, strings(diagnostics@)) {
            Ok(_) => r is Ok,
            Err(e) => r matches Err(err) && err@ == e,
        },
{
    if panicked {
        return Err(DependencyError::JsPanicParse);
    }
    if diagnostics.len() > 0 {
        let prefix = to_chars("Parser errors: ");
        let first = to_chars(diagnostics[0].as_str());
        assert(strings(diagnostics@)[0] == diagnostics@[0]@);
        return Err(DependencyError::JsParse { message: from_chars(&append_chars(&prefix, &first)) });
    }
    Ok(())
}

} // verus!
