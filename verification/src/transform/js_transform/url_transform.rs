//! The rewriting of import sources.

use crate::errors::{TransformError, TransformErrorView};
use crate::replacements::ReplacementMap;
use crate::text::{from_chars, str_eq, to_chars};
use vstd::prelude::*;

verus! {

/// The module that the host provides: its import is never rewritten.
pub const LIT_MODULE: &'static str = "lit.all.mjs";

/// What becomes of the source of a static import: the host's module
/// stays as it is (no new source), a source that `replacements` holds is
/// replaced, and any other is an error.
pub open spec fn rewritten_source(replacements: Map<Seq<char>, Seq<char>>, source: Seq<char>) -> Result<
    Option<Seq<char>>,
    TransformErrorView,
> {
    if source == LIT_MODULE@ {
        Ok(None)
    } else if replacements.contains_key(source) {
        Ok(Some(replacements[source]))
    } else {
        Err(TransformErrorView::ReplacementNotFound { import: source })
    }
}

/// Rewrites the sources of the static imports of a script.
pub struct UrlTransformer<'a> {
    url_replacements: &'a ReplacementMap,
}

impl<'a> UrlTransformer<'a> {
    /// The replacement map that the transformer works with.
    pub closed spec fn replacements(&self) -> Map<Seq<char>, Seq<char>> {
        self.url_replacements@
    }

    /// A transformer that works with `url_replacements`.
    pub fn new(url_replacements: &'a ReplacementMap) -> (r: Self)
        ensures
            r.replacements() == url_replacements@,
    {
        UrlTransformer { url_replacements }
    }

    /// Decides on the source of a static import: `Ok(None)` leaves it as
    /// it is, `Ok(Some(s))` puts `s` in its place.
    pub fn enter_import_declaration(&self, source: &str) -> (r: Result<
        Option<String>,
        TransformError,
    >)
        ensures
            match rewritten_source(self.replacements(), source@) {
                Ok(Some(new_source)) => r matches Ok(Some(s)) && s@ == new_source,
                Ok(None) => r matches Ok(None),
                Err(e) => r matches Err(err) && err@ == e,
            },
            source@ == LIT_MODULE@ ==> r matches Ok(None),
    {
        if str_eq(source, LIT_MODULE) {
            return Ok(None);
        }
        match self.url_replacements.get(source) {
            Some(replacement) => Ok(Some(replacement.clone())),
            None => Err(TransformError::ReplacementNotFound { import: from_chars(&to_chars(source)) }),
        }
    }
}

} // verus!
