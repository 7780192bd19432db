//! What frames the passes over a script: the verdict on the parser's
//! report and the last touch on the printed code.

use crate::errors::{TransformError, TransformErrorView};
use crate::text::{append_chars, from_chars, replace_char, replace_char_exec, strings, to_chars};
use vstd::prelude::*;

verus! {

/// What the reports of the parser and of the semantic analysis mean for
/// the transformation: a parser that gave up is an error, and so is a first
/// diagnostic, with its message.
pub open spec fn transform_verdict(panicked: bool, diagnostics: Seq<Seq<char>>) -> Result<
    (),
    TransformErrorView,
> {
    if panicked {
        Err(TransformErrorView::JsPanicParse)
    } else if diagnostics.len() > 0 {
        Err(TransformErrorView::JsParse { message: "Semantic errors: "@ + diagnostics[0] })
    } else {
        Ok(())
    }
}

/// Judges the reports of the parser and of the semantic analysis before
/// the passes run.
pub fn check_parse(panicked: bool, diagnostics: &Vec<String>) -> (r: Result<(), TransformError>)
    ensures
        match transform_verdict(panicked, strings(diagnostics@)) {
            Ok(_) => r is Ok,
            Err(e) => r matches Err(err) && err@ == e,
        },
{
    if panicked {
        return Err(TransformError::JsPanicParse);
    }
    if diagnostics.len() > 0 {
        let prefix = to_chars("Semantic errors: ");
        let first = to_chars(diagnostics[0].as_str());
        assert(strings(diagnostics@)[0] == diagnostics@[0]@);
        return Err(TransformError::JsParse { message: from_chars(&append_chars(&prefix, &first)) });
    }
    Ok(())
}

/// The printed code with two spaces in place of each tab.
pub open spec fn without_tabs(code: Seq<char>) -> Seq<char> {
    replace_char(code, '\t', seq![' ', ' '])
}

/// Replaces the tabs that the printer made by two spaces each.
pub fn normalize_tabs(code: &str) -> (r: String)
    ensures
        r@ == without_tabs(code@),
{
    let mut spaces: Vec<char> = Vec::new();
    spaces.push(' ');
    spaces.push(' ');
    assert(spaces@ =~= seq![' ', ' ']);
    from_chars(&replace_char_exec(&to_chars(code), '\t', &spaces))
}

} // verus!
