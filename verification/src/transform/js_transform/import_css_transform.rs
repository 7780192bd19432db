//! The import of the `css` tag, once a stylesheet was inlined.

use crate::text::{ends_with_str, strings, to_chars};
use crate::transform::js_transform::url_transform::LIT_MODULE;
use vstd::prelude::*;

verus! {

/// Whether a static import is one of the host's module: its source ends
/// with the module's file name.
pub open spec fn imports_lit(source: Seq<char>) -> bool {
    LIT_MODULE@.is_suffix_of(source)
}

/// Whether the import named by `source` with the named specifiers
/// `names` gets the specifier `css` added, given whether `css` is known to
/// be imported already.
pub open spec fn adds_css(imported: bool, source: Seq<char>, names: Seq<Seq<char>>) -> bool {
    imports_lit(source) && !names.contains("css"@) && !imported
}

/// Whether `css` is known to be imported after the import named by
/// `source` was seen.
pub open spec fn css_imported_after(imported: bool, source: Seq<char>, names: Seq<Seq<char>>) -> bool {
    imported || imports_lit(source)
}

/// A static import as the pass sees it: its source and the names of its
/// named specifiers.
pub struct ImportView {
    pub source: Seq<char>,
    pub names: Seq<Seq<char>>,
}

/// Whether `css` is known to be imported after the first `n` imports of
/// a module.
pub open spec fn css_imported_upto(imports: Seq<ImportView>, n: int) -> bool
    decreases n,
{
    if n <= 0 {
        false
    } else {
        css_imported_after(
            css_imported_upto(imports, n - 1),
            imports[n - 1].source,
            imports[n - 1].names,
        )
    }
}

/// Whether import `k` of a module gets the specifier `css` added.
pub open spec fn adds_css_at(imports: Seq<ImportView>, k: int) -> bool {
    adds_css(css_imported_upto(imports, k), imports[k].source, imports[k].names)
}

/// Over a whole module the specifier `css` is added at most once: of two
/// imports that get it, there is but one.
pub proof fn lemma_css_added_at_most_once(imports: Seq<ImportView>, j: int, k: int)
    requires
        0 <= j < imports.len(),
        0 <= k < imports.len(),
        adds_css_at(imports, j),
        adds_css_at(imports, k),
    ensures
        j == k,
{
    if j < k {
        lemma_css_imported_stays(imports, j + 1, k);
    } else if k < j {
        lemma_css_imported_stays(imports, k + 1, j);
    }
}

/// Once `css` is known to be imported, it stays so.
pub proof fn lemma_css_imported_stays(imports: Seq<ImportView>, m: int, n: int)
    requires
        0 <= m <= n,
        css_imported_upto(imports, m),
    ensures
        css_imported_upto(imports, n),
    decreases n - m,
{
    if m < n {
        lemma_css_imported_stays(imports, m, n - 1);
    }
}

/// Where the specifier is added, it is added to the first import of the
/// host's module, and that import did not name `css`.
pub proof fn lemma_css_added_to_first(imports: Seq<ImportView>, k: int)
    requires
        0 <= k < imports.len(),
        adds_css_at(imports, k),
    ensures
        imports_lit(imports[k].source),
        !imports[k].names.contains("css"@),
        forall|j: int| 0 <= j < k ==> !imports_lit(#[trigger] imports[j].source),
{
    assert forall|j: int| 0 <= j < k implies !imports_lit(#[trigger] imports[j].source) by {
        if imports_lit(imports[j].source) {
            assert(css_imported_upto(imports, j + 1));
            lemma_css_imported_stays(imports, j + 1, k);
        }
    }
}

/// Before the first import of the host's module, `css` is not known to
/// be imported.
pub proof fn lemma_css_not_imported_before(imports: Seq<ImportView>, n: int)
    requires
        0 <= n <= imports.len(),
        forall|j: int| 0 <= j < n ==> !imports_lit(#[trigger] imports[j].source),
    ensures
        !css_imported_upto(imports, n),
    decreases n,
{
    if n > 0 {
        lemma_css_not_imported_before(imports, n - 1);
    }
}

/// The specifier is added exactly once where it is missing: if the first
/// import of the host's module does not name `css`, that import gets it,
/// and no other import does.
pub proof fn lemma_css_added_exactly_once(imports: Seq<ImportView>, first: int, k: int)
    requires
        0 <= first < imports.len(),
        imports_lit(imports[first].source),
        forall|j: int| 0 <= j < first ==> !imports_lit(#[trigger] imports[j].source),
        !imports[first].names.contains("css"@),
        0 <= k < imports.len(),
    ensures
        adds_css_at(imports, k) <==> k == first,
{
    lemma_css_not_imported_before(imports, first);
    if adds_css_at(imports, k) {
        lemma_css_added_at_most_once(imports, first, k);
    }
}

/// Adds the specifier `css` to the import of the host's module.
pub struct ImportCssTransformer {
    css_imported: bool,
}

impl View for ImportCssTransformer {
    type V = bool;

    closed spec fn view(&self) -> bool {
        self.css_imported
    }
}

impl ImportCssTransformer {
    /// A transformer that has seen no import.
    pub fn new() -> (r: Self)
        ensures
            !r@,
    {
        ImportCssTransformer { css_imported: false }
    }

    /// Forgets what was seen, before the imports of a module are walked.
    pub fn build(&mut self)
        ensures
            !final(self)@,
    {
        self.css_imported = false;
    }

    /// Sees a static import with the names of its named specifiers, and
    /// says whether the specifier `css` is to be added to it.
    pub fn enter_import_declaration(&mut self, source: &str, names: &Vec<String>) -> (r: bool)
        ensures
            r == adds_css(old(self)@, source@, strings(names@)),
            final(self)@ == css_imported_after(old(self)@, source@, strings(names@)),
    {
        let chars = to_chars(source);
        if !ends_with_str(&chars, LIT_MODULE) {
            return false;
        }
        let css = to_chars("css");
        let mut already = false;
        let mut i: usize = 0;
        while i < names.len()
            invariant
                i <= names.len(),
                css@ == "css"@,
                already == exists|k: int| 0 <= k < i && strings(names@)[k] == "css"@,
            decreases names.len() - i,
        {
            assert(strings(names@)[i as int] == names@[i as int]@);
            if crate::text::chars_eq(&to_chars(names[i].as_str()), &css) {
                already = true;
            }
            i += 1;
        }
        assert(already == strings(names@).contains("css"@));
        if already || self.css_imported {
            self.css_imported = true;
            return false;
        }
        self.css_imported = true;
        true
    }
}

} // verus!
