//! The rewriting of asset references: string literals and template
//! attributes that name an asset become URLs relative to the module.

use crate::patterns::{
    all_matches, captured_views, captures_iter, compile, group, is_valid_pattern, matched_text,
    matched_text_of, text_between, text_between_of, Captured, CapturedView,
};
use crate::replacements::ReplacementMap;
use crate::text::{append_chars, from_chars, strings, to_chars};
use vstd::prelude::*;

verus! {

/// A `src` or `iconsrc` attribute; group 2 is its value.
pub const SRC_ATTRIBUTE: &'static str = r#"(src|iconsrc)\s*=\s*["']([^"']+)["']"#;

/// One string fragment of a template literal: its text, if it has one,
/// and whether it ends the literal.
#[derive(Debug)]
pub struct TemplateFragment {
    pub cooked: Option<String>,
    pub tail: bool,
}

/// A template fragment as a mathematical value.
pub struct FragmentView {
    pub cooked: Option<Seq<char>>,
    pub tail: bool,
}

impl View for TemplateFragment {
    type V = FragmentView;

    open spec fn view(&self) -> FragmentView {
        FragmentView {
            cooked: match self.cooked {
                Some(s) => Some(s@),
                None => None,
            },
            tail: self.tail,
        }
    }
}

/// The views of the fragments `v`.
pub open spec fn fragment_views(v: Seq<TemplateFragment>) -> Seq<FragmentView> {
    Seq::new(v.len(), |i: int| v[i]@)
}

/// Whether the value of the attribute that `m` matches has a replacement.
pub open spec fn is_replaceable(replacements: Map<Seq<char>, Seq<char>>, m: CapturedView) -> bool {
    group(m, 2) matches Some(value) && replacements.contains_key(value)
}

/// How far a fragment is split after some of its attributes: the pieces
/// that are done, what the expressions between them name, and the text of
/// the piece that is being put together.
pub struct SplitProgress {
    pub pieces: Seq<Seq<char>>,
    pub replacements: Seq<Seq<char>>,
    pub open: Seq<char>,
}

/// The split of a fragment after the first `n` matches of the attribute
/// pattern. At an attribute whose value has a replacement the piece ends
/// with `src="`, an expression for the replacement follows, and the next
/// piece starts with `"`. Any other attribute stays in its piece, and so
/// does the text between the attributes.
pub open spec fn split_upto(
    replacements: Map<Seq<char>, Seq<char>>,
    matches: Seq<CapturedView>,
    n: int,
) -> SplitProgress
    decreases n,
{
    if n <= 0 {
        SplitProgress { pieces: Seq::empty(), replacements: Seq::empty(), open: Seq::empty() }
    } else {
        let before = split_upto(replacements, matches, n - 1);
        let text = before.open + text_between(matches, n - 1);
        if is_replaceable(replacements, matches[n - 1]) {
            SplitProgress {
                pieces: before.pieces.push(text + "src=\""@),
                replacements: before.replacements.push(replacements[group(matches[n - 1], 2)->0]),
                open: "\""@,
            }
        } else {
            SplitProgress {
                pieces: before.pieces,
                replacements: before.replacements,
                open: text + matched_text(matches[n - 1]),
            }
        }
    }
}

/// A fragment that is split: its pieces, one more than there are
/// expressions, and what the expression after each piece but the last
/// names.
pub struct SplitView {
    pub pieces: Seq<Seq<char>>,
    pub replacements: Seq<Seq<char>>,
}

/// The split of a fragment given the matches of the attribute pattern in
/// it: at every match whose value has a replacement, if there is one; the
/// last piece ends with what stands after the last match.
pub open spec fn split_of_matches(
    replacements: Map<Seq<char>, Seq<char>>,
    matches: Seq<CapturedView>,
) -> Option<SplitView> {
    let done = split_upto(replacements, matches, matches.len() as int);
    if done.replacements.len() > 0 {
        Some(
            SplitView {
                pieces: done.pieces.push(done.open + matches.last().after),
                replacements: done.replacements,
            },
        )
    } else {
        None
    }
}

/// The split of a fragment with the text `cooked`.
pub open spec fn split_of(replacements: Map<Seq<char>, Seq<char>>, cooked: Seq<char>) -> Option<
    SplitView,
> {
    if is_valid_pattern(SRC_ATTRIBUTE@) {
        split_of_matches(replacements, all_matches(SRC_ATTRIBUTE@, cooked))
    } else {
        None
    }
}

/// What becomes of one fragment of a template: it stays, or it is split
/// into pieces with an expression between each two of them.
#[derive(Debug)]
pub enum FragmentPlan {
    /// The fragment stays as it is.
    Keep,
    /// The fragment gives way to `pieces`; after each piece but the last
    /// stands the URL, relative to the module, of the path at the same
    /// index of `replacements`.
    Split { pieces: Vec<TemplateFragment>, replacements: Vec<String> },
}

/// A plan as a mathematical value.
pub enum PlanView {
    Keep,
    Split { pieces: Seq<FragmentView>, replacements: Seq<Seq<char>> },
}

impl View for FragmentPlan {
    type V = PlanView;

    open spec fn view(&self) -> PlanView {
        match self {
            FragmentPlan::Keep => PlanView::Keep,
            FragmentPlan::Split { pieces, replacements } => PlanView::Split {
                pieces: fragment_views(pieces@),
                replacements: strings(replacements@),
            },
        }
    }
}

/// The views of the plans `v`.
pub open spec fn plan_views(v: Seq<FragmentPlan>) -> Seq<PlanView> {
    Seq::new(v.len(), |i: int| v[i]@)
}

/// The pieces of a split fragment as fragments: none but the last ends
/// the template, and the last does if the fragment did.
pub open spec fn piece_fragments(pieces: Seq<Seq<char>>, tail: bool) -> Seq<FragmentView> {
    Seq::new(
        pieces.len(),
        |k: int| FragmentView { cooked: Some(pieces[k]), tail: tail && k == pieces.len() - 1 },
    )
}

/// The plan for a fragment: a fragment with a text that is split gives
/// its pieces; any other fragment stays.
pub open spec fn plan_of(replacements: Map<Seq<char>, Seq<char>>, fragment: FragmentView) -> PlanView {
    let split = match fragment.cooked {
        Some(cooked) => split_of(replacements, cooked),
        None => None,
    };
    match split {
        Some(s) => PlanView::Split {
            pieces: piece_fragments(s.pieces, fragment.tail),
            replacements: s.replacements,
        },
        None => PlanView::Keep,
    }
}

/// The plans for the fragments of a template, one for each fragment.
pub open spec fn plans_of(replacements: Map<Seq<char>, Seq<char>>, quasis: Seq<FragmentView>) -> Seq<
    PlanView,
> {
    Seq::new(quasis.len(), |i: int| plan_of(replacements, quasis[i]))
}

/// Whether one of the first `n` plans splits its fragment.
pub open spec fn any_split(plans: Seq<PlanView>, n: int) -> bool {
    exists|i: int| 0 <= i < n && (#[trigger] plans[i]) is Split
}

/// The pieces of a split fragment and the paths that the expressions
/// between them name.
#[derive(Debug)]
pub struct FragmentSplit {
    pub pieces: Vec<String>,
    pub replacements: Vec<String>,
}

impl View for FragmentSplit {
    type V = SplitView;

    open spec fn view(&self) -> SplitView {
        SplitView { pieces: strings(self.pieces@), replacements: strings(self.replacements@) }
    }
}

/// Splits a fragment given the matches of the attribute pattern in it.
pub fn split_fragment(replacements: &ReplacementMap, matches: &Vec<Captured>) -> (r: Option<
    FragmentSplit,
>)
    ensures
        match r {
            Some(s) => split_of_matches(replacements@, captured_views(matches@)) == Some(s@)
                && s.pieces@.len() == s.replacements@.len() + 1,
            None => split_of_matches(replacements@, captured_views(matches@)) is None,
        },
{
    let ghost views = captured_views(matches@);
    let attribute = to_chars("src=\"");
    let quote = to_chars("\"");
    let mut pieces: Vec<String> = Vec::new();
    let mut paths: Vec<String> = Vec::new();
    let mut open: Vec<char> = Vec::new();
    let mut i: usize = 0;
    assert(strings(pieces@) =~= Seq::empty());
    assert(strings(paths@) =~= Seq::empty());
    while i < matches.len()
        invariant
            i <= matches.len(),
            views == captured_views(matches@),
            attribute@ == "src=\""@,
            quote@ == "\""@,
            pieces.len() == paths.len(),
            strings(pieces@) == split_upto(replacements@, views, i as int).pieces,
            strings(paths@) == split_upto(replacements@, views, i as int).replacements,
            open@ == split_upto(replacements@, views, i as int).open,
        decreases matches.len() - i,
    {
        let m = &matches[i];
        assert(views[i as int] == m@);
        let ghost pieces_before = strings(pieces@);
        let ghost paths_before = strings(paths@);
        let text = append_chars(&open, &text_between_of(matches, i));
        let mut path: Option<String> = None;
        if 2 < m.groups.len() {
            if let Some(value) = &m.groups[2] {
                if let Some(replacement) = replacements.get(value.as_str()) {
                    path = Some(replacement.clone());
                }
            }
        }
        match path {
            Some(path) => {
                let piece = from_chars(&append_chars(&text, &attribute));
                let ghost piece_view = piece@;
                let ghost path_view = path@;
                pieces.push(piece);
                paths.push(path);
                open = to_chars("\"");
                assert(strings(pieces@) =~= pieces_before.push(piece_view));
                assert(strings(paths@) =~= paths_before.push(path_view));
            },
            None => {
                open = append_chars(&text, &to_chars(matched_text_of(m).as_str()));
            },
        }
        i += 1;
    }
    if paths.len() > 0 {
        assert(views[matches.len() - 1] == matches@[matches.len() - 1]@);
        let after = to_chars(matches[matches.len() - 1].after.as_str());
        let last = from_chars(&append_chars(&open, &after));
        let ghost pieces_before = strings(pieces@);
        let ghost last_view = last@;
        pieces.push(last);
        assert(strings(pieces@) =~= pieces_before.push(last_view));
        Some(FragmentSplit { pieces, replacements: paths })
    } else {
        None
    }
}

fn fragments_of(pieces: &Vec<String>, tail: bool) -> (r: Vec<TemplateFragment>)
    ensures
        fragment_views(r@) == piece_fragments(strings(pieces@), tail),
{
    let mut out: Vec<TemplateFragment> = Vec::new();
    let mut k: usize = 0;
    while k < pieces.len()
        invariant
            k <= pieces.len(),
            out.len() == k,
            forall|j: int|
                0 <= j < k ==> (#[trigger] out@[j])@ == (FragmentView {
                    cooked: Some(pieces@[j]@),
                    tail: tail && j == pieces.len() - 1,
                }),
        decreases pieces.len() - k,
    {
        out.push(
            TemplateFragment { cooked: Some(pieces[k].clone()), tail: tail && k == pieces.len() - 1 },
        );
        k += 1;
    }
    assert(fragment_views(out@) =~= piece_fragments(strings(pieces@), tail));
    out
}

/// Rewrites the asset references of a script.
pub struct IconTemplateImportTransformer<'a> {
    path_replacements: &'a ReplacementMap,
    made_replacements: bool,
}

impl<'a> IconTemplateImportTransformer<'a> {
    /// The replacement map that the transformer works with.
    pub closed spec fn replacements(&self) -> Map<Seq<char>, Seq<char>> {
        self.path_replacements@
    }

    /// Whether the transformer rewrote a reference.
    pub closed spec fn made_replacements(&self) -> bool {
        self.made_replacements
    }

    /// A transformer that works with `path_replacements`.
    pub fn new(path_replacements: &'a ReplacementMap) -> (r: Self)
        ensures
            r.replacements() == path_replacements@,
            !r.made_replacements(),
    {
        IconTemplateImportTransformer { path_replacements, made_replacements: false }
    }

    /// Whether the transformer rewrote a reference.
    pub fn build(&self) -> (r: bool)
        ensures
            r == self.made_replacements(),
    {
        self.made_replacements
    }

    /// Sees a string literal that is an element of an array, or the value
    /// or the key of an object property, and gives the path whose URL takes
    /// its place, if the literal has a replacement.
    pub fn replacement_for(&mut self, value: &str) -> (r: Option<String>)
        ensures
            final(self).replacements() == old(self).replacements(),
            match r {
                Some(path) => old(self).replacements().contains_key(value@) && path@ == old(self).replacements()[value@] && final(self).made_replacements(),
                None => !old(self).replacements().contains_key(value@) && final(self).made_replacements() == old(self).made_replacements(),
            },
    {
        match self.path_replacements.get(value) {
            Some(path) => {
                self.made_replacements = true;
                Some(path.clone())
            },
            None => None,
        }
    }

    /// Splits the fragment with the text `cooked` at each `src` or
    /// `iconsrc` attribute whose value has a replacement.
    pub fn replace_src_with_url_expression(&self, cooked: &str) -> (r: Option<FragmentSplit>)
        ensures
            match r {
                Some(s) => split_of(self.replacements(), cooked@) == Some(s@),
                None => split_of(self.replacements(), cooked@) is None,
            },
    {
        match compile(SRC_ATTRIBUTE) {
            Some(re) => {
                let matches = captures_iter(&re, cooked);
                split_fragment(self.path_replacements, &matches)
            },
            None => None,
        }
    }

    /// Sees the fragments of an `html` template and gives the plan for
    /// each of them.
    pub fn process_html_template(&mut self, quasis: &Vec<TemplateFragment>) -> (r: Vec<
        FragmentPlan,
    >)
        ensures
            final(self).replacements() == old(self).replacements(),
            plan_views(r@) == plans_of(old(self).replacements(), fragment_views(quasis@)),
            final(self).made_replacements() == (old(self).made_replacements() || any_split(
                plan_views(r@),
                r@.len() as int,
            )),
    {
        let ghost map = self.replacements();
        let ghost views = fragment_views(quasis@);
        let mut out: Vec<FragmentPlan> = Vec::new();
        let mut split_any = false;
        let mut i: usize = 0;
        while i < quasis.len()
            invariant
                i <= quasis.len(),
                map == self.replacements(),
                self.made_replacements() == old(self).made_replacements(),
                views == fragment_views(quasis@),
                out.len() == i,
                forall|k: int| 0 <= k < i ==> (#[trigger] out@[k])@ == plan_of(map, views[k]),
                split_any == any_split(plan_views(out@), i as int),
            decreases quasis.len() - i,
        {
            let ghost plans_before = plan_views(out@);
            let fragment = &quasis[i];
            assert(views[i as int] == fragment@);
            let split = match &fragment.cooked {
                Some(cooked) => self.replace_src_with_url_expression(cooked.as_str()),
                None => None,
            };
            let plan = match split {
                Some(s) => {
                    split_any = true;
                    FragmentPlan::Split {
                        pieces: fragments_of(&s.pieces, fragment.tail),
                        replacements: s.replacements,
                    }
                },
                None => FragmentPlan::Keep,
            };
            out.push(plan);
            proof {
                assert(forall|k: int| 0 <= k < i ==> plan_views(out@)[k] == plans_before[k]);
                assert(plan_views(out@)[i as int] == out@[i as int]@);
                if any_split(plans_before, i as int) {
                    let w = choose|w: int| 0 <= w < i && (#[trigger] plans_before[w]) is Split;
                    assert(plan_views(out@)[w] is Split);
                }
                if any_split(plan_views(out@), i + 1) {
                    let w = choose|w: int| 0 <= w < i + 1 && (#[trigger] plan_views(out@)[w]) is Split;
                    if w < i {
                        assert(plans_before[w] is Split);
                    }
                }
            }
            i += 1;
        }
        if split_any {
            self.made_replacements = true;
        }
        assert(plan_views(out@) =~= plans_of(map, views));
        out
    }
}

} // verus!
