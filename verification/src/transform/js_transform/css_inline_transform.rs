//! The inlining of stylesheets: link tags leave the templates of a class,
//! and the class gets a static field with the stylesheets' text.

use crate::patterns::{
    all_matches, captured_views, captures, captures_iter, compile, first_match, group,
    group_views, is_valid_pattern, matched_text, matched_text_of, text_between, text_between_of,
    Captured, CapturedView,
};
use crate::replacements::ReplacementMap;
use crate::text::{append_chars, contains_seq, from_chars, occurs_at, strings, to_chars};
use vstd::prelude::*;

verus! {

/// A `<link>` tag with an `href`; group 1 is the value of the `href`.
pub const LINK_HREF: &'static str = r#"<link[^>]*href\s*=\s*["']([^"']+)["'][^>]*/?>"#;

/// A `<link>` tag with `rel="stylesheet"`, with the white space after it.
pub const STYLESHEET_TAG_AND_SPACE: &'static str =
    r#"<link[^>]*rel\s*=\s*["']stylesheet["'][^>]*/?>\s*"#;

/// The `href` of the first link tag of a text.
pub open spec fn link_href(text: Seq<char>) -> Option<Seq<char>> {
    if is_valid_pattern(LINK_HREF@) {
        match first_match(LINK_HREF@, text) {
            Some(m) => group(m, 1),
            None => None,
        }
    } else {
        None
    }
}

/// The stylesheet link tags of a text, one after the other.
pub open spec fn link_tags(text: Seq<char>) -> Seq<CapturedView> {
    if is_valid_pattern(STYLESHEET_TAG_AND_SPACE@) {
        all_matches(STYLESHEET_TAG_AND_SPACE@, text)
    } else {
        Seq::empty()
    }
}

/// The `href` of each of the tags, where the tag has one.
pub open spec fn tag_hrefs(tags: Seq<CapturedView>) -> Seq<Option<Seq<char>>> {
    Seq::new(tags.len(), |i: int| link_href(matched_text(tags[i])))
}

/// Whether tag `i` is cut out: its `href` names a stylesheet that is
/// inlined.
pub open spec fn is_cut(
    inlines: Map<Seq<char>, Seq<char>>,
    hrefs: Seq<Option<Seq<char>>>,
    i: int,
) -> bool {
    0 <= i < hrefs.len() && hrefs[i] is Some && inlines.contains_key(hrefs[i]->0)
}

/// Whether one of the first `n` tags is cut out.
pub open spec fn any_cut(
    inlines: Map<Seq<char>, Seq<char>>,
    hrefs: Seq<Option<Seq<char>>>,
    n: int,
) -> bool
    decreases n,
{
    n > 0 && (any_cut(inlines, hrefs, n - 1) || is_cut(inlines, hrefs, n - 1))
}

/// The stylesheets referenced so far with `href` among them, each once.
pub open spec fn with_href(referenced: Seq<Seq<char>>, href: Seq<char>) -> Seq<Seq<char>> {
    if referenced.contains(href) {
        referenced
    } else {
        referenced.push(href)
    }
}

/// The stylesheets referenced after the first `n` tags: the `href` of
/// each tag that is cut out is taken note of, in the order of the tags.
pub open spec fn referenced_upto(
    inlines: Map<Seq<char>, Seq<char>>,
    referenced: Seq<Seq<char>>,
    hrefs: Seq<Option<Seq<char>>>,
    n: int,
) -> Seq<Seq<char>>
    decreases n,
{
    if n <= 0 {
        referenced
    } else if is_cut(inlines, hrefs, n - 1) {
        with_href(referenced_upto(inlines, referenced, hrefs, n - 1), hrefs[n - 1]->0)
    } else {
        referenced_upto(inlines, referenced, hrefs, n - 1)
    }
}

/// The text up to the end of tag `n - 1`, without the tags that are cut
/// out: what stands between the tags stays, and so does every other tag.
pub open spec fn kept_upto(
    inlines: Map<Seq<char>, Seq<char>>,
    tags: Seq<CapturedView>,
    hrefs: Seq<Option<Seq<char>>>,
    n: int,
) -> Seq<char>
    decreases n,
{
    if n <= 0 {
        Seq::empty()
    } else {
        kept_upto(inlines, tags, hrefs, n - 1) + text_between(tags, n - 1) + (if is_cut(
            inlines,
            hrefs,
            n - 1,
        ) {
            Seq::empty()
        } else {
            matched_text(tags[n - 1])
        })
    }
}

/// The text without the tags that are cut out, if one is cut out: the
/// text kept up to the last tag, and what stands after it.
pub open spec fn text_after_cuts(
    inlines: Map<Seq<char>, Seq<char>>,
    tags: Seq<CapturedView>,
    hrefs: Seq<Option<Seq<char>>>,
) -> Option<Seq<char>> {
    if any_cut(inlines, hrefs, tags.len() as int) {
        Some(kept_upto(inlines, tags, hrefs, tags.len() as int) + tags.last().after)
    } else {
        None
    }
}

/// What the pass knows inside a class: the stylesheets that its templates
/// referenced, in the order in which they were met, and whether a fragment
/// was changed; and over the module, whether a class got its field.
pub struct InlineState {
    pub referenced: Seq<Seq<char>>,
    pub changed: bool,
    pub made_replacements: bool,
}

/// The state after a text with the tags `tags`, whose `href`s are
/// `hrefs`.
pub open spec fn after_tags(
    inlines: Map<Seq<char>, Seq<char>>,
    st: InlineState,
    tags: Seq<CapturedView>,
    hrefs: Seq<Option<Seq<char>>>,
) -> InlineState {
    InlineState {
        referenced: referenced_upto(inlines, st.referenced, hrefs, tags.len() as int),
        changed: st.changed || any_cut(inlines, hrefs, tags.len() as int),
        made_replacements: st.made_replacements,
    }
}

/// The state after a template fragment with the text `cooked`: each
/// stylesheet link tag of the fragment whose `href` names an inlined
/// stylesheet is taken note of.
pub open spec fn after_fragment(
    inlines: Map<Seq<char>, Seq<char>>,
    st: InlineState,
    cooked: Seq<char>,
) -> InlineState {
    after_tags(inlines, st, link_tags(cooked), tag_hrefs(link_tags(cooked)))
}

/// The new text of a template fragment, if the fragment changes: the
/// fragment without the stylesheet link tags whose `href` names an inlined
/// stylesheet.
pub open spec fn fragment_text(inlines: Map<Seq<char>, Seq<char>>, cooked: Seq<char>) -> Option<
    Seq<char>,
> {
    text_after_cuts(inlines, link_tags(cooked), tag_hrefs(link_tags(cooked)))
}

/// The texts of the fragments `v`, where they have one.
pub open spec fn fragment_views(v: Seq<Option<String>>) -> Seq<Option<Seq<char>>> {
    Seq::new(
        v.len(),
        |i: int|
            match v[i] {
                Some(s) => Some(s@),
                None => None,
            },
    )
}

/// The state after the first `n` fragments of a template.
pub open spec fn after_fragments(
    inlines: Map<Seq<char>, Seq<char>>,
    st: InlineState,
    quasis: Seq<Option<Seq<char>>>,
    n: int,
) -> InlineState
    decreases n,
{
    if n <= 0 {
        st
    } else {
        let before = after_fragments(inlines, st, quasis, n - 1);
        match quasis[n - 1] {
            Some(cooked) => after_fragment(inlines, before, cooked),
            None => before,
        }
    }
}

/// The fragments of a template after the pass: a fragment that links
/// inlined stylesheets loses the tags that link them.
pub open spec fn rewritten_fragments(
    inlines: Map<Seq<char>, Seq<char>>,
    quasis: Seq<Option<Seq<char>>>,
) -> Seq<Option<Seq<char>>> {
    Seq::new(
        quasis.len(),
        |i: int|
            match quasis[i] {
                Some(cooked) => match fragment_text(inlines, cooked) {
                    Some(text) => Some(text),
                    None => Some(cooked),
                },
                None => None,
            },
    )
}

/// Whether one of the first `n` fragments changes.
pub open spec fn any_changed(
    inlines: Map<Seq<char>, Seq<char>>,
    quasis: Seq<Option<Seq<char>>>,
    n: int,
) -> bool {
    exists|i: int|
        0 <= i < n && (#[trigger] quasis[i]) is Some && fragment_text(inlines, quasis[i]->0)
            is Some
}

/// The text of the first `n` referenced stylesheets, each after a comment
/// that names it: `/* From <href> */`, a line feed, the stylesheet, a line
/// feed.
pub open spec fn combined_css_upto(
    inlines: Map<Seq<char>, Seq<char>>,
    referenced: Seq<Seq<char>>,
    n: int,
) -> Seq<char>
    decreases n,
{
    if n <= 0 {
        Seq::empty()
    } else if inlines.contains_key(referenced[n - 1]) {
        combined_css_upto(inlines, referenced, n - 1) + "/* From "@ + referenced[n - 1] + " */\n"@
            + inlines[referenced[n - 1]] + "\n"@
    } else {
        combined_css_upto(inlines, referenced, n - 1)
    }
}

/// The text of the referenced stylesheets, in the order in which they
/// were met.
pub open spec fn combined_css(inlines: Map<Seq<char>, Seq<char>>, referenced: Seq<Seq<char>>) -> Seq<
    char,
> {
    combined_css_upto(inlines, referenced, referenced.len() as int)
}

/// What one stylesheet adds to the text of the field: a comment that
/// names it, a line feed, its text, a line feed.
pub open spec fn css_piece(inlines: Map<Seq<char>, Seq<char>>, href: Seq<char>) -> Seq<char> {
    "/* From "@ + href + " */\n"@ + inlines[href] + "\n"@
}

/// A stylesheet is referenced at most once: taking note of one more keeps
/// the referenced stylesheets distinct.
pub proof fn lemma_with_href_keeps_distinct(referenced: Seq<Seq<char>>, href: Seq<char>)
    requires
        referenced.no_duplicates(),
    ensures
        with_href(referenced, href).no_duplicates(),
        with_href(referenced, href).contains(href),
{
    if !referenced.contains(href) {
        let after = referenced.push(href);
        assert(after[referenced.len() as int] == href);
    }
}

/// The text of the field holds the piece of every referenced stylesheet
/// that is inlined: its comment and its text.
pub proof fn lemma_field_holds_each_stylesheet(
    inlines: Map<Seq<char>, Seq<char>>,
    referenced: Seq<Seq<char>>,
    n: int,
    i: int,
)
    requires
        0 <= i < n <= referenced.len(),
        inlines.contains_key(referenced[i]),
    ensures
        contains_seq(combined_css_upto(inlines, referenced, n), css_piece(inlines, referenced[i])),
    decreases n,
{
    let before = combined_css_upto(inlines, referenced, n - 1);
    let all = combined_css_upto(inlines, referenced, n);
    let piece = css_piece(inlines, referenced[i]);
    if i == n - 1 {
        assert(all =~= before + piece);
        assert(all.subrange(before.len() as int, (before.len() + piece.len()) as int) =~= piece);
        assert(occurs_at(all, piece, before.len() as int));
    } else {
        lemma_field_holds_each_stylesheet(inlines, referenced, n - 1, i);
        let at = choose|at: int| occurs_at(before, piece, at);
        if inlines.contains_key(referenced[n - 1]) {
            assert(all =~= before + css_piece(inlines, referenced[n - 1]));
        }
        assert(all.subrange(at, at + piece.len()) =~= before.subrange(at, at + piece.len()));
        assert(occurs_at(all, piece, at));
    }
}

/// The text of the field for a single stylesheet is its piece.
pub proof fn lemma_field_of_one_stylesheet(inlines: Map<Seq<char>, Seq<char>>, href: Seq<char>)
    requires
        inlines.contains_key(href),
    ensures
        combined_css(inlines, seq![href]) == css_piece(inlines, href),
{
    let referenced = seq![href];
    assert(combined_css_upto(inlines, referenced, 0) =~= Seq::<char>::empty());
    assert(combined_css_upto(inlines, referenced, 1) =~= css_piece(inlines, href));
}

/// Taking note of one more stylesheet loses none that was referenced.
pub proof fn lemma_with_href_keeps_all(referenced: Seq<Seq<char>>, href: Seq<char>, other: Seq<char>)
    requires
        referenced.contains(other),
    ensures
        with_href(referenced, href).contains(other),
{
    if !referenced.contains(href) {
        let i = choose|i: int| 0 <= i < referenced.len() && referenced[i] == other;
        assert(referenced.push(href)[i] == other);
    }
}

/// Every stylesheet whose link tag is cut out is referenced: each of the
/// first `n` tags that is cut out has its `href` among the stylesheets
/// referenced after them.
pub proof fn lemma_cut_stylesheets_are_referenced(
    inlines: Map<Seq<char>, Seq<char>>,
    referenced: Seq<Seq<char>>,
    hrefs: Seq<Option<Seq<char>>>,
    n: int,
    k: int,
)
    requires
        0 <= k < n,
        is_cut(inlines, hrefs, k),
    ensures
        referenced_upto(inlines, referenced, hrefs, n).contains(hrefs[k]->0),
    decreases n,
{
    let before = referenced_upto(inlines, referenced, hrefs, n - 1);
    if k == n - 1 {
        if !before.contains(hrefs[k]->0) {
            assert(before.push(hrefs[k]->0)[before.len() as int] == hrefs[k]->0);
        }
    } else {
        lemma_cut_stylesheets_are_referenced(inlines, referenced, hrefs, n - 1, k);
        if is_cut(inlines, hrefs, n - 1) {
            lemma_with_href_keeps_all(before, hrefs[n - 1]->0, hrefs[k]->0);
        }
    }
}

/// The referenced stylesheets stay distinct and inlined: if they were
/// before the tags, they are after them.
pub proof fn lemma_referenced_stay_distinct_and_inlined(
    inlines: Map<Seq<char>, Seq<char>>,
    referenced: Seq<Seq<char>>,
    hrefs: Seq<Option<Seq<char>>>,
    n: int,
)
    requires
        referenced.no_duplicates(),
        forall|i: int| 0 <= i < referenced.len() ==> inlines.contains_key(#[trigger] referenced[i]),
    ensures
        referenced_upto(inlines, referenced, hrefs, n).no_duplicates(),
        forall|i: int|
            0 <= i < referenced_upto(inlines, referenced, hrefs, n).len()
                ==> inlines.contains_key(
                #[trigger] referenced_upto(inlines, referenced, hrefs, n)[i],
            ),
    decreases n,
{
    if n > 0 {
        lemma_referenced_stay_distinct_and_inlined(inlines, referenced, hrefs, n - 1);
        if is_cut(inlines, hrefs, n - 1) {
            lemma_with_href_keeps_distinct(
                referenced_upto(inlines, referenced, hrefs, n - 1),
                hrefs[n - 1]->0,
            );
        }
    }
}

/// The static field `styles` that a class gets: an array that holds the
/// styles of the base class, if the class has one, spread before a `css`
/// template with the stylesheets' text.
#[derive(Debug)]
pub struct StylesField {
    pub base_class: Option<String>,
    pub css: String,
}

/// The field that a class gets when the walk leaves it: one field if a
/// fragment of the class was changed and the stylesheets' text is not
/// empty, else none.
pub open spec fn styles_css(inlines: Map<Seq<char>, Seq<char>>, st: InlineState) -> Option<
    Seq<char>,
> {
    if st.changed && combined_css(inlines, st.referenced).len() > 0 {
        Some(combined_css(inlines, st.referenced))
    } else {
        None
    }
}

/// The statements of a method body, as far as the pass tells them apart.
#[derive(Debug, Clone, Copy, PartialEq, Eq, Structural)]
pub enum StatementKind {
    Return,
    VariableDeclaration,
    Expression,
    Other,
}

/// The expressions that the pass tells apart.
#[derive(Debug, Clone, Copy, PartialEq, Eq, Structural)]
pub enum ExpressionKind {
    TaggedTemplate,
    Conditional,
    Binary,
    Logical,
    Assignment,
    Call,
    Other,
}

/// The parts of a statement or an expression that the pass may walk into.
#[derive(Debug, Clone, Copy, PartialEq, Eq, Structural)]
pub enum Operand {
    /// The value that a `return` statement returns.
    ReturnValue,
    /// The initializers of the declared variables, in order.
    Initializers,
    /// The expression of an expression statement.
    Statement,
    /// The fragments of a tagged template.
    Template,
    Test,
    Consequent,
    Alternate,
    Left,
    Right,
    /// The arguments of a call that are expressions, in order.
    Arguments,
}

/// The parts of a statement that the pass walks into: what is returned,
/// what variables are initialized with, and expression statements.
pub open spec fn walked_in_statement(kind: StatementKind) -> Seq<Operand> {
    match kind {
        StatementKind::Return => seq![Operand::ReturnValue],
        StatementKind::VariableDeclaration => seq![Operand::Initializers],
        StatementKind::Expression => seq![Operand::Statement],
        StatementKind::Other => Seq::empty(),
    }
}

/// The parts of an expression that the pass walks into, in order. Of a
/// tagged template the fragments are looked at if its tag is the
/// identifier `html`; an assignment is followed on its right side only.
pub open spec fn walked_in_expression(kind: ExpressionKind, tag: Option<Seq<char>>) -> Seq<Operand> {
    match kind {
        ExpressionKind::TaggedTemplate => if tag == Some("html"@) {
            seq![Operand::Template]
        } else {
            Seq::empty()
        },
        ExpressionKind::Conditional => seq![Operand::Test, Operand::Consequent, Operand::Alternate],
        ExpressionKind::Binary => seq![Operand::Left, Operand::Right],
        ExpressionKind::Logical => seq![Operand::Left, Operand::Right],
        ExpressionKind::Assignment => seq![Operand::Right],
        ExpressionKind::Call => seq![Operand::Arguments],
        ExpressionKind::Other => Seq::empty(),
    }
}

/// Whether a template tag is the identifier `html`.
pub fn is_html_tag(tag: &str) -> (r: bool)
    ensures
        r == (tag@ == "html"@),
{
    crate::text::str_eq(tag, "html")
}

/// The parts of a statement of a method body that the pass walks into.
pub fn process_statement(kind: StatementKind) -> (r: Vec<Operand>)
    ensures
        r@ == walked_in_statement(kind),
{
    let mut out: Vec<Operand> = Vec::new();
    match kind {
        StatementKind::Return => {
            out.push(Operand::ReturnValue);
        },
        StatementKind::VariableDeclaration => {
            out.push(Operand::Initializers);
        },
        StatementKind::Expression => {
            out.push(Operand::Statement);
        },
        StatementKind::Other => {},
    }
    assert(out@ =~= walked_in_statement(kind));
    out
}

/// The parts of an expression that the pass walks into; `tag` is the
/// identifier that tags a tagged template, if an identifier does.
pub fn process_expression(kind: ExpressionKind, tag: Option<&str>) -> (r: Vec<Operand>)
    ensures
        r@ == walked_in_expression(
            kind,
            match tag {
                Some(t) => Some(t@),
                None => None,
            },
        ),
{
    let mut out: Vec<Operand> = Vec::new();
    match kind {
        ExpressionKind::TaggedTemplate => {
            let html = match tag {
                Some(t) => is_html_tag(t),
                None => false,
            };
            if html {
                out.push(Operand::Template);
            }
        },
        ExpressionKind::Conditional => {
            out.push(Operand::Test);
            out.push(Operand::Consequent);
            out.push(Operand::Alternate);
        },
        ExpressionKind::Binary => {
            out.push(Operand::Left);
            out.push(Operand::Right);
        },
        ExpressionKind::Logical => {
            out.push(Operand::Left);
            out.push(Operand::Right);
        },
        ExpressionKind::Assignment => {
            out.push(Operand::Right);
        },
        ExpressionKind::Call => {
            out.push(Operand::Arguments);
        },
        ExpressionKind::Other => {},
    }
    assert(out@ =~= walked_in_expression(
        kind,
        match tag {
            Some(t) => Some(t@),
            None => None,
        },
    ));
    out
}

fn is_cut_exec(inlines: &ReplacementMap, hrefs: &Vec<Option<String>>, i: usize) -> (r: bool)
    ensures
        r == is_cut(inlines@, group_views(hrefs@), i as int),
{
    if i < hrefs.len() {
        assert(group_views(hrefs@)[i as int] == match hrefs@[i as int] {
            Some(h) => Some(h@),
            None => None,
        });
        match &hrefs[i] {
            Some(href) => inlines.contains_key(href.as_str()),
            None => false,
        }
    } else {
        false
    }
}

/// The text with the stylesheet link tags `tags`, whose `href`s are
/// `hrefs`, without the tags whose `href` names an inlined stylesheet, if
/// there is such a tag.
pub fn text_without_inlined_links(
    inlines: &ReplacementMap,
    tags: &Vec<Captured>,
    hrefs: &Vec<Option<String>>,
) -> (r: Option<String>)
    ensures
        match r {
            Some(text) => text_after_cuts(inlines@, captured_views(tags@), group_views(hrefs@))
                == Some(text@),
            None => text_after_cuts(inlines@, captured_views(tags@), group_views(hrefs@)) is None,
        },
{
    let ghost views = captured_views(tags@);
    let ghost href_views = group_views(hrefs@);
    let mut out: Vec<char> = Vec::new();
    let mut cut = false;
    let mut i: usize = 0;
    while i < tags.len()
        invariant
            i <= tags.len(),
            views == captured_views(tags@),
            href_views == group_views(hrefs@),
            out@ == kept_upto(inlines@, views, href_views, i as int),
            cut == any_cut(inlines@, href_views, i as int),
        decreases tags.len() - i,
    {
        assert(views[i as int] == tags@[i as int]@);
        let ghost kept = out@;
        out = append_chars(&out, &text_between_of(tags, i));
        if is_cut_exec(inlines, hrefs, i) {
            cut = true;
            assert(out@ =~= kept + text_between(views, i as int) + Seq::<char>::empty());
        } else {
            out = append_chars(&out, &to_chars(matched_text_of(&tags[i]).as_str()));
        }
        i += 1;
    }
    if cut {
        let after = to_chars(tags[tags.len() - 1].after.as_str());
        assert(views[tags.len() - 1] == tags@[tags.len() - 1]@);
        Some(from_chars(&append_chars(&out, &after)))
    } else {
        None
    }
}

/// Inlines the stylesheets that the templates of a class link.
pub struct CssInlineTransformer<'a> {
    css_replacements: &'a ReplacementMap,
    made_replacements: bool,
    changed: bool,
    referenced_hrefs: Vec<String>,
}

impl<'a> View for CssInlineTransformer<'a> {
    type V = InlineState;

    closed spec fn view(&self) -> InlineState {
        InlineState {
            referenced: strings(self.referenced_hrefs@),
            changed: self.changed,
            made_replacements: self.made_replacements,
        }
    }
}

impl<'a> CssInlineTransformer<'a> {
    /// The stylesheets to inline: from import text to stylesheet text.
    pub closed spec fn inlines(&self) -> Map<Seq<char>, Seq<char>> {
        self.css_replacements@
    }

    /// A transformer that inlines the stylesheets of `css_replacements`.
    pub fn new(css_replacements: &'a ReplacementMap) -> (r: Self)
        ensures
            r.inlines() == css_replacements@,
            r@ == (InlineState {
                referenced: Seq::empty(),
                changed: false,
                made_replacements: false,
            }),
    {
        let r = CssInlineTransformer {
            css_replacements,
            made_replacements: false,
            changed: false,
            referenced_hrefs: Vec::new(),
        };
        assert(r@.referenced =~= Seq::empty());
        r
    }

    /// Whether a class got its field.
    pub fn build(&self) -> (r: bool)
        ensures
            r == self@.made_replacements,
    {
        self.made_replacements
    }

    /// The `href` of the first link tag of a template text.
    pub fn extract_href_from_link_tag(&self, template_str: &str) -> (r: Option<String>)
        ensures
            match r {
                Some(href) => link_href(template_str@) == Some(href@),
                None => link_href(template_str@) is None,
            },
    {
        let re = match compile(LINK_HREF) {
            Some(re) => re,
            None => {
                return None;
            },
        };
        match captures(&re, template_str) {
            Some(m) => {
                if 1 < m.groups.len() {
                    match &m.groups[1] {
                        Some(href) => Some(href.clone()),
                        None => None,
                    }
                } else {
                    None
                }
            },
            None => None,
        }
    }

    /// The `href` of each of the tags `tags`, where the tag has one.
    pub fn link_hrefs(&self, tags: &Vec<Captured>) -> (r: Vec<Option<String>>)
        ensures
            group_views(r@) == tag_hrefs(captured_views(tags@)),
    {
        let mut out: Vec<Option<String>> = Vec::new();
        let mut i: usize = 0;
        assert(group_views(out@) =~= tag_hrefs(captured_views(tags@)).take(0));
        while i < tags.len()
            invariant
                i <= tags.len(),
                out.len() == i,
                group_views(out@) == tag_hrefs(captured_views(tags@)).take(i as int),
            decreases tags.len() - i,
        {
            let ghost before = group_views(out@);
            assert(captured_views(tags@)[i as int] == tags@[i as int]@);
            let text = matched_text_of(&tags[i]);
            let href = self.extract_href_from_link_tag(text.as_str());
            let ghost found = link_href(matched_text(tags@[i as int]@));
            out.push(href);
            assert(group_views(out@)[i as int] == match out@[i as int] {
                Some(h) => Some(h@),
                None => None,
            });
            assert(group_views(out@) =~= before.push(found));
            assert(before.push(found) =~= tag_hrefs(captured_views(tags@)).take(i + 1));
            i += 1;
        }
        assert(group_views(out@) =~= tag_hrefs(captured_views(tags@)));
        out
    }

    /// A template text without the stylesheet link tags whose `href`
    /// names an inlined stylesheet.
    pub fn remove_link_tag(&self, template_str: &str) -> (r: String)
        ensures
            r@ == match fragment_text(self.inlines(), template_str@) {
                Some(text) => text,
                None => template_str@,
            },
    {
        let re = match compile(STYLESHEET_TAG_AND_SPACE) {
            Some(re) => re,
            None => {
                proof {
                    assert(tag_hrefs(link_tags(template_str@)).len() == 0);
                }
                return from_chars(&to_chars(template_str));
            },
        };
        let tags = captures_iter(&re, template_str);
        let hrefs = self.link_hrefs(&tags);
        match text_without_inlined_links(self.css_replacements, &tags, &hrefs) {
            Some(text) => text,
            None => from_chars(&to_chars(template_str)),
        }
    }

    /// Enters a class: nothing is referenced yet, nothing changed.
    pub fn enter_class(&mut self)
        ensures
            final(self).inlines() == old(self).inlines(),
            final(self)@ == (InlineState {
                referenced: Seq::empty(),
                changed: false,
                made_replacements: old(self)@.made_replacements,
            }),
    {
        self.referenced_hrefs = Vec::new();
        self.changed = false;
        assert(self@.referenced =~= Seq::empty());
    }

    fn note_href(&mut self, href: String)
        ensures
            final(self).inlines() == old(self).inlines(),
            final(self)@ == (InlineState {
                referenced: with_href(old(self)@.referenced, href@),
                changed: true,
                made_replacements: old(self)@.made_replacements,
            }),
    {
        self.changed = true;
        let ghost before = strings(self.referenced_hrefs@);
        let mut i: usize = 0;
        while i < self.referenced_hrefs.len()
            invariant
                i <= self.referenced_hrefs.len(),
                self.referenced_hrefs@ == old(self).referenced_hrefs@,
                self.css_replacements == old(self).css_replacements,
                self.made_replacements == old(self).made_replacements,
                self.changed,
                before == strings(self.referenced_hrefs@),
                forall|k: int| 0 <= k < i ==> before[k] != href@,
            decreases self.referenced_hrefs.len() - i,
        {
            if self.referenced_hrefs[i] == href {
                assert(before[i as int] == href@);
                return ;
            }
            i += 1;
        }
        self.referenced_hrefs.push(href);
        assert(strings(self.referenced_hrefs@) =~= before.push(href@));
    }

    /// Sees a text with its stylesheet link tags `tags`, whose `href`s are
    /// `hrefs`: takes note of each stylesheet that a tag links and that is
    /// inlined, and gives the text without those tags, if there is one.
    pub fn cut_inlined_links(&mut self, tags: &Vec<Captured>, hrefs: &Vec<Option<String>>) -> (r:
        Option<String>)
        ensures
            final(self).inlines() == old(self).inlines(),
            final(self)@ == after_tags(
                old(self).inlines(),
                old(self)@,
                captured_views(tags@),
                group_views(hrefs@),
            ),
            match r {
                Some(text) => text_after_cuts(
                    old(self).inlines(),
                    captured_views(tags@),
                    group_views(hrefs@),
                ) == Some(text@),
                None => text_after_cuts(
                    old(self).inlines(),
                    captured_views(tags@),
                    group_views(hrefs@),
                ) is None,
            },
    {
        let ghost inlines = self.inlines();
        let ghost start = self@;
        let ghost views = group_views(hrefs@);
        let mut i: usize = 0;
        while i < tags.len()
            invariant
                i <= tags.len(),
                self.inlines() == inlines,
                views == group_views(hrefs@),
                self@ == (InlineState {
                    referenced: referenced_upto(inlines, start.referenced, views, i as int),
                    changed: start.changed || any_cut(inlines, views, i as int),
                    made_replacements: start.made_replacements,
                }),
            decreases tags.len() - i,
        {
            if i < hrefs.len() {
                assert(views[i as int] == match hrefs@[i as int] {
                    Some(h) => Some(h@),
                    None => None,
                });
                if let Some(href) = &hrefs[i] {
                    if self.css_replacements.contains_key(href.as_str()) {
                        self.note_href(href.clone());
                    }
                }
            }
            i += 1;
        }
        text_without_inlined_links(self.css_replacements, tags, hrefs)
    }

    /// Sees the text of one template fragment, and gives the text to put
    /// in its place if the fragment links a stylesheet that is inlined.
    pub fn process_fragment(&mut self, cooked: &str) -> (r: Option<String>)
        ensures
            final(self).inlines() == old(self).inlines(),
            final(self)@ == after_fragment(old(self).inlines(), old(self)@, cooked@),
            match r {
                Some(text) => fragment_text(old(self).inlines(), cooked@) == Some(text@),
                None => fragment_text(old(self).inlines(), cooked@) is None,
            },
    {
        let re = match compile(STYLESHEET_TAG_AND_SPACE) {
            Some(re) => re,
            None => {
                proof {
                    assert(tag_hrefs(link_tags(cooked@)).len() == 0);
                }
                return None;
            },
        };
        let tags = captures_iter(&re, cooked);
        let hrefs = self.link_hrefs(&tags);
        self.cut_inlined_links(&tags, &hrefs)
    }

    /// Sees the fragments of an `html` template, takes the link tags of
    /// inlined stylesheets out of them, and says whether a fragment changed.
    pub fn process_html_template(&mut self, quasis: &mut Vec<Option<String>>) -> (r: bool)
        ensures
            final(self).inlines() == old(self).inlines(),
            final(self)@ == after_fragments(
                old(self).inlines(),
                old(self)@,
                fragment_views(old(quasis)@),
                old(quasis)@.len() as int,
            ),
            fragment_views(final(quasis)@) == rewritten_fragments(
                old(self).inlines(),
                fragment_views(old(quasis)@),
            ),
            r == any_changed(
                old(self).inlines(),
                fragment_views(old(quasis)@),
                old(quasis)@.len() as int,
            ),
    {
        let ghost inlines = self.inlines();
        let ghost start = self@;
        let ghost given = fragment_views(quasis@);
        let mut found = false;
        let mut i: usize = 0;
        while i < quasis.len()
            invariant
                i <= quasis.len(),
                quasis.len() == given.len(),
                self.inlines() == inlines,
                self@ == after_fragments(inlines, start, given, i as int),
                found == any_changed(inlines, given, i as int),
                forall|k: int|
                    0 <= k < i ==> fragment_views(quasis@)[k] == rewritten_fragments(
                        inlines,
                        given,
                    )[k],
                forall|k: int| i <= k < quasis.len() ==> fragment_views(quasis@)[k] == given[k],
            decreases quasis.len() - i,
        {
            let ghost before = fragment_views(quasis@);
            assert(before[i as int] == given[i as int]);
            let new_text = match &quasis[i] {
                Some(cooked) => self.process_fragment(cooked.as_str()),
                None => None,
            };
            if let Some(text) = new_text {
                quasis.set(i, Some(text));
                found = true;
            }
            assert(forall|k: int|
                0 <= k < quasis.len() && k != i ==> fragment_views(quasis@)[k] == before[k]);
            i += 1;
        }
        assert(fragment_views(quasis@) =~= rewritten_fragments(inlines, given));
        found
    }

    /// The text of the stylesheets referenced in the class.
    pub fn combined_css_text(&self) -> (r: String)
        ensures
            r@ == combined_css(self.inlines(), self@.referenced),
    {
        let open = to_chars("/* From ");
        let close = to_chars(" */\n");
        let line_feed = to_chars("\n");
        let mut out: Vec<char> = Vec::new();
        let mut i: usize = 0;
        while i < self.referenced_hrefs.len()
            invariant
                i <= self.referenced_hrefs.len(),
                open@ == "/* From "@,
                close@ == " */\n"@,
                line_feed@ == "\n"@,
                out@ == combined_css_upto(self.inlines(), self@.referenced, i as int),
            decreases self.referenced_hrefs.len() - i,
        {
            let href = &self.referenced_hrefs[i];
            assert(self@.referenced[i as int] == href@);
            if let Some(css) = self.css_replacements.get(href.as_str()) {
                let a = append_chars(&out, &open);
                let b = append_chars(&a, &to_chars(href.as_str()));
                let c = append_chars(&b, &close);
                let d = append_chars(&c, &to_chars(css.as_str()));
                out = append_chars(&d, &line_feed);
            }
            i += 1;
        }
        from_chars(&out)
    }

    /// Leaves a class, whose base class is `super_class` if it names one,
    /// and gives the static field that the class gets, if it gets one.
    pub fn add_styles_property(&mut self, super_class: Option<&str>) -> (r: Option<StylesField>)
        ensures
            final(self).inlines() == old(self).inlines(),
            final(self)@.referenced == old(self)@.referenced,
            final(self)@.changed == old(self)@.changed,
            final(self)@.made_replacements == (old(self)@.made_replacements || r is Some),
            match r {
                Some(field) => styles_css(old(self).inlines(), old(self)@) == Some(field.css@)
                    && match super_class {
                    Some(name) => field.base_class matches Some(base) && base@ == name@,
                    None => field.base_class is None,
                },
                None => styles_css(old(self).inlines(), old(self)@) is None,
            },
    {
        if !self.changed {
            return None;
        }
        let css = self.combined_css_text();
        if css.as_str().is_empty() {
            return None;
        }
        self.made_replacements = true;
        let base_class = match super_class {
            Some(name) => Some(from_chars(&to_chars(name))),
            None => None,
        };
        Some(StylesField { base_class, css })
    }
}

} // verus!
