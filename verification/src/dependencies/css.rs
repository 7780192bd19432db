//! The references of a stylesheet: its `url(...)` values and the targets
//! of its `@import` rules.

use crate::text::strings;
use crate::transform::css::{clean_url, is_external, should_transform_url, url_base};
use vstd::prelude::*;

verus! {

/// The references collected so far with the URL `url` added: an external
/// URL adds nothing, any other adds its base unless it is there already.
pub open spec fn with_reference(found: Seq<Seq<char>>, url: Seq<char>) -> Seq<Seq<char>> {
    if is_external(url) || found.contains(url_base(url)) {
        found
    } else {
        found.push(url_base(url))
    }
}

/// Those of the first `n` references that are not empty.
pub open spec fn non_empty_upto(found: Seq<Seq<char>>, n: int) -> Seq<Seq<char>>
    decreases n,
{
    if n <= 0 {
        Seq::empty()
    } else if found[n - 1].len() > 0 {
        non_empty_upto(found, n - 1).push(found[n - 1])
    } else {
        non_empty_upto(found, n - 1)
    }
}

/// The references that are not empty.
pub open spec fn non_empty(found: Seq<Seq<char>>) -> Seq<Seq<char>> {
    non_empty_upto(found, found.len() as int)
}

fn add_reference(found: &mut Vec<String>, url: &str)
    ensures
        strings(final(found)@) == with_reference(strings(old(found)@), url@),
{
    if !should_transform_url(url) {
        return ;
    }
    let clean = clean_url(url);
    let ghost before = strings(found@);
    let mut i: usize = 0;
    while i < found.len()
        invariant
            i <= found.len(),
            found@ == old(found)@,
            before == strings(found@),
            clean@ == url_base(url@),
            forall|k: int| 0 <= k < i ==> before[k] != clean@,
        decreases found.len() - i,
    {
        if found[i] == clean {
            assert(before[i as int] == clean@);
            return ;
        }
        i += 1;
    }
    found.push(clean);
    assert(strings(found@) =~= before.push(url_base(url@)));
}

fn append_non_empty(out: &mut Vec<String>, found: &Vec<String>)
    ensures
        strings(final(out)@) == strings(old(out)@) + non_empty(strings(found@)),
{
    let ghost start = strings(out@);
    let mut i: usize = 0;
    assert(strings(out@) =~= start + non_empty_upto(strings(found@), 0));
    while i < found.len()
        invariant
            i <= found.len(),
            strings(out@) == start + non_empty_upto(strings(found@), i as int),
        decreases found.len() - i,
    {
        let ghost before = strings(out@);
        assert(strings(found@)[i as int] == found@[i as int]@);
        if !found[i].as_str().is_empty() {
            out.push(found[i].clone());
            assert(strings(out@) =~= before.push(found@[i as int]@));
            assert(strings(out@) =~= start + non_empty_upto(strings(found@), i + 1));
        }
        i += 1;
    }
}

/// Collects the `url(...)` references of a stylesheet.
pub struct UrlVisitor {
    pub dependencies: Vec<String>,
}

impl UrlVisitor {
    /// A collector that has seen nothing.
    pub fn new() -> (r: Self)
        ensures
            r.dependencies@ == Seq::<String>::empty(),
    {
        UrlVisitor { dependencies: Vec::new() }
    }

    /// Takes note of the reference `url`.
    pub fn add_dependency(&mut self, url: &str)
        ensures
            strings(final(self).dependencies@) == with_reference(
                strings(old(self).dependencies@),
                url@,
            ),
    {
        add_reference(&mut self.dependencies, url);
    }
}

/// Collects the targets of the `@import` rules of a stylesheet.
pub struct RuleVisitor {
    pub dependencies: Vec<String>,
}

impl RuleVisitor {
    /// A collector that has seen nothing.
    pub fn new() -> (r: Self)
        ensures
            r.dependencies@ == Seq::<String>::empty(),
    {
        RuleVisitor { dependencies: Vec::new() }
    }

    /// Takes note of the import target `url`.
    pub fn add_dependency(&mut self, url: &str)
        ensures
            strings(final(self).dependencies@) == with_reference(
                strings(old(self).dependencies@),
                url@,
            ),
    {
        add_reference(&mut self.dependencies, url);
    }
}

/// The dependencies of a stylesheet: the references that are not empty,
/// those of `url(...)` values first, then those of `@import` rules.
pub fn combine_dependencies(urls: &UrlVisitor, rules: &RuleVisitor) -> (r: Vec<String>)
    ensures
        strings(r@) == non_empty(strings(urls.dependencies@)) + non_empty(
            strings(rules.dependencies@),
        ),
{
    let mut out: Vec<String> = Vec::new();
    assert(strings(out@) =~= Seq::empty());
    append_non_empty(&mut out, &urls.dependencies);
    append_non_empty(&mut out, &rules.dependencies);
    assert(strings(out@) =~= non_empty(strings(urls.dependencies@)) + non_empty(
        strings(rules.dependencies@),
    ));
    out
}

} // verus!
