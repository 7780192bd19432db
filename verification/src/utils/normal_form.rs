//! Laws of the normal form of paths: a path in normal form has no `.`
//! component and no name followed by `..`, and bringing it into normal form
//! again changes nothing.

use crate::text::{index_of_from, lemma_index_of_from, split_char, split_char_from, trim};
use crate::utils::file_utils::{
    diff_paths_result, normalized, normalized_components, normalized_upto, relative_to,
};
use crate::utils::jar_resolver::is_internal;
use crate::utils::path_finder::{joined_import, resolution};
use crate::utils::paths::{
    components, cur_dir, is_absolute, is_normal, joined, joined_upto, kept_pieces, keeps_piece,
    parent_dir, push_path, root,
};
use vstd::prelude::*;

verus! {

/// Whether a text can be a component other than the root: it is not
/// empty and holds no separator.
pub open spec fn is_name_text(c: Seq<char>) -> bool {
    c.len() > 0 && !c.contains('/')
}

/// Whether `xs` can be the components of a path: the root stands first
/// or not at all, every other component is a text without separator, and
/// `.` stands first or not at all.
pub open spec fn is_split(xs: Seq<Seq<char>>) -> bool {
    &&& forall|i: int|
        0 <= i < xs.len() ==> ((#[trigger] xs[i]) == root() && i == 0) || is_name_text(xs[i])
    &&& forall|i: int| 0 < i < xs.len() ==> (#[trigger] xs[i]) != cur_dir()
}

/// Whether `xs` are the components of a path in normal form: components
/// of a path, none of them `.`, and `..` only at the start, after the root
/// or after another `..`.
pub open spec fn in_normal_form(xs: Seq<Seq<char>>) -> bool {
    &&& forall|i: int|
        0 <= i < xs.len() ==> ((#[trigger] xs[i]) == root() && i == 0) || is_name_text(xs[i])
    &&& forall|i: int| 0 <= i < xs.len() ==> (#[trigger] xs[i]) != cur_dir()
    &&& forall|i: int|
        0 < i < xs.len() && (#[trigger] xs[i]) == parent_dir() ==> !is_normal(xs[i - 1])
}

/// No piece of a text that is cut at a character holds that character.
pub proof fn lemma_pieces_hold_no_separator(s: Seq<char>, c: char, from: int)
    requires
        0 <= from <= s.len(),
    ensures
        forall|k: int|
            0 <= k < split_char_from(s, c, from).len() ==> !(#[trigger] split_char_from(
                s,
                c,
                from,
            )[k]).contains(c),
    decreases s.len() - from,
{
    let i = index_of_from(s, c, from);
    lemma_index_of_from(s, c, from);
    let all = split_char_from(s, c, from);
    if i >= s.len() {
        let piece = s.subrange(from, s.len() as int);
        assert forall|j: int| 0 <= j < piece.len() implies piece[j] != c by {
            assert(piece[j] == s[from + j]);
        }
        assert(all[0] == piece);
    } else {
        let piece = s.subrange(from, i);
        assert forall|j: int| 0 <= j < piece.len() implies piece[j] != c by {
            assert(piece[j] == s[from + j]);
        }
        lemma_pieces_hold_no_separator(s, c, i + 1);
        let rest = split_char_from(s, c, i + 1);
        assert forall|k: int| 0 <= k < all.len() implies !(#[trigger] all[k]).contains(c) by {
            if k == 0 {
                assert(all[0] == piece);
            } else {
                assert(all[k] == rest[k - 1]);
            }
        }
    }
}

/// The components among pieces without separator are texts without
/// separator, and `.` is among them only as the first piece.
pub proof fn lemma_kept_pieces(pieces: Seq<Seq<char>>, n: int)
    requires
        0 <= n <= pieces.len(),
        forall|k: int| 0 <= k < pieces.len() ==> !(#[trigger] pieces[k]).contains('/'),
    ensures
        forall|j: int|
            0 <= j < kept_pieces(pieces, n).len() ==> is_name_text(
                #[trigger] kept_pieces(pieces, n)[j],
            ),
        forall|j: int|
            0 <= j < kept_pieces(pieces, n).len() && (#[trigger] kept_pieces(pieces, n)[j])
                == cur_dir() ==> j == 0 && pieces[0] == cur_dir(),
    decreases n,
{
    if n > 0 {
        lemma_kept_pieces(pieces, n - 1);
        let before = kept_pieces(pieces, n - 1);
        let all = kept_pieces(pieces, n);
        if keeps_piece(pieces, n - 1) {
            assert(all =~= before.push(pieces[n - 1]));
            assert forall|j: int| 0 <= j < all.len() implies is_name_text(#[trigger] all[j]) by {
                if j < before.len() {
                    assert(all[j] == before[j]);
                }
            }
            assert forall|j: int| 0 <= j < all.len() && (#[trigger] all[j]) == cur_dir() implies j
                == 0 && pieces[0] == cur_dir() by {
                if j < before.len() {
                    assert(all[j] == before[j]);
                } else {
                    assert(n - 1 == 0);
                }
            }
        } else {
            assert(all =~= before);
        }
    }
}

/// The components of any path are components: the root first or not at
/// all, texts without separator, `.` first or not at all.
pub proof fn lemma_components_are_split(path: Seq<char>)
    ensures
        is_split(components(path)),
{
    let pieces = split_char(path, '/');
    lemma_pieces_hold_no_separator(path, '/', 0);
    lemma_kept_pieces(pieces, pieces.len() as int);
    let rest = kept_pieces(pieces, pieces.len() as int);
    let xs = components(path);
    assert(root().contains('/')) by {
        assert(root()[0] == '/');
    }
    if is_absolute(path) {
        assert(index_of_from(path, '/', 0) == 0);
        assert(pieces[0] =~= Seq::<char>::empty());
        assert(pieces[0] != cur_dir()) by {
            assert(cur_dir().len() == 1);
        }
        assert forall|i: int| 0 <= i < xs.len() implies ((#[trigger] xs[i]) == root() && i == 0)
            || is_name_text(xs[i]) by {
            if i > 0 {
                assert(xs[i] == rest[i - 1]);
            }
        }
        assert forall|i: int| 0 < i < xs.len() implies (#[trigger] xs[i]) != cur_dir() by {
            assert(xs[i] == rest[i - 1]);
        }
    }
}

/// Normalizing components gives components in normal form.
pub proof fn lemma_normalized_upto_form(comps: Seq<Seq<char>>, n: int)
    requires
        is_split(comps),
        0 <= n <= comps.len(),
    ensures
        in_normal_form(normalized_upto(comps, n)),
    decreases n,
{
    if n > 0 {
        lemma_normalized_upto_form(comps, n - 1);
        let stack = normalized_upto(comps, n - 1);
        let c = comps[n - 1];
        let after = normalized_upto(comps, n);
        if c == cur_dir() {
        } else if c == parent_dir() && stack.len() > 0 && is_normal(stack.last()) {
            assert(after =~= stack.drop_last());
            assert forall|i: int| 0 <= i < after.len() implies (#[trigger] after[i]) == stack[i] by {}
        } else {
            assert(after =~= stack.push(c));
            if n - 1 == 0 {
                assert(stack =~= Seq::<Seq<char>>::empty());
            }
            assert forall|i: int| 0 <= i < after.len() implies ((#[trigger] after[i]) == root() && i
                == 0) || is_name_text(after[i]) by {
                if i < stack.len() {
                    assert(after[i] == stack[i]);
                }
            }
            assert forall|i: int| 0 <= i < after.len() implies (#[trigger] after[i])
                != cur_dir() by {
                if i < stack.len() {
                    assert(after[i] == stack[i]);
                }
            }
            assert forall|i: int| 0 < i < after.len() && (#[trigger] after[i])
                == parent_dir() implies !is_normal(after[i - 1]) by {
                if i < stack.len() {
                    assert(after[i] == stack[i]);
                    assert(after[i - 1] == stack[i - 1]);
                } else {
                    assert(after[i - 1] == stack.last());
                }
            }
        }
    }
}

/// Normalizing components in normal form changes nothing.
pub proof fn lemma_normal_form_is_fixed(xs: Seq<Seq<char>>, n: int)
    requires
        in_normal_form(xs),
        0 <= n <= xs.len(),
    ensures
        normalized_upto(xs, n) == xs.take(n),
    decreases n,
{
    if n > 0 {
        lemma_normal_form_is_fixed(xs, n - 1);
        let stack = xs.take(n - 1);
        if n - 1 > 0 {
            assert(stack.last() == xs[n - 2]);
        }
        assert(xs[n - 1] != cur_dir());
        assert(normalized_upto(xs, n) =~= stack.push(xs[n - 1]));
        assert(stack.push(xs[n - 1]) =~= xs.take(n));
    } else {
        assert(xs.take(0) =~= Seq::<Seq<char>>::empty());
    }
}

/// The first occurrence of a character at or after `from` is at `at` if
/// the character stands there, or the text ends there, and does not stand
/// before.
pub proof fn lemma_index_is(s: Seq<char>, c: char, from: int, at: int)
    requires
        0 <= from <= at <= s.len(),
        forall|j: int| from <= j < at ==> s[j] != c,
        at < s.len() ==> s[at] == c,
    ensures
        index_of_from(s, c, from) == at,
{
    lemma_index_of_from(s, c, from);
}

/// A text and one more piece: cutting a text, a separator and a piece
/// without separator gives the pieces of the text and that piece.
pub proof fn lemma_split_append(a: Seq<char>, c: char, x: Seq<char>, from: int)
    requires
        0 <= from <= a.len(),
        !x.contains(c),
    ensures
        split_char_from(a + seq![c] + x, c, from) == split_char_from(a, c, from).push(x),
    decreases a.len() - from,
{
    let s = a + seq![c] + x;
    let ia = index_of_from(a, c, from);
    lemma_index_of_from(a, c, from);
    assert(s[a.len() as int] == c);
    assert forall|j: int| 0 <= j < a.len() implies s[j] == a[j] by {}
    assert forall|j: int| a.len() < j < s.len() implies s[j] != c by {
        assert(s[j] == x[j - a.len() - 1]);
    }
    if ia < a.len() {
        lemma_index_is(s, c, from, ia);
        lemma_split_append(a, c, x, ia + 1);
        assert(s.subrange(from, ia) =~= a.subrange(from, ia));
        assert(split_char_from(s, c, from) =~= split_char_from(a, c, from).push(x));
    } else {
        lemma_index_is(s, c, from, a.len() as int);
        let next = a.len() as int + 1;
        lemma_index_is(s, c, next, s.len() as int);
        assert(s.subrange(from, a.len() as int) =~= a.subrange(from, a.len() as int));
        assert(s.subrange(next, s.len() as int) =~= x);
        assert(split_char_from(s, c, next) =~= seq![x]);
        assert(split_char_from(s, c, from) =~= split_char_from(a, c, from).push(x));
    }
}

/// A text without separator is its own single piece.
pub proof fn lemma_split_of_piece(x: Seq<char>, c: char)
    requires
        !x.contains(c),
    ensures
        split_char(x, c) == seq![x],
{
    lemma_index_is(x, c, 0, x.len() as int);
    assert(x.subrange(0, x.len() as int) =~= x);
}

/// The pieces that the path made of the first `n` components in normal
/// form is cut into: the components themselves, with an empty piece for the
/// root, and one more after a root that stands alone.
pub open spec fn pieces_of_joined(xs: Seq<Seq<char>>, n: int) -> Seq<Seq<char>> {
    if n <= 0 {
        seq![Seq::<char>::empty()]
    } else if xs[0] == root() {
        if n == 1 {
            seq![Seq::<char>::empty(), Seq::<char>::empty()]
        } else {
            seq![Seq::<char>::empty()] + xs.subrange(1, n)
        }
    } else {
        xs.take(n)
    }
}

/// The path made of components in normal form is cut at its separators
/// into those components.
pub proof fn lemma_split_of_joined(xs: Seq<Seq<char>>, n: int)
    requires
        in_normal_form(xs),
        0 <= n <= xs.len(),
    ensures
        split_char(joined_upto(xs, n), '/') == pieces_of_joined(xs, n),
        n == 0 ==> joined_upto(xs, n).len() == 0,
        n >= 1 ==> joined_upto(xs, n).len() > 0,
        n >= 1 ==> (is_absolute(joined_upto(xs, n)) <==> xs[0] == root()),
        n == 1 && xs[0] == root() ==> joined_upto(xs, n) == root(),
        n >= 1 && !(n == 1 && xs[0] == root()) ==> joined_upto(xs, n).last() != '/',
    decreases n,
{
    let empty = Seq::<char>::empty();
    assert(split_char(empty, '/') =~= seq![empty]) by {
        lemma_split_of_piece(empty, '/');
    }
    if n > 0 {
        lemma_split_of_joined(xs, n - 1);
        let before = joined_upto(xs, n - 1);
        let x = xs[n - 1];
        let after = joined_upto(xs, n);
        assert(after == push_path(before, x));
        assert(root()[0] == '/');
        if n == 1 {
            if x == root() {
                assert(after == root());
                assert(root() =~= empty + seq!['/'] + empty);
                lemma_split_append(empty, '/', empty, 0);
                assert(split_char(after, '/') =~= pieces_of_joined(xs, n));
            } else {
                assert(is_name_text(x));
                assert(x[0] != '/');
                assert(after =~= x);
                lemma_split_of_piece(x, '/');
                assert(xs.take(1) =~= seq![x]);
                assert(x.last() != '/');
            }
        } else {
            assert(is_name_text(x));
            assert(x[0] != '/');
            assert(x.last() != '/');
            if n == 2 && xs[0] == root() {
                assert(before == root());
                assert(after =~= empty + seq!['/'] + x);
                lemma_split_append(empty, '/', x, 0);
                assert(seq![empty].push(x) =~= seq![empty] + xs.subrange(1, 2));
                assert(after[0] == '/');
            } else {
                assert(before.last() != '/');
                assert(after =~= before + seq!['/'] + x);
                lemma_split_append(before, '/', x, 0);
                assert(after[0] == before[0]);
                assert(after.last() == x.last());
                if xs[0] == root() {
                    assert((seq![empty] + xs.subrange(1, n - 1)).push(x) =~= seq![empty]
                        + xs.subrange(1, n));
                } else {
                    assert(xs.take(n - 1).push(x) =~= xs.take(n));
                }
            }
        }
    }
}

/// Of pieces that are components, all are kept.
pub proof fn lemma_all_pieces_kept(pieces: Seq<Seq<char>>, n: int)
    requires
        0 <= n <= pieces.len(),
        forall|i: int|
            0 <= i < pieces.len() ==> (#[trigger] pieces[i]).len() > 0 && pieces[i] != cur_dir(),
    ensures
        kept_pieces(pieces, n) == pieces.take(n),
    decreases n,
{
    if n > 0 {
        lemma_all_pieces_kept(pieces, n - 1);
        assert(keeps_piece(pieces, n - 1));
        assert(pieces.take(n - 1).push(pieces[n - 1]) =~= pieces.take(n));
    } else {
        assert(pieces.take(0) =~= Seq::<Seq<char>>::empty());
    }
}

/// Of an empty piece followed by components, the components are kept.
pub proof fn lemma_pieces_after_root_kept(pieces: Seq<Seq<char>>, n: int)
    requires
        1 <= n <= pieces.len(),
        pieces[0].len() == 0,
        forall|i: int|
            1 <= i < pieces.len() ==> (#[trigger] pieces[i]).len() > 0 && pieces[i] != cur_dir(),
    ensures
        kept_pieces(pieces, n) == pieces.subrange(1, n),
    decreases n,
{
    if n > 1 {
        lemma_pieces_after_root_kept(pieces, n - 1);
        assert(keeps_piece(pieces, n - 1));
        assert(pieces.subrange(1, n - 1).push(pieces[n - 1]) =~= pieces.subrange(1, n));
    } else {
        assert(!keeps_piece(pieces, 0));
        assert(kept_pieces(pieces, 0) =~= Seq::<Seq<char>>::empty());
        assert(pieces.subrange(1, 1) =~= Seq::<Seq<char>>::empty());
    }
}

/// Components in normal form are the components of the path that they
/// make.
pub proof fn lemma_components_of_joined(xs: Seq<Seq<char>>)
    requires
        in_normal_form(xs),
    ensures
        components(joined(xs)) == xs,
{
    let n = xs.len() as int;
    lemma_split_of_joined(xs, n);
    let path = joined(xs);
    let pieces = split_char(path, '/');
    let empty = Seq::<char>::empty();
    if n == 0 {
        assert(!keeps_piece(pieces, 0));
        assert(kept_pieces(pieces, 0) =~= Seq::<Seq<char>>::empty());
        assert(components(path) =~= xs);
    } else if xs[0] == root() {
        if n == 1 {
            assert(!keeps_piece(pieces, 0));
            assert(!keeps_piece(pieces, 1));
            assert(kept_pieces(pieces, 0) =~= Seq::<Seq<char>>::empty());
            assert(kept_pieces(pieces, 1) =~= Seq::<Seq<char>>::empty());
            assert(components(path) =~= xs);
        } else {
            assert forall|i: int| 1 <= i < pieces.len() implies (#[trigger] pieces[i]).len() > 0
                && pieces[i] != cur_dir() by {
                assert(pieces[i] == xs[i]);
                assert(root().contains('/')) by {
                    assert(root()[0] == '/');
                }
            }
            lemma_pieces_after_root_kept(pieces, n);
            assert(pieces.subrange(1, n) =~= xs.subrange(1, n));
            assert(seq![root()] + xs.subrange(1, n) =~= xs);
        }
    } else {
        assert(pieces =~= xs);
        assert forall|i: int| 0 <= i < pieces.len() implies (#[trigger] pieces[i]).len() > 0
            && pieces[i] != cur_dir() by {
            assert(pieces[i] == xs[i]);
            assert(xs[i] != root()) by {
                if i == 0 {
                } else {
                    assert(root().contains('/')) by {
                        assert(root()[0] == '/');
                    }
                }
            }
        }
        lemma_all_pieces_kept(pieces, n);
        assert(pieces.take(n) =~= xs);
    }
}

/// The normal form of a path has components in normal form: no `.`, and
/// `..` only at the start, after the root or after another `..`.
pub proof fn lemma_normalized_is_in_normal_form(path: Seq<char>)
    ensures
        in_normal_form(components(normalized(path))),
        components(normalized(path)) == normalized_components(components(path)),
{
    let comps = components(path);
    lemma_components_are_split(path);
    lemma_normalized_upto_form(comps, comps.len() as int);
    lemma_components_of_joined(normalized_components(comps));
}

/// Bringing a path into normal form twice gives what once gives.
pub proof fn lemma_normalize_is_idempotent(path: Seq<char>)
    ensures
        normalized(normalized(path)) == normalized(path),
{
    lemma_normalized_is_in_normal_form(path);
    let xs = normalized_components(components(path));
    lemma_normal_form_is_fixed(xs, xs.len() as int);
    assert(xs.take(xs.len() as int) =~= xs);
}

/// A path as seen from the working directory is in normal form.
pub proof fn lemma_relative_to_is_in_normal_form(path: Seq<char>, cwd: Seq<char>)
    ensures
        in_normal_form(components(relative_to(path, cwd))),
{
    match diff_paths_result(path, cwd) {
        Some(rel) => lemma_normalized_is_in_normal_form(rel),
        None => lemma_normalized_is_in_normal_form(path),
    }
}

/// The path that an import text resolves to is in normal form: it has no
/// `.` component and no name followed by `..`.
pub proof fn lemma_resolution_is_in_normal_form(
    urls: Map<Seq<char>, Seq<char>>,
    current_file: Seq<char>,
    import_string: Seq<char>,
    cwd: Seq<char>,
)
    ensures
        resolution(urls, current_file, import_string, cwd) matches Ok(path) ==> in_normal_form(
            components(path),
        ),
{
    let s = trim(import_string);
    if resolution(urls, current_file, import_string, cwd) is Ok {
        if is_internal(s) {
            lemma_relative_to_is_in_normal_form(urls[s], cwd);
        } else {
            let joined_path = joined_import(current_file, s, cwd)->0;
            lemma_relative_to_is_in_normal_form(normalized(joined_path), cwd);
        }
    }
}

} // verus!
