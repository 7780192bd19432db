//! Paths as text, with `/` between their components.
//!
//! A path is a character sequence. Its components are the root `/`, the
//! current directory `.`, the parent directory `..` and names; every
//! operation of this module is defined on them.

use crate::text::{append_chars, seqs, slice, split_char, split_char_exec};
use vstd::prelude::*;

verus! {

/// The text of the root component.
pub open spec fn root() -> Seq<char> {
    seq!['/']
}

/// The text of the current-directory component.
pub open spec fn cur_dir() -> Seq<char> {
    seq!['.']
}

/// The text of the parent-directory component.
pub open spec fn parent_dir() -> Seq<char> {
    seq!['.', '.']
}

/// Whether a component is a name: neither root, `.` nor `..`.
pub open spec fn is_normal(c: Seq<char>) -> bool {
    c != root() && c != cur_dir() && c != parent_dir()
}

/// Whether `path` starts at the root.
pub open spec fn is_absolute(path: Seq<char>) -> bool {
    path.len() > 0 && path[0] == '/'
}

/// Whether piece `i` of a path cut at `/` is a component: empty pieces are
/// none, and `.` is one only at the very start.
pub open spec fn keeps_piece(pieces: Seq<Seq<char>>, i: int) -> bool {
    pieces[i].len() > 0 && (pieces[i] != cur_dir() || i == 0)
}

/// The components among the first `n` pieces.
pub open spec fn kept_pieces(pieces: Seq<Seq<char>>, n: int) -> Seq<Seq<char>>
    decreases n,
{
    if n <= 0 {
        Seq::empty()
    } else {
        kept_pieces(pieces, n - 1) + (if keeps_piece(pieces, n - 1) {
            seq![pieces[n - 1]]
        } else {
            Seq::empty()
        })
    }
}

/// The components of `path`: the root if the path starts with `/`, then
/// each non-empty piece between separators, without the `.` pieces that do
/// not start the path.
pub open spec fn components(path: Seq<char>) -> Seq<Seq<char>> {
    let pieces = split_char(path, '/');
    let rest = kept_pieces(pieces, pieces.len() as int);
    if is_absolute(path) {
        seq![root()] + rest
    } else {
        rest
    }
}

/// `buf` with the component or path `c` pushed onto it: an absolute `c`
/// replaces `buf`, any other is appended after a separator.
pub open spec fn push_path(buf: Seq<char>, c: Seq<char>) -> Seq<char> {
    if is_absolute(c) {
        c
    } else if buf.len() > 0 && buf.last() != '/' {
        buf + seq!['/'] + c
    } else {
        buf + c
    }
}

/// The path made by pushing the first `n` components of `comps` in turn.
pub open spec fn joined_upto(comps: Seq<Seq<char>>, n: int) -> Seq<char>
    decreases n,
{
    if n <= 0 {
        Seq::empty()
    } else {
        push_path(joined_upto(comps, n - 1), comps[n - 1])
    }
}

/// The path made of the components `comps`.
pub open spec fn joined(comps: Seq<Seq<char>>) -> Seq<char> {
    joined_upto(comps, comps.len() as int)
}

/// The path without its last component; none for the empty path and for a
/// path that ends at the root.
pub open spec fn parent(path: Seq<char>) -> Option<Seq<char>> {
    let comps = components(path);
    if comps.len() == 0 || comps.last() == root() {
        None
    } else {
        Some(joined(comps.drop_last()))
    }
}

/// The last component of `path` where it is a name.
pub open spec fn file_name(path: Seq<char>) -> Option<Seq<char>> {
    let comps = components(path);
    if comps.len() > 0 && is_normal(comps.last()) {
        Some(comps.last())
    } else {
        None
    }
}

/// The index of the last `.` of `name` before index `to`, or -1.
pub open spec fn last_dot(name: Seq<char>, to: int) -> int
    decreases to,
{
    if to <= 0 {
        -1
    } else if name[to - 1] == '.' {
        to - 1
    } else {
        last_dot(name, to - 1)
    }
}

/// What follows the last `.` of a file name, where something precedes that `.`.
pub open spec fn name_extension(name: Seq<char>) -> Option<Seq<char>> {
    let d = last_dot(name, name.len() as int);
    if d <= 0 {
        None
    } else {
        Some(name.subrange(d + 1, name.len() as int))
    }
}

/// The extension of the file name of `path`.
pub open spec fn extension(path: Seq<char>) -> Option<Seq<char>> {
    match file_name(path) {
        Some(name) => name_extension(name),
        None => None,
    }
}

fn is_text(c: &Vec<char>, a: char) -> (r: bool)
    ensures
        r == (c@ == seq![a]),
{
    if c.len() == 1 && c[0] == a {
        assert(c@ =~= seq![a]);
        true
    } else {
        false
    }
}

/// Whether the component `c` is the root.
pub fn is_root_exec(c: &Vec<char>) -> (r: bool)
    ensures
        r == (c@ == root()),
{
    is_text(c, '/')
}

/// Whether the component `c` is `.`.
pub fn is_cur_dir_exec(c: &Vec<char>) -> (r: bool)
    ensures
        r == (c@ == cur_dir()),
{
    is_text(c, '.')
}

/// Whether the component `c` is `..`.
pub fn is_parent_dir_exec(c: &Vec<char>) -> (r: bool)
    ensures
        r == (c@ == parent_dir()),
{
    if c.len() == 2 && c[0] == '.' && c[1] == '.' {
        assert(c@ =~= parent_dir());
        true
    } else {
        false
    }
}

/// Whether the component `c` is a name.
pub fn is_normal_exec(c: &Vec<char>) -> (r: bool)
    ensures
        r == is_normal(c@),
{
    !is_root_exec(c) && !is_cur_dir_exec(c) && !is_parent_dir_exec(c)
}

/// The components of `path`.
pub fn components_exec(path: &Vec<char>) -> (r: Vec<Vec<char>>)
    ensures
        seqs(r@) == components(path@),
{
    let pieces = split_char_exec(path, '/');
    let mut out: Vec<Vec<char>> = Vec::new();
    let absolute = path.len() > 0 && path[0] == '/';
    if absolute {
        let mut root_text: Vec<char> = Vec::new();
        root_text.push('/');
        assert(root_text@ =~= root());
        out.push(root_text);
    }
    let ghost head = seqs(out@);
    assert(head =~= if is_absolute(path@) {
        seq![root()]
    } else {
        Seq::empty()
    });
    let mut i: usize = 0;
    while i < pieces.len()
        invariant
            i <= pieces.len(),
            seqs(pieces@) == split_char(path@, '/'),
            seqs(out@) == head + kept_pieces(seqs(pieces@), i as int),
        decreases pieces.len() - i,
    {
        let ghost before = seqs(out@);
        let keep = pieces[i].len() > 0 && (!is_cur_dir_exec(&pieces[i]) || i == 0);
        assert(keep == keeps_piece(seqs(pieces@), i as int));
        if keep {
            let piece = slice(&pieces[i], 0, pieces[i].len());
            assert(piece@ =~= pieces[i as int]@);
            out.push(piece);
            assert(seqs(out@) =~= before + seq![seqs(pieces@)[i as int]]);
        }
        i += 1;
    }
    out
}

/// `buf` with `c` pushed onto it.
pub fn push_path_exec(buf: &Vec<char>, c: &Vec<char>) -> (r: Vec<char>)
    ensures
        r@ == push_path(buf@, c@),
{
    if c.len() > 0 && c[0] == '/' {
        slice(c, 0, c.len())
    } else if buf.len() > 0 && buf[buf.len() - 1] != '/' {
        let mut out = slice(buf, 0, buf.len());
        out.push('/');
        let r = append_chars(&out, c);
        assert(r@ =~= buf@ + seq!['/'] + c@);
        r
    } else {
        append_chars(buf, c)
    }
}

/// The path made of the first `n` components of `comps`.
pub fn joined_upto_exec(comps: &Vec<Vec<char>>, n: usize) -> (r: Vec<char>)
    requires
        n <= comps.len(),
    ensures
        r@ == joined_upto(seqs(comps@), n as int),
{
    let mut out: Vec<char> = Vec::new();
    let mut i: usize = 0;
    while i < n
        invariant
            i <= n <= comps.len(),
            out@ == joined_upto(seqs(comps@), i as int),
        decreases n - i,
    {
        out = push_path_exec(&out, &comps[i]);
        i += 1;
    }
    out
}

/// The path made of the components `comps`.
pub fn joined_exec(comps: &Vec<Vec<char>>) -> (r: Vec<char>)
    ensures
        r@ == joined(seqs(comps@)),
{
    joined_upto_exec(comps, comps.len())
}

/// Pushing components one after the other depends only on the components
/// pushed.
pub proof fn lemma_joined_upto_prefix(a: Seq<Seq<char>>, b: Seq<Seq<char>>, n: int)
    requires
        0 <= n <= a.len(),
        n <= b.len(),
        forall|i: int| 0 <= i < n ==> a[i] == b[i],
    ensures
        joined_upto(a, n) == joined_upto(b, n),
    decreases n,
{
    if n > 0 {
        lemma_joined_upto_prefix(a, b, n - 1);
    }
}

/// The path without its last component.
pub fn parent_exec(path: &Vec<char>) -> (r: Option<Vec<char>>)
    ensures
        match r {
            Some(p) => parent(path@) == Some(p@),
            None => parent(path@) is None,
        },
{
    let comps = components_exec(path);
    if comps.len() == 0 || is_root_exec(&comps[comps.len() - 1]) {
        None
    } else {
        let r = joined_upto_exec(&comps, comps.len() - 1);
        proof {
            lemma_joined_upto_prefix(
                seqs(comps@),
                seqs(comps@).drop_last(),
                comps.len() - 1,
            );
        }
        Some(r)
    }
}

/// The last component of `path` where it is a name.
pub fn file_name_exec(path: &Vec<char>) -> (r: Option<Vec<char>>)
    ensures
        match r {
            Some(p) => file_name(path@) == Some(p@),
            None => file_name(path@) is None,
        },
{
    let comps = components_exec(path);
    if comps.len() > 0 && is_normal_exec(&comps[comps.len() - 1]) {
        let last = &comps[comps.len() - 1];
        Some(slice(last, 0, last.len()))
    } else {
        None
    }
}

/// What follows the last `.` of a file name, where something precedes that `.`.
pub fn name_extension_exec(name: &Vec<char>) -> (r: Option<Vec<char>>)
    ensures
        match r {
            Some(e) => name_extension(name@) == Some(e@),
            None => name_extension(name@) is None,
        },
{
    let mut to: usize = name.len();
    while to > 0 && name[to - 1] != '.'
        invariant
            to <= name.len(),
            last_dot(name@, name@.len() as int) == last_dot(name@, to as int),
        decreases to,
    {
        to -= 1;
    }
    if to <= 1 {
        None
    } else {
        Some(slice(name, to, name.len()))
    }
}

/// The extension of the file name of `path`.
pub fn extension_exec(path: &Vec<char>) -> (r: Option<Vec<char>>)
    ensures
        match r {
            Some(e) => extension(path@) == Some(e@),
            None => extension(path@) is None,
        },
{
    match file_name_exec(path) {
        Some(name) => name_extension_exec(&name),
        None => None,
    }
}

} // verus!
