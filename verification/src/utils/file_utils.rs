//! Normal forms of paths and relative paths between files.

use crate::text::{append_chars, from_chars, replace_char, replace_char_exec, seqs, to_chars};
use crate::text::strings;
use crate::utils::paths::{
    components, components_exec, cur_dir, is_cur_dir_exec, is_normal, is_normal_exec,
    is_parent_dir_exec, joined, joined_exec, parent, parent_dir, parent_exec, push_path,
    push_path_exec,
};
use vstd::prelude::*;

verus! {

/// The stack of components after one more component: `.` leaves it as it
/// is, `..` takes away a name on top and is kept otherwise, anything else is
/// put on top.
pub open spec fn normalize_step(stack: Seq<Seq<char>>, c: Seq<char>) -> Seq<Seq<char>> {
    if c == cur_dir() {
        stack
    } else if c == parent_dir() && stack.len() > 0 && is_normal(stack.last()) {
        stack.drop_last()
    } else {
        stack.push(c)
    }
}

/// The stack of components after the first `n` components of `comps`.
pub open spec fn normalized_upto(comps: Seq<Seq<char>>, n: int) -> Seq<Seq<char>>
    decreases n,
{
    if n <= 0 {
        Seq::empty()
    } else {
        normalize_step(normalized_upto(comps, n - 1), comps[n - 1])
    }
}

/// The components of the normal form of a path with components `comps`.
pub open spec fn normalized_components(comps: Seq<Seq<char>>) -> Seq<Seq<char>> {
    normalized_upto(comps, comps.len() as int)
}

/// The normal form of `path`: without `.` components, and with each `..`
/// cancelled against the name before it.
pub open spec fn normalized(path: Seq<char>) -> Seq<char> {
    joined(normalized_components(components(path)))
}

/// The normal form of the path `path`.
pub fn normalize_chars(path: &Vec<char>) -> (r: Vec<char>)
    ensures
        r@ == normalized(path@),
{
    let comps = components_exec(path);
    let mut stack: Vec<Vec<char>> = Vec::new();
    let mut i: usize = 0;
    while i < comps.len()
        invariant
            i <= comps.len(),
            seqs(stack@) == normalized_upto(seqs(comps@), i as int),
        decreases comps.len() - i,
    {
        let ghost before = seqs(stack@);
        let c = &comps[i];
        if is_cur_dir_exec(c) {
        } else if is_parent_dir_exec(c) && stack.len() > 0 && is_normal_exec(
            &stack[stack.len() - 1],
        ) {
            stack.pop();
            assert(seqs(stack@) =~= before.drop_last());
        } else {
            stack.push(c.clone());
            assert(seqs(stack@) =~= before.push(c@));
        }
        i += 1;
    }
    joined_exec(&stack)
}

/// Normalizes a path by resolving its `.` and `..` components.
pub fn normalize_path(path: &str) -> (r: String)
    ensures
        r@ == normalized(path@),
{
    let chars = to_chars(path);
    let out = normalize_chars(&chars);
    from_chars(&out)
}

/// What `pathdiff::diff_paths` returns for the path `path` and the base
/// directory `base`.
pub uninterp spec fn diff_paths_result(path: Seq<char>, base: Seq<char>) -> Option<Seq<char>>;

/// Calls `pathdiff::diff_paths`, which builds a relative path that leads
/// from the directory `base` to `path`, or finds that there is none. Both
/// are read as paths with `/` between their components; the result is the
/// text of the path returned.
#[verifier::external_body]
fn diff_paths(path: &str, base: &str) -> (r: Option<String>)
    ensures
        match r {
            Some(p) => diff_paths_result(path@, base@) == Some(p@),
            None => diff_paths_result(path@, base@) is None,
        },
{
    match pathdiff::diff_paths(path, base) {
        Some(p) => Some(p.to_string_lossy().into_owned()),
        None => None,
    }
}

/// `s` with `/` in place of each `\`.
pub open spec fn with_forward_slashes(s: Seq<char>) -> Seq<char> {
    replace_char(s, '\\', seq!['/'])
}

/// The import text for a target at `to`, given the relative path `diff`
/// found from the importing file's directory, if one was found: the
/// relative path, made to start with `./` unless it starts with `.` or `/`;
/// without one, the target's own path.
pub open spec fn relative_text(diff: Option<Seq<char>>, to: Seq<char>) -> Seq<char> {
    match diff {
        Some(rel) => {
            let t = with_forward_slashes(rel);
            if t.len() > 0 && (t[0] == '.' || t[0] == '/') {
                t
            } else {
                seq!['.', '/'] + t
            }
        },
        None => with_forward_slashes(to),
    }
}

/// An import text made from a relative path starts with `.` or `/`: it
/// reads as a path, not as the name of a module.
pub proof fn lemma_relative_text_form(rel: Seq<char>, to: Seq<char>)
    ensures
        relative_text(Some(rel), to).len() > 0,
        relative_text(Some(rel), to)[0] == '.' || relative_text(Some(rel), to)[0] == '/',
{
}

/// The directory of the file at `from`: its parent, or the empty path.
pub open spec fn directory_of(from: Seq<char>) -> Seq<char> {
    match parent(from) {
        Some(p) => p,
        None => Seq::empty(),
    }
}

/// The relative path from the file at `from` to the file at `to`.
pub open spec fn relative_path(from: Seq<char>, to: Seq<char>) -> Seq<char> {
    relative_text(diff_paths_result(to, directory_of(from)), to)
}

/// The import text for a target at `to_path`, from the relative path that
/// was found to it, if any.
pub fn relative_import(diff: Option<String>, to_path: &str) -> (r: String)
    ensures
        r@ == relative_text(
            match diff {
                Some(d) => Some(d@),
                None => None,
            },
            to_path@,
        ),
{
    let mut slash: Vec<char> = Vec::new();
    slash.push('/');
    assert(slash@ =~= seq!['/']);
    match diff {
        Some(rel) => {
            let rel_chars = to_chars(rel.as_str());
            let t = replace_char_exec(&rel_chars, '\\', &slash);
            if t.len() > 0 && (t[0] == '.' || t[0] == '/') {
                from_chars(&t)
            } else {
                let mut prefix: Vec<char> = Vec::new();
                prefix.push('.');
                prefix.push('/');
                assert(prefix@ =~= seq!['.', '/']);
                let out = append_chars(&prefix, &t);
                from_chars(&out)
            }
        },
        None => {
            let to_chars_v = to_chars(to_path);
            let t = replace_char_exec(&to_chars_v, '\\', &slash);
            from_chars(&t)
        },
    }
}

/// Computes the relative path from one file to another, both given by the
/// paths at which they will be placed.
pub fn compute_relative_path(from_path: &str, to_path: &str) -> (r: String)
    ensures
        r@ == relative_path(from_path@, to_path@),
{
    let from_chars_v = to_chars(from_path);
    let from_dir = match parent_exec(&from_chars_v) {
        Some(p) => from_chars(&p),
        None => String::new(),
    };
    let diff = diff_paths(to_path, from_dir.as_str());
    relative_import(diff, to_path)
}

/// The normal form of the relative path `diff` found from the working
/// directory to `path`, or of `path` itself where none was found.
pub open spec fn relative_or_same(diff: Option<Seq<char>>, path: Seq<char>) -> Seq<char> {
    match diff {
        Some(rel) => normalized(rel),
        None => normalized(path),
    }
}

/// `path` as seen from the working directory `cwd`.
pub open spec fn relative_to(path: Seq<char>, cwd: Seq<char>) -> Seq<char> {
    relative_or_same(diff_paths_result(path, cwd), path)
}

/// The normal form of the relative path found from the working directory
/// to `path`, or of `path` itself where none was found.
pub fn normalize_relative(diff: Option<String>, path: &str) -> (r: String)
    ensures
        r@ == relative_or_same(
            match diff {
                Some(d) => Some(d@),
                None => None,
            },
            path@,
        ),
{
    match diff {
        Some(rel) => normalize_path(rel.as_str()),
        None => normalize_path(path),
    }
}

/// Returns `path` relative to the working directory `cwd`, in normal form.
/// Where it cannot be made relative, the path itself is normalized.
pub fn make_relative_to_cwd(path: &str, cwd: &str) -> (r: String)
    ensures
        r@ == relative_to(path@, cwd@),
{
    let diff = diff_paths(path, cwd);
    normalize_relative(diff, path)
}

/// The folders of the output layout below `output_dir`: components,
/// styles, assets, dependencies.
pub open spec fn output_folders(output_dir: Seq<char>) -> Seq<Seq<char>> {
    seq![
        push_path(output_dir, "components"@),
        push_path(output_dir, "styles"@),
        push_path(output_dir, "assets"@),
        push_path(output_dir, "dependencies"@),
    ]
}

/// The standard output directories to create inside the given output
/// directory.
pub fn create_output_directories(output_dir: &str) -> (r: Vec<String>)
    ensures
        strings(r@) == output_folders(output_dir@),
{
    let root = to_chars(output_dir);
    let mut out: Vec<String> = Vec::new();
    out.push(from_chars(&push_path_exec(&root, &to_chars("components"))));
    out.push(from_chars(&push_path_exec(&root, &to_chars("styles"))));
    out.push(from_chars(&push_path_exec(&root, &to_chars("assets"))));
    out.push(from_chars(&push_path_exec(&root, &to_chars("dependencies"))));
    assert(strings(out@) =~= output_folders(output_dir@));
    out
}

} // verus!
