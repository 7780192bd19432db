//! The splicing of included files into a jar manifest.
//!
//! The files are read by the caller. The expander says which file it needs
//! next, takes the file's text, and builds the manifest's text with every
//! `#include` line replaced by the text of the file that it names.

use crate::text::{
    append_chars, from_chars, lines, lines_exec, seqs, slice, starts_with, to_chars, trim, trim_chars,
};
use crate::utils::file_utils::directory_of;
use crate::utils::jar_resolver::{JarErrorView, JarResolverError};
use crate::utils::paths::{parent_exec, push_path, push_path_exec};
use vstd::prelude::*;

verus! {

/// The file that a line of a manifest includes, if it is an `#include`
/// line: a path that starts with `/` lies below the root of the source
/// tree, any other below the directory `dir` of the including file.
pub open spec fn include_path(line: Seq<char>, dir: Seq<char>, firefox_dir: Seq<char>) -> Option<
    Seq<char>,
> {
    let t = trim(line);
    if "#include "@.is_prefix_of(t) {
        let path = trim(t.subrange("#include "@.len() as int, t.len() as int));
        if path.len() > 0 && path[0] == '/' {
            Some(push_path(firefox_dir, path.subrange(1, path.len() as int)))
        } else {
            Some(push_path(dir, path))
        }
    } else {
        None
    }
}

/// The file that a line of a manifest includes.
pub fn include_target(line: &Vec<char>, dir: &Vec<char>, firefox_dir: &Vec<char>) -> (r: Option<
    Vec<char>,
>)
    ensures
        match r {
            Some(p) => include_path(line@, dir@, firefox_dir@) == Some(p@),
            None => include_path(line@, dir@, firefox_dir@) is None,
        },
{
    let t = trim_chars(line);
    let directive = to_chars("#include ");
    if !starts_with(&t, &directive) {
        return None;
    }
    let path = trim_chars(&slice(&t, directive.len(), t.len()));
    if path.len() > 0 && path[0] == '/' {
        Some(push_path_exec(firefox_dir, &slice(&path, 1, path.len())))
    } else {
        Some(push_path_exec(dir, &path))
    }
}

/// A file that is being spliced in: its lines, the number of lines that
/// were taken, and its directory.
pub struct IncludeFrame {
    lines: Vec<Vec<char>>,
    next: usize,
    dir: Vec<char>,
}

/// A frame as a mathematical value.
pub struct FrameView {
    pub lines: Seq<Seq<char>>,
    pub next: int,
    pub dir: Seq<char>,
}

impl View for IncludeFrame {
    type V = FrameView;

    closed spec fn view(&self) -> FrameView {
        FrameView { lines: seqs(self.lines@), next: self.next as int, dir: self.dir@ }
    }
}

/// The expander as a mathematical value: the files that are being
/// spliced in, the including file before the included one; the text built
/// so far; and the file that is asked for, if one is.
pub struct ExpanderView {
    pub firefox_dir: Seq<char>,
    pub frames: Seq<FrameView>,
    pub output: Seq<char>,
    pub pending: Option<Seq<char>>,
}

/// The views of the frames `v`.
pub open spec fn frame_views(v: Seq<IncludeFrame>) -> Seq<FrameView> {
    Seq::new(v.len(), |i: int| v[i]@)
}

/// The state in which the splicing of the manifest `content`, found at
/// `path`, starts.
pub open spec fn expansion_start(content: Seq<char>, path: Seq<char>, firefox_dir: Seq<char>) -> ExpanderView {
    ExpanderView {
        firefox_dir,
        frames: seq![FrameView { lines: lines(content), next: 0, dir: directory_of(path) }],
        output: Seq::empty(),
        pending: None,
    }
}

/// Whether the splicing is over: no file is left and none is asked for.
pub open spec fn is_finished(st: ExpanderView) -> bool {
    st.frames.len() == 0 && st.pending is None
}

/// The state after one step. While a file is asked for, and when the
/// splicing is over, a step changes nothing. Else the innermost file gives
/// its next line: an `#include` line asks for the file that it names, any
/// other line goes to the text, with a line feed. A file without a line
/// left is done; the text of an included file is followed by a line feed.
pub open spec fn after_step(st: ExpanderView) -> ExpanderView {
    if st.pending is Some || st.frames.len() == 0 {
        st
    } else {
        let top = st.frames.last();
        if top.next >= top.lines.len() {
            ExpanderView {
                frames: st.frames.drop_last(),
                output: if st.frames.len() > 1 {
                    st.output.push('\n')
                } else {
                    st.output
                },
                ..st
            }
        } else {
            let line = top.lines[top.next];
            let frames = st.frames.update(
                st.frames.len() - 1,
                FrameView { next: top.next + 1, ..top },
            );
            match include_path(line, top.dir, st.firefox_dir) {
                Some(path) => ExpanderView { frames, pending: Some(path), ..st },
                None => ExpanderView { frames, output: (st.output + line).push('\n'), ..st },
            }
        }
    }
}

/// The state after the file that was asked for was read: its text is
/// spliced in next. Without a file asked for nothing changes.
pub open spec fn after_supply(st: ExpanderView, content: Seq<char>) -> ExpanderView {
    match st.pending {
        Some(path) => ExpanderView {
            frames: st.frames.push(
                FrameView { lines: lines(content), next: 0, dir: directory_of(path) },
            ),
            pending: None,
            ..st
        },
        None => st,
    }
}

/// Splices included files into a jar manifest.
pub struct IncludeExpander {
    firefox_dir: Vec<char>,
    frames: Vec<IncludeFrame>,
    output: Vec<char>,
    pending: Option<String>,
}

impl View for IncludeExpander {
    type V = ExpanderView;

    closed spec fn view(&self) -> ExpanderView {
        ExpanderView {
            firefox_dir: self.firefox_dir@,
            frames: frame_views(self.frames@),
            output: self.output@,
            pending: match self.pending {
                Some(p) => Some(p@),
                None => None,
            },
        }
    }
}

fn frame_of(content: &str, path: &Vec<char>) -> (r: IncludeFrame)
    ensures
        r@ == (FrameView { lines: lines(content@), next: 0, dir: directory_of(path@) }),
{
    let dir = match parent_exec(path) {
        Some(dir) => dir,
        None => Vec::new(),
    };
    IncludeFrame { lines: lines_exec(&to_chars(content)), next: 0, dir }
}

impl IncludeExpander {
    /// An expander for the manifest `content`, found at `jar_file_path`,
    /// in a source tree rooted at `firefox_dir`.
    pub fn new(content: &str, jar_file_path: &str, firefox_dir: &str) -> (r: Self)
        ensures
            r@ == expansion_start(content@, jar_file_path@, firefox_dir@),
    {
        let mut frames: Vec<IncludeFrame> = Vec::new();
        frames.push(frame_of(content, &to_chars(jar_file_path)));
        let r = IncludeExpander {
            firefox_dir: to_chars(firefox_dir),
            frames,
            output: Vec::new(),
            pending: None,
        };
        assert(r@.frames =~= expansion_start(content@, jar_file_path@, firefox_dir@).frames);
        r
    }

    /// Whether the splicing is over.
    pub fn is_done(&self) -> (r: bool)
        ensures
            r == is_finished(self@),
    {
        self.frames.len() == 0 && self.pending.is_none()
    }

    /// The file that is asked for, if one is.
    pub fn pending(&self) -> (r: Option<String>)
        ensures
            match r {
                Some(p) => self@.pending == Some(p@),
                None => self@.pending is None,
            },
    {
        match &self.pending {
            Some(p) => Some(p.clone()),
            None => None,
        }
    }

    /// Takes one step.
    pub fn step(&mut self)
        ensures
            final(self)@ == after_step(old(self)@),
    {
        if self.pending.is_some() || self.frames.len() == 0 {
            return ;
        }
        let ghost before = self@;
        let last = self.frames.len() - 1;
        assert(before.frames[last as int] == self.frames@[last as int]@);
        if self.frames[last].next >= self.frames[last].lines.len() {
            self.frames.pop();
            if last > 0 {
                self.output.push('\n');
            }
            assert(self@.frames =~= before.frames.drop_last());
            return ;
        }
        let top = self.frames.pop().unwrap();
        let line = &top.lines[top.next];
        assert(seqs(top.lines@)[top.next as int] == line@);
        let target = include_target(line, &top.dir, &self.firefox_dir);
        match target {
            Some(path) => {
                self.pending = Some(from_chars(&path));
            },
            None => {
                let with_line = append_chars(&self.output, line);
                self.output = with_line;
                self.output.push('\n');
            },
        }
        let advanced = IncludeFrame { lines: top.lines, next: top.next + 1, dir: top.dir };
        self.frames.push(advanced);
        assert(self@.frames =~= before.frames.update(
            before.frames.len() - 1,
            FrameView { next: before.frames.last().next + 1, ..before.frames.last() },
        ));
    }

    /// Hands in what reading the file that was asked for gave: its text,
    /// or nothing if it could not be read, which ends the splicing with an
    /// error that names the file.
    pub fn supply(&mut self, content: Option<String>) -> (r: Result<(), JarResolverError>)
        ensures
            match (old(self)@.pending, content) {
                (Some(path), None) => r matches Err(e) && e@ == JarErrorView::IncludeFileNotFound(
                    path,
                ) && final(self)@ == old(self)@,
                (Some(_), Some(text)) => r is Ok && final(self)@ == after_supply(
                    old(self)@,
                    text@,
                ),
                (None, _) => r is Ok && final(self)@ == old(self)@,
            },
    {
        let path = match &self.pending {
            Some(path) => path.clone(),
            None => {
                return Ok(());
            },
        };
        match content {
            Some(text) => {
                let ghost before = self@;
                let frame = frame_of(text.as_str(), &to_chars(path.as_str()));
                let ghost view = frame@;
                self.frames.push(frame);
                self.pending = None;
                assert(self@.frames =~= before.frames.push(view));
                Ok(())
            },
            None => Err(JarResolverError::IncludeFileNotFound(path)),
        }
    }

    /// The text built.
    pub fn finish(self) -> (r: String)
        ensures
            r@ == self@.output,
    {
        from_chars(&self.output)
    }
}

} // verus!
