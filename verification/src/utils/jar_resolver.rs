//! The manifest reader: from jar manifests and build descriptions to a map
//! from opaque URLs to files.

use crate::replacements::ReplacementMap;
use crate::text::{
    chars_eq, append_chars, contains_char, ends_with_str, find_char_from, from_chars,
    index_of, lines, lines_exec, seqs, slice, starts_with, starts_with_str,
    split_char, split_char_exec, strings, to_chars, trim, trim_char, trim_char_exec, trim_chars,
    trim_end_char, trim_end_char_exec, trim_start_char, trim_start_char_exec, words, words_exec,
};
use crate::utils::file_utils::{directory_of, make_relative_to_cwd, relative_to};
use crate::utils::paths::{
    file_name, file_name_exec, parent_exec, push_path, push_path_exec,
};
use vstd::hash_map::StringHashMap;
use vstd::prelude::*;

verus! {

/// Why the manifest reader or the URL lookup failed.
#[derive(Debug)]
pub enum JarResolverError {
    InvalidChromeUrl(String),
    NoMappingFound(String),
    UnknownIfdefCondition(String),
    UnmatchedEndif,
    IncludeFileNotFound(String),
    IoError(String),
}

/// An error of the manifest reader as a mathematical value.
pub enum JarErrorView {
    InvalidChromeUrl(Seq<char>),
    NoMappingFound(Seq<char>),
    UnknownIfdefCondition(Seq<char>),
    UnmatchedEndif,
    IncludeFileNotFound(Seq<char>),
    IoError(Seq<char>),
}

impl View for JarResolverError {
    type V = JarErrorView;

    open spec fn view(&self) -> JarErrorView {
        match self {
            JarResolverError::InvalidChromeUrl(s) => JarErrorView::InvalidChromeUrl(s@),
            JarResolverError::NoMappingFound(s) => JarErrorView::NoMappingFound(s@),
            JarResolverError::UnknownIfdefCondition(s) => JarErrorView::UnknownIfdefCondition(s@),
            JarResolverError::UnmatchedEndif => JarErrorView::UnmatchedEndif,
            JarResolverError::IncludeFileNotFound(s) => JarErrorView::IncludeFileNotFound(s@),
            JarResolverError::IoError(s) => JarErrorView::IoError(s@),
        }
    }
}

/// A registration of a package under a type prefix.
#[derive(Debug)]
pub struct ChromeRegistration {
    pub registration_type: String,
    pub package_name: String,
    pub provider_name: String,
    pub path: String,
    pub flags: Vec<String>,
}

/// A registration as a mathematical value.
pub struct RegistrationView {
    pub registration_type: Seq<char>,
    pub package_name: Seq<char>,
    pub provider_name: Seq<char>,
    pub path: Seq<char>,
    pub flags: Seq<Seq<char>>,
}

impl View for ChromeRegistration {
    type V = RegistrationView;

    open spec fn view(&self) -> RegistrationView {
        RegistrationView {
            registration_type: self.registration_type@,
            package_name: self.package_name@,
            provider_name: self.provider_name@,
            path: self.path@,
            flags: strings(self.flags@),
        }
    }
}

/// The views of the registrations of `v`.
pub open spec fn registration_views(v: Seq<ChromeRegistration>) -> Seq<RegistrationView> {
    Seq::new(v.len(), |i: int| v[i]@)
}

/// The registration that a line starting with `%` declares:
/// `content <package> <path> [flags...]`, or
/// `<type> <package> <provider> <path> [flags...]` for another type.
/// None for a line without `%` and for one with too few words.
pub open spec fn parsed_registration(line: Seq<char>) -> Option<RegistrationView> {
    if line.len() == 0 || line[0] != '%' {
        None
    } else {
        let parts = words(line.subrange(1, line.len() as int));
        if parts.len() < 3 {
            None
        } else if parts[0] == "content"@ {
            Some(
                RegistrationView {
                    registration_type: parts[0],
                    package_name: parts[1],
                    provider_name: Seq::empty(),
                    path: parts[2],
                    flags: parts.subrange(3, parts.len() as int),
                },
            )
        } else if parts.len() < 4 {
            None
        } else {
            Some(
                RegistrationView {
                    registration_type: parts[0],
                    package_name: parts[1],
                    provider_name: parts[2],
                    path: parts[3],
                    flags: parts.subrange(4, parts.len() as int),
                },
            )
        }
    }
}

/// The key under which a registration is kept: its type, a colon, its
/// package.
pub open spec fn registration_key(r: RegistrationView) -> Seq<char> {
    r.registration_type + seq![':'] + r.package_name
}

/// The index of the first registration at or after `from` with the key
/// `key`, or the number of registrations.
pub open spec fn index_of_key(regs: Seq<RegistrationView>, key: Seq<char>, from: int) -> int
    decreases regs.len() - from,
{
    if from >= regs.len() {
        regs.len() as int
    } else if registration_key(regs[from]) == key {
        from
    } else {
        index_of_key(regs, key, from + 1)
    }
}

/// The registrations with `r` among them: in place of the one with its
/// key, or at the end.
pub open spec fn with_registration(regs: Seq<RegistrationView>, r: RegistrationView) -> Seq<
    RegistrationView,
> {
    let i = index_of_key(regs, registration_key(r), 0);
    if 0 <= i < regs.len() {
        regs.update(i, r)
    } else {
        regs.push(r)
    }
}

/// The registrations after a registration line.
pub open spec fn after_registration_line(regs: Seq<RegistrationView>, line: Seq<char>) -> Seq<
    RegistrationView,
> {
    match parsed_registration(line) {
        Some(r) => with_registration(regs, r),
        None => regs,
    }
}

fn strings_from(parts: &Vec<Vec<char>>, from: usize) -> (r: Vec<String>)
    requires
        from <= parts.len(),
    ensures
        strings(r@) == seqs(parts@).subrange(from as int, parts.len() as int),
{
    let mut out: Vec<String> = Vec::new();
    let mut i: usize = from;
    while i < parts.len()
        invariant
            from <= i <= parts.len(),
            out.len() == i - from,
            forall|k: int| 0 <= k < out.len() ==> out@[k]@ == parts@[from + k]@,
        decreases parts.len() - i,
    {
        out.push(from_chars(&parts[i]));
        i += 1;
    }
    assert(strings(out@) =~= seqs(parts@).subrange(from as int, parts.len() as int));
    out
}

fn parse_registration(line: &Vec<char>) -> (r: Option<ChromeRegistration>)
    ensures
        match r {
            Some(reg) => parsed_registration(line@) == Some(reg@),
            None => parsed_registration(line@) is None,
        },
{
    if line.len() == 0 || line[0] != '%' {
        return None;
    }
    let rest = slice(line, 1, line.len());
    let parts = words_exec(&rest);
    if parts.len() < 3 {
        return None;
    }
    assert(seqs(parts@)[0] == parts@[0]@);
    assert(seqs(parts@)[1] == parts@[1]@);
    assert(seqs(parts@)[2] == parts@[2]@);
    let content = to_chars("content");
    if chars_eq(&parts[0], &content) {
        Some(
            ChromeRegistration {
                registration_type: from_chars(&parts[0]),
                package_name: from_chars(&parts[1]),
                provider_name: String::new(),
                path: from_chars(&parts[2]),
                flags: strings_from(&parts, 3),
            },
        )
    } else if parts.len() < 4 {
        None
    } else {
        assert(seqs(parts@)[3] == parts@[3]@);
        Some(
            ChromeRegistration {
                registration_type: from_chars(&parts[0]),
                package_name: from_chars(&parts[1]),
                provider_name: from_chars(&parts[2]),
                path: from_chars(&parts[3]),
                flags: strings_from(&parts, 4),
            },
        )
    }
}

fn registration_key_exec(r: &ChromeRegistration) -> (key: Vec<char>)
    ensures
        key@ == registration_key(r@),
{
    let mut key = to_chars(r.registration_type.as_str());
    key.push(':');
    let package = to_chars(r.package_name.as_str());
    append_chars(&key, &package)
}

/// Reads a registration line and keeps its registration, in place of an
/// earlier one for the same type and package. A line that declares none
/// changes nothing.
pub fn parse_registration_line(line: &str, chrome_registrations: &mut Vec<ChromeRegistration>)
    ensures
        registration_views(final(chrome_registrations)@) == after_registration_line(
            registration_views(old(chrome_registrations)@),
            line@,
        ),
{
    let chars = to_chars(line);
    let reg = match parse_registration(&chars) {
        Some(reg) => reg,
        None => {
            return ;
        },
    };
    let key = registration_key_exec(&reg);
    let ghost regs = registration_views(chrome_registrations@);
    let mut i: usize = 0;
    while i < chrome_registrations.len()
        invariant
            i <= chrome_registrations.len(),
            regs == registration_views(chrome_registrations@),
            chrome_registrations@ == old(chrome_registrations)@,
            index_of_key(regs, key@, 0) == index_of_key(regs, key@, i as int),
            parsed_registration(line@) == Some(reg@),
            key@ == registration_key(reg@),
        decreases chrome_registrations.len() - i,
    {
        let other = registration_key_exec(&chrome_registrations[i]);
        assert(regs[i as int] == chrome_registrations@[i as int]@);
        if chars_eq(&other, &key) {
            let ghost view = reg@;
            assert(index_of_key(regs, key@, i as int) == i);
            chrome_registrations.set(i, reg);
            assert(registration_views(chrome_registrations@) =~= regs.update(i as int, view));
            return ;
        }
        i += 1;
    }
    let ghost view = reg@;
    chrome_registrations.push(reg);
    assert(registration_views(chrome_registrations@) =~= regs.push(view));
}

/// The path prefix that a registration covers: its path without `%` in
/// front and `/` behind.
pub open spec fn registration_prefix(r: RegistrationView) -> Seq<char> {
    trim_end_char(trim_start_char(r.path, '%'), '/')
}

/// The type of a destination path: what stands before its first `/`.
pub open spec fn destination_type(destination: Seq<char>) -> Seq<char> {
    destination.subrange(0, index_of(destination, '/'))
}

/// Whether the registration `r` covers the destination path: it is of the
/// destination's type, and its prefix starts the destination.
pub open spec fn covers(r: RegistrationView, destination: Seq<char>) -> bool {
    r.registration_type == destination_type(destination) && registration_prefix(r).is_prefix_of(
        destination,
    )
}

/// The index of the first registration at or after `from` that covers the
/// destination, or the number of registrations.
pub open spec fn index_of_cover(regs: Seq<RegistrationView>, destination: Seq<char>, from: int) -> int
    decreases regs.len() - from,
{
    if from >= regs.len() {
        regs.len() as int
    } else if covers(regs[from], destination) {
        from
    } else {
        index_of_cover(regs, destination, from + 1)
    }
}

/// The URL of a destination under the registration `r`:
/// `chrome://<package>/<type>/<relative>`, where the relative part is the
/// destination without the registration's prefix and the `/` after it.
pub open spec fn url_under(r: RegistrationView, destination: Seq<char>) -> Seq<char> {
    "chrome://"@ + r.package_name + "/"@ + destination_type(destination) + "/"@ + trim_start_char(
        destination.subrange(registration_prefix(r).len() as int, destination.len() as int),
        '/',
    )
}

/// The URL of a destination path: the one under the first registration
/// that covers it, if any does.
pub open spec fn chrome_url(destination: Seq<char>, regs: Seq<RegistrationView>) -> Option<
    Seq<char>,
> {
    let i = index_of_cover(regs, destination, 0);
    if 0 <= i < regs.len() {
        Some(url_under(regs[i], destination))
    } else {
        None
    }
}

/// Builds the URL of a destination path from the registrations.
pub fn build_chrome_url(destination: &str, chrome_registrations: &Vec<ChromeRegistration>) -> (r:
    Option<String>)
    ensures
        match r {
            Some(url) => chrome_url(destination@, registration_views(chrome_registrations@))
                == Some(url@),
            None => chrome_url(destination@, registration_views(chrome_registrations@)) is None,
        },
{
    let dest = to_chars(destination);
    let slash = find_char_from(&dest, '/', 0);
    let chrome_type = slice(&dest, 0, slash);
    let ghost regs = registration_views(chrome_registrations@);
    let mut i: usize = 0;
    while i < chrome_registrations.len()
        invariant
            i <= chrome_registrations.len(),
            regs == registration_views(chrome_registrations@),
            dest@ == destination@,
            chrome_type@ == destination_type(destination@),
            index_of_cover(regs, destination@, 0) == index_of_cover(regs, destination@, i as int),
        decreases chrome_registrations.len() - i,
    {
        let reg = &chrome_registrations[i];
        assert(regs[i as int] == reg@);
        let reg_type = to_chars(reg.registration_type.as_str());
        if chars_eq(&reg_type, &chrome_type) {
            let path = to_chars(reg.path.as_str());
            let without_percent = trim_start_char_exec(&path, '%');
            let prefix = trim_end_char_exec(&without_percent, '/');
            if starts_with(&dest, &prefix) {
                let rest = slice(&dest, prefix.len(), dest.len());
                let relative = trim_start_char_exec(&rest, '/');
                let scheme = to_chars("chrome://");
                let sep = to_chars("/");
                let package = to_chars(reg.package_name.as_str());
                let a = append_chars(&scheme, &package);
                let b = append_chars(&a, &sep);
                let c = append_chars(&b, &chrome_type);
                let d = append_chars(&c, &sep);
                let url = append_chars(&d, &relative);
                return Some(from_chars(&url));
            }
        }
        i += 1;
    }
    None
}

/// The destination of a file line and its source, if the line names one:
/// `dest (src)`, or `dest` alone.
pub open spec fn file_line_parts(line: Seq<char>) -> (Seq<char>, Option<Seq<char>>) {
    let t = trim(line);
    let open = index_of(t, '(');
    let close = index_of(t, ')');
    if 0 <= open < close < t.len() {
        (trim(t.subrange(0, open)), Some(trim(t.subrange(open + 1, close))))
    } else {
        (t, None)
    }
}

/// The path of the source of a file line, from the root of the source
/// tree: a source that starts with `/` without that `/`, any other source
/// below the jar's directory, and without a source the destination's file
/// name below the jar's directory. None where there is neither a source nor
/// a file name.
pub open spec fn file_line_source(
    destination: Seq<char>,
    source: Option<Seq<char>>,
    jar_dir: Seq<char>,
) -> Option<Seq<char>> {
    match source {
        Some(src) => if src.len() > 0 && src[0] == '/' {
            Some(src.subrange(1, src.len() as int))
        } else {
            Some(push_path(jar_dir, src))
        },
        None => match file_name(destination) {
            Some(name) => Some(push_path(jar_dir, name)),
            None => None,
        },
    }
}

/// Where the manifests are read: the jar's directory, the root of the
/// source tree, the working directory, and the feature flags.
pub struct JarContext {
    pub jar_dir: Seq<char>,
    pub firefox_dir: Seq<char>,
    pub cwd: Seq<char>,
    pub flags: Map<Seq<char>, bool>,
}

/// The URL map after a file line: where a registration covers the
/// destination, its URL is mapped to the source's path as seen from the
/// working directory.
pub open spec fn after_file_line(
    mappings: Map<Seq<char>, Seq<char>>,
    line: Seq<char>,
    ctx: JarContext,
    regs: Seq<RegistrationView>,
) -> Result<Map<Seq<char>, Seq<char>>, JarErrorView> {
    let parts = file_line_parts(line);
    match file_line_source(parts.0, parts.1, ctx.jar_dir) {
        None => Err(JarErrorView::InvalidChromeUrl(parts.0)),
        Some(source) => match chrome_url(parts.0, regs) {
            Some(url) => Ok(
                mappings.insert(url, relative_to(push_path(ctx.firefox_dir, source), ctx.cwd)),
            ),
            None => Ok(mappings),
        },
    }
}

/// Reads a file line of a jar manifest and records its mapping.
pub fn parse_file_line(
    line: &str,
    jar_dir: &str,
    firefox_dir: &str,
    cwd: &str,
    mappings: &mut ReplacementMap,
    chrome_registrations: &Vec<ChromeRegistration>,
) -> (r: Result<(), JarResolverError>)
    ensures
        match after_file_line(
            old(mappings)@,
            line@,
            JarContext { jar_dir: jar_dir@, firefox_dir: firefox_dir@, cwd: cwd@, flags: Map::empty() },
            registration_views(chrome_registrations@),
        ) {
            Ok(m) => r is Ok && final(mappings)@ == m,
            Err(e) => r matches Err(err) && err@ == e && final(mappings)@ == old(mappings)@,
        },
{
    let raw = to_chars(line);
    let t = trim_chars(&raw);
    let open = find_char_from(&t, '(', 0);
    let close = find_char_from(&t, ')', 0);
    let jar_dir_chars = to_chars(jar_dir);
    let destination: Vec<char>;
    let source_path: Vec<char>;
    if open < close && close < t.len() {
        destination = trim_chars(&slice(&t, 0, open));
        let src = trim_chars(&slice(&t, open + 1, close));
        if src.len() > 0 && src[0] == '/' {
            source_path = slice(&src, 1, src.len());
        } else {
            source_path = push_path_exec(&jar_dir_chars, &src);
        }
    } else {
        destination = t;
        match file_name_exec(&destination) {
            Some(name) => {
                source_path = push_path_exec(&jar_dir_chars, &name);
            },
            None => {
                return Err(JarResolverError::InvalidChromeUrl(from_chars(&destination)));
            },
        }
    }
    let destination_text = from_chars(&destination);
    if let Some(url) = build_chrome_url(destination_text.as_str(), chrome_registrations) {
        let root = to_chars(firefox_dir);
        let full = from_chars(&push_path_exec(&root, &source_path));
        let relative = make_relative_to_cwd(full.as_str(), cwd);
        mappings.insert(url, relative);
    }
    Ok(())
}

/// The feature flags that conditional sections of a manifest ask for.
pub struct IfdefConfig {
    flags: StringHashMap<bool>,
}

/// The flags that hold unless the caller says otherwise.
pub open spec fn default_flags() -> Map<Seq<char>, bool> {
    Map::<Seq<char>, bool>::empty().insert("MOZILLA_OFFICIAL"@, true).insert(
        "ANDROID"@,
        false,
    ).insert("MOZ_GLEAN_ANDROID"@, false).insert("MOZ_FENNEC"@, false).insert(
        "XP_MACOSX"@,
        false,
    ).insert("RELEASE_OR_BETA"@, true)
}

/// The flags `flags` with the first `n` of the pairs `pairs` set in turn.
pub open spec fn with_flags(flags: Map<Seq<char>, bool>, pairs: Seq<(String, bool)>, n: int) -> Map<
    Seq<char>,
    bool,
>
    decreases n,
{
    if n <= 0 {
        flags
    } else {
        with_flags(flags, pairs, n - 1).insert(pairs[n - 1].0@, pairs[n - 1].1)
    }
}

/// The flags that a caller's choice leaves: the defaults, with the
/// caller's flags set over them.
pub open spec fn chosen_flags(overrides: Option<Vec<(String, bool)>>) -> Map<Seq<char>, bool> {
    match overrides {
        Some(pairs) => with_flags(default_flags(), pairs@, pairs@.len() as int),
        None => default_flags(),
    }
}

impl View for IfdefConfig {
    type V = Map<Seq<char>, bool>;

    closed spec fn view(&self) -> Map<Seq<char>, bool> {
        self.flags@
    }
}

impl IfdefConfig {
    /// The default flags.
    pub fn defaults() -> (r: Self)
        ensures
            r@ == default_flags(),
    {
        let mut flags: StringHashMap<bool> = StringHashMap::new();
        flags.insert(from_chars(&to_chars("MOZILLA_OFFICIAL")), true);
        flags.insert(from_chars(&to_chars("ANDROID")), false);
        flags.insert(from_chars(&to_chars("MOZ_GLEAN_ANDROID")), false);
        flags.insert(from_chars(&to_chars("MOZ_FENNEC")), false);
        flags.insert(from_chars(&to_chars("XP_MACOSX")), false);
        flags.insert(from_chars(&to_chars("RELEASE_OR_BETA")), true);
        IfdefConfig { flags }
    }

    /// Sets the flag `name` to `value`.
    pub fn set(&mut self, name: &str, value: bool)
        ensures
            final(self)@ == old(self)@.insert(name@, value),
    {
        self.flags.insert(from_chars(&to_chars(name)), value);
    }

    /// The value of the flag `name`, if it is known.
    pub fn get(&self, name: &str) -> (r: Option<bool>)
        ensures
            match r {
                Some(v) => self@.contains_key(name@) && self@[name@] == v,
                None => !self@.contains_key(name@),
            },
    {
        match self.flags.get(name) {
            Some(v) => Some(*v),
            None => None,
        }
    }

    /// The defaults with the caller's flags set over them.
    pub fn with_overrides(overrides: &Option<Vec<(String, bool)>>) -> (r: Self)
        ensures
            r@ == chosen_flags(*overrides),
    {
        let mut config = IfdefConfig::defaults();
        if let Some(pairs) = overrides {
            let mut i: usize = 0;
            while i < pairs.len()
                invariant
                    i <= pairs.len(),
                    config@ == with_flags(default_flags(), pairs@, i as int),
                decreases pairs.len() - i,
            {
                config.set(pairs[i].0.as_str(), pairs[i].1);
                i += 1;
            }
        }
        config
    }
}

/// What the reader of a jar manifest knows between two lines.
pub struct JarState {
    pub current_jar: Option<Seq<char>>,
    pub stack: Seq<bool>,
    pub included: bool,
    pub mappings: Map<Seq<char>, Seq<char>>,
    pub registrations: Seq<RegistrationView>,
}

/// The condition that a line opens: `#ifdef NAME` asks for the flag to
/// hold, `#ifndef NAME` for it not to hold.
pub open spec fn directive_condition(line: Seq<char>) -> Option<(bool, Seq<char>)> {
    if "#ifdef "@.is_prefix_of(line) {
        Some((true, trim(line.subrange("#ifdef "@.len() as int, line.len() as int))))
    } else if "#ifndef "@.is_prefix_of(line) {
        Some((false, trim(line.subrange("#ifndef "@.len() as int, line.len() as int))))
    } else {
        None
    }
}

/// The state after one more line of a jar manifest, or why the line is
/// refused.
///
/// Empty lines and lines that start with `#` are comments, but for the
/// conditions: `#ifdef` and `#ifndef` put the current inclusion flag on the
/// stack and require their condition in addition, `#endif` takes the flag
/// back from the stack. Of the other lines only those in an included
/// section count: a line that ends in `.jar:` opens a jar, a line that
/// starts with `%` registers a package, a line that starts with `*` is
/// skipped, and any other line that holds a `/` inside a jar maps a file.
pub open spec fn after_jar_line(st: JarState, raw: Seq<char>, ctx: JarContext) -> Result<
    JarState,
    JarErrorView,
> {
    let line = trim(raw);
    if line.len() == 0 || line[0] == '#' {
        match directive_condition(line) {
            Some(cond) => if ctx.flags.contains_key(cond.1) {
                let holds = if cond.0 {
                    ctx.flags[cond.1]
                } else {
                    !ctx.flags[cond.1]
                };
                Ok(
                    JarState {
                        stack: st.stack.push(st.included),
                        included: st.included && holds,
                        ..st
                    },
                )
            } else {
                Err(JarErrorView::UnknownIfdefCondition(cond.1))
            },
            None => if line == "#endif"@ {
                if st.stack.len() == 0 {
                    Err(JarErrorView::UnmatchedEndif)
                } else {
                    Ok(JarState { stack: st.stack.drop_last(), included: st.stack.last(), ..st })
                }
            } else {
                Ok(st)
            },
        }
    } else if !st.included || line[0] == '*' {
        Ok(st)
    } else if ".jar:"@.is_suffix_of(line) {
        Ok(JarState { current_jar: Some(line.drop_last()), ..st })
    } else if line[0] == '%' {
        Ok(JarState { registrations: after_registration_line(st.registrations, line), ..st })
    } else if st.current_jar is Some && line.contains('/') {
        match after_file_line(st.mappings, line, ctx, st.registrations) {
            Ok(m) => Ok(JarState { mappings: m, ..st }),
            Err(e) => Err(e),
        }
    } else {
        Ok(st)
    }
}

/// How far the reading of a manifest came: the state after the last line
/// that was accepted, and the error of the line that was refused, if one
/// was.
pub struct JarOutcome {
    pub state: JarState,
    pub error: Option<JarErrorView>,
}

/// The outcome of reading the first `n` lines of a jar manifest from the
/// state `st`: reading stops at the first line that is refused.
pub open spec fn after_jar_lines(st: JarState, lines: Seq<Seq<char>>, n: int, ctx: JarContext) -> JarOutcome
    decreases n,
{
    if n <= 0 {
        JarOutcome { state: st, error: None }
    } else {
        let before = after_jar_lines(st, lines, n - 1, ctx);
        if before.error is Some {
            before
        } else {
            match after_jar_line(before.state, lines[n - 1], ctx) {
                Ok(next) => JarOutcome { state: next, error: None },
                Err(e) => JarOutcome { state: before.state, error: Some(e) },
            }
        }
    }
}

/// Once a line is refused, the lines after it change nothing.
pub proof fn lemma_jar_error_stays(
    st: JarState,
    lines: Seq<Seq<char>>,
    k: int,
    n: int,
    ctx: JarContext,
)
    requires
        0 <= k <= n,
        after_jar_lines(st, lines, k, ctx).error is Some,
    ensures
        after_jar_lines(st, lines, n, ctx) == after_jar_lines(st, lines, k, ctx),
    decreases n - k,
{
    if n > k {
        lemma_jar_error_stays(st, lines, k, n - 1, ctx);
    }
}

/// The state in which the reading of a jar manifest starts.
pub open spec fn jar_start(
    mappings: Map<Seq<char>, Seq<char>>,
    registrations: Seq<RegistrationView>,
) -> JarState {
    JarState {
        current_jar: None,
        stack: Seq::empty(),
        included: true,
        mappings,
        registrations,
    }
}

/// The outcome of reading the jar manifest `content` found at `jar_path`.
pub open spec fn jar_outcome(
    content: Seq<char>,
    jar_path: Seq<char>,
    firefox_dir: Seq<char>,
    cwd: Seq<char>,
    mappings: Map<Seq<char>, Seq<char>>,
    registrations: Seq<RegistrationView>,
    flags: Map<Seq<char>, bool>,
) -> JarOutcome {
    after_jar_lines(
        jar_start(mappings, registrations),
        lines(content),
        lines(content).len() as int,
        JarContext { jar_dir: directory_of(jar_path), firefox_dir, cwd, flags },
    )
}

/// Reads a jar manifest, whose includes have been spliced in, line by
/// line, and records its registrations and file mappings. Reading stops at
/// the first line that is refused; what was recorded until then stays.
pub fn parse_jar_file(
    content: &str,
    jar_path: &str,
    firefox_dir: &str,
    cwd: &str,
    mappings: &mut ReplacementMap,
    chrome_registrations: &mut Vec<ChromeRegistration>,
    ifdef_config: &IfdefConfig,
) -> (r: Result<(), JarResolverError>)
    ensures
        ({
            let out = jar_outcome(
                content@,
                jar_path@,
                firefox_dir@,
                cwd@,
                old(mappings)@,
                registration_views(old(chrome_registrations)@),
                ifdef_config@,
            );
            &&& final(mappings)@ == out.state.mappings
            &&& registration_views(final(chrome_registrations)@) == out.state.registrations
            &&& match r {
                Ok(_) => out.error is None,
                Err(e) => out.error == Some(e@),
            }
        }),
{
    let content_chars = to_chars(content);
    let all = lines_exec(&content_chars);
    let jar_dir_chars = match parent_exec(&to_chars(jar_path)) {
        Some(p) => p,
        None => Vec::new(),
    };
    let jar_dir = from_chars(&jar_dir_chars);
    let ghost ctx = JarContext {
        jar_dir: directory_of(jar_path@),
        firefox_dir: firefox_dir@,
        cwd: cwd@,
        flags: ifdef_config@,
    };
    let ghost start = jar_start(old(mappings)@, registration_views(old(chrome_registrations)@));
    let mut current_jar: Option<Vec<char>> = None;
    let ghost mut jar_view: Option<Seq<char>> = None;
    let mut stack: Vec<bool> = Vec::new();
    let mut included = true;
    let ifdef = to_chars("#ifdef ");
    let ifndef = to_chars("#ifndef ");
    let endif = to_chars("#endif");
    let mut i: usize = 0;
    while i < all.len()
        invariant
            i <= all.len(),
            seqs(all@) == lines(content@),
            jar_dir@ == ctx.jar_dir,
            ctx == (JarContext {
                jar_dir: directory_of(jar_path@),
                firefox_dir: firefox_dir@,
                cwd: cwd@,
                flags: ifdef_config@,
            }),
            ifdef@ == "#ifdef "@,
            ifndef@ == "#ifndef "@,
            endif@ == "#endif"@,
            jar_view is Some == current_jar is Some,
            start == jar_start(old(mappings)@, registration_views(old(chrome_registrations)@)),
            after_jar_lines(start, seqs(all@), i as int, ctx) == (JarOutcome {
                state: JarState {
                    current_jar: jar_view,
                    stack: stack@,
                    included,
                    mappings: mappings@,
                    registrations: registration_views(chrome_registrations@),
                },
                error: None,
            }),
        decreases all.len() - i,
    {
        let ghost st = JarState {
            current_jar: jar_view,
            stack: stack@,
            included,
            mappings: mappings@,
            registrations: registration_views(chrome_registrations@),
        };
        assert(seqs(all@)[i as int] == all@[i as int]@);
        let line = trim_chars(&all[i]);
        if line.len() == 0 || line[0] == '#' {
            let is_ifdef = starts_with(&line, &ifdef);
            if is_ifdef || starts_with(&line, &ifndef) {
                let rest = if is_ifdef {
                    slice(&line, ifdef.len(), line.len())
                } else {
                    slice(&line, ifndef.len(), line.len())
                };
                let condition = from_chars(&trim_chars(&rest));
                match ifdef_config.get(condition.as_str()) {
                    Some(value) => {
                        let holds = if is_ifdef {
                            value
                        } else {
                            !value
                        };
                        stack.push(included);
                        included = included && holds;
                    },
                    None => {
                        proof {
                            assert(after_jar_lines(start, seqs(all@), i + 1, ctx).error is Some);
                            lemma_jar_error_stays(start, seqs(all@), i + 1, all.len() as int, ctx);
                        }
                        return Err(JarResolverError::UnknownIfdefCondition(condition));
                    },
                }
            } else if chars_eq(&line, &endif) {
                match stack.pop() {
                    Some(flag) => {
                        included = flag;
                    },
                    None => {
                        proof {
                            assert(after_jar_lines(start, seqs(all@), i + 1, ctx).error is Some);
                            lemma_jar_error_stays(start, seqs(all@), i + 1, all.len() as int, ctx);
                        }
                        return Err(JarResolverError::UnmatchedEndif);
                    },
                }
            }
        } else if !included || line[0] == '*' {
        } else if ends_with_str(&line, ".jar:") {
            let name = slice(&line, 0, line.len() - 1);
            proof {
                jar_view = Some(name@);
            }
            current_jar = Some(name);
        } else if line[0] == '%' {
            let text = from_chars(&line);
            parse_registration_line(text.as_str(), chrome_registrations);
        } else if current_jar.is_some() && contains_char(&line, '/') {
            let text = from_chars(&line);
            match parse_file_line(
                text.as_str(),
                jar_dir.as_str(),
                firefox_dir,
                cwd,
                mappings,
                chrome_registrations,
            ) {
                Ok(_) => {},
                Err(e) => {
                    proof {
                        assert(after_jar_lines(start, seqs(all@), i + 1, ctx).error is Some);
                        lemma_jar_error_stays(start, seqs(all@), i + 1, all.len() as int, ctx);
                    }
                    return Err(e);
                },
            }
        }
        i += 1;
    }
    Ok(())
}

/// The file that one entry of a bracketed list names: the entry without
/// white space and quotes around it.
pub open spec fn list_entry(part: Seq<char>) -> Seq<char> {
    trim_char(trim_char(trim(part), '"'), '\'')
}

/// The URL map after one entry of a list of content-accessible files: a
/// file with a file name is reached as
/// `resource://content-accessible/<file name>`, and lies below the
/// directory of the build description.
pub open spec fn after_list_entry(
    mappings: Map<Seq<char>, Seq<char>>,
    part: Seq<char>,
    ctx: JarContext,
) -> Map<Seq<char>, Seq<char>> {
    let file = list_entry(part);
    if file.len() == 0 {
        mappings
    } else {
        match file_name(file) {
            Some(name) => mappings.insert(
                "resource://content-accessible/"@ + name,
                relative_to(push_path(ctx.firefox_dir, push_path(ctx.jar_dir, file)), ctx.cwd),
            ),
            None => mappings,
        }
    }
}

/// The URL map after the first `n` entries of a list.
pub open spec fn after_list_entries(
    mappings: Map<Seq<char>, Seq<char>>,
    parts: Seq<Seq<char>>,
    n: int,
    ctx: JarContext,
) -> Map<Seq<char>, Seq<char>>
    decreases n,
{
    if n <= 0 {
        mappings
    } else {
        after_list_entry(after_list_entries(mappings, parts, n - 1, ctx), parts[n - 1], ctx)
    }
}

/// The URL map after the entries of `files`, which commas separate.
pub open spec fn after_file_list(
    mappings: Map<Seq<char>, Seq<char>>,
    files: Seq<char>,
    ctx: JarContext,
) -> Map<Seq<char>, Seq<char>> {
    after_list_entries(mappings, split_char(files, ','), split_char(files, ',').len() as int, ctx)
}

/// Records the files that a piece of a bracketed list names.
pub fn parse_file_list(
    files_str: &str,
    mozbuild_dir: &str,
    firefox_dir: &str,
    cwd: &str,
    mappings: &mut ReplacementMap,
)
    ensures
        final(mappings)@ == after_file_list(
            old(mappings)@,
            files_str@,
            JarContext {
                jar_dir: mozbuild_dir@,
                firefox_dir: firefox_dir@,
                cwd: cwd@,
                flags: Map::empty(),
            },
        ),
{
    let chars = to_chars(files_str);
    list_into(&chars, mozbuild_dir, firefox_dir, cwd, mappings);
}

fn list_into(
    files: &Vec<char>,
    mozbuild_dir: &str,
    firefox_dir: &str,
    cwd: &str,
    mappings: &mut ReplacementMap,
)
    ensures
        final(mappings)@ == after_file_list(
            old(mappings)@,
            files@,
            JarContext {
                jar_dir: mozbuild_dir@,
                firefox_dir: firefox_dir@,
                cwd: cwd@,
                flags: Map::empty(),
            },
        ),
{
    let parts = split_char_exec(files, ',');
    let dir = to_chars(mozbuild_dir);
    let root = to_chars(firefox_dir);
    let scheme = to_chars("resource://content-accessible/");
    let ghost ctx = JarContext {
        jar_dir: mozbuild_dir@,
        firefox_dir: firefox_dir@,
        cwd: cwd@,
        flags: Map::empty(),
    };
    let mut i: usize = 0;
    while i < parts.len()
        invariant
            i <= parts.len(),
            seqs(parts@) == split_char(files@, ','),
            dir@ == mozbuild_dir@,
            root@ == firefox_dir@,
            scheme@ == "resource://content-accessible/"@,
            ctx == (JarContext {
                jar_dir: mozbuild_dir@,
                firefox_dir: firefox_dir@,
                cwd: cwd@,
                flags: Map::empty(),
            }),
            mappings@ == after_list_entries(old(mappings)@, seqs(parts@), i as int, ctx),
        decreases parts.len() - i,
    {
        assert(seqs(parts@)[i as int] == parts@[i as int]@);
        let file = trim_char_exec(&trim_char_exec(&trim_chars(&parts[i]), '"'), '\'');
        if file.len() > 0 {
            if let Some(name) = file_name_exec(&file) {
                let source = push_path_exec(&dir, &file);
                let full = from_chars(&push_path_exec(&root, &source));
                let relative = make_relative_to_cwd(full.as_str(), cwd);
                let url = from_chars(&append_chars(&scheme, &name));
                mappings.insert(url, relative);
            }
        }
        i += 1;
    }
}

/// What follows the first `[` of `line`.
pub open spec fn after_bracket(line: Seq<char>) -> Seq<char> {
    line.subrange(index_of(line, '[') + 1, line.len() as int)
}

/// The URL map after a bracketed list that starts at or after line `i`,
/// and the index of the line after the list. `in_list` says whether the
/// opening bracket has been seen; the list ends with the first `]` on the
/// line of the opening bracket after it, or on a later line; without one it
/// ends with the last line.
pub open spec fn after_accessible_files(
    mappings: Map<Seq<char>, Seq<char>>,
    lines: Seq<Seq<char>>,
    i: int,
    in_list: bool,
    ctx: JarContext,
) -> (Map<Seq<char>, Seq<char>>, int)
    decreases lines.len() - i,
{
    if i >= lines.len() || i < 0 {
        (mappings, i)
    } else {
        let line = trim(lines[i]);
        if line.contains('[') {
            let after = after_bracket(line);
            let close = index_of(after, ']');
            if 0 <= close < after.len() {
                (after_file_list(mappings, after.subrange(0, close), ctx), i + 1)
            } else {
                after_accessible_files(
                    after_file_list(mappings, after, ctx),
                    lines,
                    i + 1,
                    true,
                    ctx,
                )
            }
        } else if in_list {
            let close = index_of(line, ']');
            if 0 <= close < line.len() {
                (after_file_list(mappings, line.subrange(0, close), ctx), i + 1)
            } else {
                after_accessible_files(
                    after_file_list(mappings, line, ctx),
                    lines,
                    i + 1,
                    true,
                    ctx,
                )
            }
        } else {
            after_accessible_files(mappings, lines, i + 1, false, ctx)
        }
    }
}

/// The list that starts at or after line `i` ends after line `i`, and not
/// after the last line.
pub proof fn lemma_accessible_files_advance(
    mappings: Map<Seq<char>, Seq<char>>,
    lines: Seq<Seq<char>>,
    i: int,
    in_list: bool,
    ctx: JarContext,
)
    requires
        0 <= i <= lines.len(),
    ensures
        i <= after_accessible_files(mappings, lines, i, in_list, ctx).1 <= lines.len(),
        i < lines.len() ==> i < after_accessible_files(mappings, lines, i, in_list, ctx).1,
    decreases lines.len() - i,
{
    if i < lines.len() {
        let line = trim(lines[i]);
        if line.contains('[') {
            let after = after_bracket(line);
            let close = index_of(after, ']');
            if !(0 <= close < after.len()) {
                lemma_accessible_files_advance(
                    after_file_list(mappings, after, ctx),
                    lines,
                    i + 1,
                    true,
                    ctx,
                );
            }
        } else if in_list {
            let close = index_of(line, ']');
            if !(0 <= close < line.len()) {
                lemma_accessible_files_advance(
                    after_file_list(mappings, line, ctx),
                    lines,
                    i + 1,
                    true,
                    ctx,
                );
            }
        } else {
            lemma_accessible_files_advance(mappings, lines, i + 1, false, ctx);
        }
    }
}

/// Records the files of the bracketed list that starts at or after line
/// `start_idx`, and returns the index of the line after the list.
pub fn parse_content_accessible_files(
    lines: &Vec<Vec<char>>,
    start_idx: usize,
    mozbuild_dir: &str,
    firefox_dir: &str,
    cwd: &str,
    mappings: &mut ReplacementMap,
) -> (r: usize)
    requires
        start_idx <= lines.len(),
    ensures
        (final(mappings)@, r as int) == after_accessible_files(
            old(mappings)@,
            seqs(lines@),
            start_idx as int,
            false,
            JarContext {
                jar_dir: mozbuild_dir@,
                firefox_dir: firefox_dir@,
                cwd: cwd@,
                flags: Map::empty(),
            },
        ),
{
    let ghost ctx = JarContext {
        jar_dir: mozbuild_dir@,
        firefox_dir: firefox_dir@,
        cwd: cwd@,
        flags: Map::empty(),
    };
    let mut i: usize = start_idx;
    let mut in_list = false;
    while i < lines.len()
        invariant
            start_idx <= i <= lines.len(),
            ctx == (JarContext {
                jar_dir: mozbuild_dir@,
                firefox_dir: firefox_dir@,
                cwd: cwd@,
                flags: Map::empty(),
            }),
            after_accessible_files(old(mappings)@, seqs(lines@), start_idx as int, false, ctx)
                == after_accessible_files(mappings@, seqs(lines@), i as int, in_list, ctx),
        decreases lines.len() - i,
    {
        assert(seqs(lines@)[i as int] == lines@[i as int]@);
        let line = trim_chars(&lines[i]);
        let open = find_char_from(&line, '[', 0);
        proof {
            crate::text::lemma_index_of_from(line@, '[', 0);
        }
        if open < line.len() {
            in_list = true;
            let after = slice(&line, open + 1, line.len());
            let close = find_char_from(&after, ']', 0);
            if close < after.len() {
                list_into(&slice(&after, 0, close), mozbuild_dir, firefox_dir, cwd, mappings);
                return i + 1;
            } else {
                list_into(&after, mozbuild_dir, firefox_dir, cwd, mappings);
            }
        } else if in_list {
            let close = find_char_from(&line, ']', 0);
            if close < line.len() {
                list_into(&slice(&line, 0, close), mozbuild_dir, firefox_dir, cwd, mappings);
                return i + 1;
            } else {
                list_into(&line, mozbuild_dir, firefox_dir, cwd, mappings);
            }
        }
        i += 1;
    }
    i
}

/// The index of the first line at or after `i` that holds a `[`, or the
/// number of lines.
pub open spec fn next_bracket_line(lines: Seq<Seq<char>>, i: int) -> int
    decreases lines.len() - i,
{
    if i >= lines.len() || i < 0 {
        lines.len() as int
    } else if trim(lines[i]).contains('[') {
        i
    } else {
        next_bracket_line(lines, i + 1)
    }
}

/// Whether a line assigns to the list of content-accessible files.
pub open spec fn is_accessible_files_assignment(line: Seq<char>) -> bool {
    "CONTENT_ACCESSIBLE_FILES"@.is_prefix_of(line) && line.contains('=')
}

/// The URL map after the lines of a build description from line `i` on:
/// each assignment to the list of content-accessible files is followed by a
/// bracketed list, on its own line or on a later one, whose files are
/// recorded; an empty list on the line of the assignment is passed over.
pub open spec fn after_build_lines(
    mappings: Map<Seq<char>, Seq<char>>,
    lines: Seq<Seq<char>>,
    i: int,
    ctx: JarContext,
) -> Map<Seq<char>, Seq<char>>
    decreases lines.len() - i,
{
    if i >= lines.len() || i < 0 {
        mappings
    } else {
        let line = trim(lines[i]);
        if is_accessible_files_assignment(line) {
            if line.contains('[') && seq![']'].is_prefix_of(trim(after_bracket(line))) {
                after_build_lines(mappings, lines, i + 1, ctx)
            } else {
                let start = if line.contains('[') {
                    i
                } else {
                    next_bracket_line(lines, i + 1)
                };
                let list = after_accessible_files(mappings, lines, start, false, ctx);
                if start >= lines.len() || list.1 <= i || list.1 > lines.len() {
                    mappings
                } else {
                    after_build_lines(list.0, lines, list.1, ctx)
                }
            }
        } else {
            after_build_lines(mappings, lines, i + 1, ctx)
        }
    }
}

/// The URL map after the build description `content` found at
/// `mozbuild_path`.
pub open spec fn after_build_file(
    mappings: Map<Seq<char>, Seq<char>>,
    content: Seq<char>,
    mozbuild_path: Seq<char>,
    firefox_dir: Seq<char>,
    cwd: Seq<char>,
) -> Map<Seq<char>, Seq<char>> {
    after_build_lines(
        mappings,
        lines(content),
        0,
        JarContext { jar_dir: directory_of(mozbuild_path), firefox_dir, cwd, flags: Map::empty() },
    )
}

/// Reads a build description and records the content-accessible files
/// that it lists.
pub fn parse_mozbuild_file(
    content: &str,
    mozbuild_path: &str,
    firefox_dir: &str,
    cwd: &str,
    mappings: &mut ReplacementMap,
)
    ensures
        final(mappings)@ == after_build_file(
            old(mappings)@,
            content@,
            mozbuild_path@,
            firefox_dir@,
            cwd@,
        ),
{
    let all = lines_exec(&to_chars(content));
    let dir_chars = match parent_exec(&to_chars(mozbuild_path)) {
        Some(p) => p,
        None => Vec::new(),
    };
    let dir = from_chars(&dir_chars);
    let ghost ctx = JarContext {
        jar_dir: directory_of(mozbuild_path@),
        firefox_dir: firefox_dir@,
        cwd: cwd@,
        flags: Map::empty(),
    };
    let mut i: usize = 0;
    while i < all.len()
        invariant
            i <= all.len(),
            seqs(all@) == lines(content@),
            dir@ == directory_of(mozbuild_path@),
            ctx == (JarContext {
                jar_dir: directory_of(mozbuild_path@),
                firefox_dir: firefox_dir@,
                cwd: cwd@,
                flags: Map::empty(),
            }),
            after_build_lines(old(mappings)@, seqs(all@), 0, ctx) == after_build_lines(
                mappings@,
                seqs(all@),
                i as int,
                ctx,
            ),
        decreases all.len() - i,
    {
        assert(seqs(all@)[i as int] == all@[i as int]@);
        let line = trim_chars(&all[i]);
        if starts_with_str(&line, "CONTENT_ACCESSIBLE_FILES") && contains_char(&line, '=') {
            let open = find_char_from(&line, '[', 0);
            proof {
                crate::text::lemma_index_of_from(line@, '[', 0);
            }
            let has_bracket = open < line.len();
            let mut empty_list = false;
            if has_bracket {
                let after = trim_chars(&slice(&line, open + 1, line.len()));
                empty_list = after.len() > 0 && after[0] == ']';
                assert(empty_list == seq![']'].is_prefix_of(after@)) by {
                    if empty_list {
                        assert(after@.subrange(0, 1) =~= seq![']']);
                    } else if after.len() > 0 {
                        assert(after@.subrange(0, 1)[0] == after@[0]);
                    }
                }
            }
            if empty_list {
                i += 1;
            } else {
                let mut start: usize = i;
                if !has_bracket {
                    start = i + 1;
                    while start < all.len() && !contains_char(&trim_chars(&all[start]), '[')
                        invariant
                            i < start <= all.len(),
                            next_bracket_line(seqs(all@), i + 1) == next_bracket_line(
                                seqs(all@),
                                start as int,
                            ),
                        decreases all.len() - start,
                    {
                        assert(seqs(all@)[start as int] == all@[start as int]@);
                        start += 1;
                    }
                    assert(start < all.len() ==> seqs(all@)[start as int] == all@[start as int]@);
                }
                if start >= all.len() {
                    return ;
                }
                proof {
                    lemma_accessible_files_advance(mappings@, seqs(all@), start as int, false, ctx);
                }
                i = parse_content_accessible_files(&all, start, dir.as_str(), firefox_dir, cwd, mappings);
            }
        } else {
            i += 1;
        }
    }
}

/// A manifest as it was found on disk: its path below the root of the
/// source tree and, unless it is missing or unreadable, its text. The text
/// of a jar manifest is given with its includes spliced in.
#[derive(Debug)]
pub struct ManifestFile {
    pub path: String,
    pub content: Option<String>,
}

/// The URL map and the registrations after the first `n` jar manifests:
/// a manifest without text is passed over, and the first line that is
/// refused ends the reading with its error.
pub open spec fn after_jar_files(
    files: Seq<ManifestFile>,
    n: int,
    firefox_dir: Seq<char>,
    cwd: Seq<char>,
    flags: Map<Seq<char>, bool>,
) -> Result<(Map<Seq<char>, Seq<char>>, Seq<RegistrationView>), JarErrorView>
    decreases n,
{
    if n <= 0 {
        Ok((Map::empty(), Seq::empty()))
    } else {
        match after_jar_files(files, n - 1, firefox_dir, cwd, flags) {
            Err(e) => Err(e),
            Ok(before) => match files[n - 1].content {
                None => Ok(before),
                Some(content) => {
                    let out = jar_outcome(
                        content@,
                        files[n - 1].path@,
                        firefox_dir,
                        cwd,
                        before.0,
                        before.1,
                        flags,
                    );
                    match out.error {
                        Some(e) => Err(e),
                        None => Ok((out.state.mappings, out.state.registrations)),
                    }
                },
            },
        }
    }
}

/// The URL map after the first `n` build descriptions: one without text
/// is passed over.
pub open spec fn after_build_files(
    mappings: Map<Seq<char>, Seq<char>>,
    files: Seq<ManifestFile>,
    n: int,
    firefox_dir: Seq<char>,
    cwd: Seq<char>,
) -> Map<Seq<char>, Seq<char>>
    decreases n,
{
    if n <= 0 {
        mappings
    } else {
        let before = after_build_files(mappings, files, n - 1, firefox_dir, cwd);
        match files[n - 1].content {
            None => before,
            Some(content) => after_build_file(
                before,
                content@,
                files[n - 1].path@,
                firefox_dir,
                cwd,
            ),
        }
    }
}

/// The URL map that the manifests give: the jar manifests are read in
/// turn, then the build descriptions.
pub open spec fn resolved_mappings(
    firefox_dir: Seq<char>,
    cwd: Seq<char>,
    jar_files: Seq<ManifestFile>,
    mozbuild_files: Seq<ManifestFile>,
    flags: Map<Seq<char>, bool>,
) -> Result<Map<Seq<char>, Seq<char>>, JarErrorView> {
    match after_jar_files(jar_files, jar_files.len() as int, firefox_dir, cwd, flags) {
        Err(e) => Err(e),
        Ok(jars) => Ok(
            after_build_files(jars.0, mozbuild_files, mozbuild_files.len() as int, firefox_dir, cwd),
        ),
    }
}

/// Whether `url` is written in one of the internal schemes.
pub open spec fn is_internal(url: Seq<char>) -> bool {
    "chrome://"@.is_prefix_of(url) || "resource://"@.is_prefix_of(url)
}

/// The map from opaque URLs to files, read once from the manifests.
pub struct JarResolver {
    mappings: ReplacementMap,
}

impl View for JarResolver {
    type V = Map<Seq<char>, Seq<char>>;

    closed spec fn view(&self) -> Map<Seq<char>, Seq<char>> {
        self.mappings@
    }
}

impl JarResolver {
    /// Builds the URL map from the manifests of a source tree rooted at
    /// `firefox_dir`, as seen from the working directory `cwd`. Missing
    /// manifests are passed over; a line that a jar manifest refuses ends
    /// the construction with its error.
    pub fn new(
        firefox_dir: &str,
        cwd: &str,
        jar_files: &Vec<ManifestFile>,
        mozbuild_files: &Vec<ManifestFile>,
        ifdef_config: Option<Vec<(String, bool)>>,
    ) -> (r: Result<Self, JarResolverError>)
        ensures
            match resolved_mappings(
                firefox_dir@,
                cwd@,
                jar_files@,
                mozbuild_files@,
                chosen_flags(ifdef_config),
            ) {
                Ok(m) => r matches Ok(resolver) && resolver@ == m,
                Err(e) => r matches Err(err) && err@ == e,
            },
    {
        let config = IfdefConfig::with_overrides(&ifdef_config);
        let mut mappings = ReplacementMap::new();
        let mut registrations: Vec<ChromeRegistration> = Vec::new();
        assert(registration_views(registrations@) =~= Seq::empty());
        let mut i: usize = 0;
        while i < jar_files.len()
            invariant
                i <= jar_files.len(),
                config@ == chosen_flags(ifdef_config),
                after_jar_files(jar_files@, i as int, firefox_dir@, cwd@, config@) == Ok::<
                    (Map<Seq<char>, Seq<char>>, Seq<RegistrationView>),
                    JarErrorView,
                >((mappings@, registration_views(registrations@))),
            decreases jar_files.len() - i,
        {
            if let Some(content) = &jar_files[i].content {
                match parse_jar_file(
                    content.as_str(),
                    jar_files[i].path.as_str(),
                    firefox_dir,
                    cwd,
                    &mut mappings,
                    &mut registrations,
                    &config,
                ) {
                    Ok(_) => {},
                    Err(e) => {
                        proof {
                            lemma_jar_files_error_stays(
                                jar_files@,
                                i + 1,
                                jar_files@.len() as int,
                                firefox_dir@,
                                cwd@,
                                config@,
                            );
                        }
                        return Err(e);
                    },
                }
            }
            i += 1;
        }
        let ghost jars = mappings@;
        let mut j: usize = 0;
        while j < mozbuild_files.len()
            invariant
                j <= mozbuild_files.len(),
                mappings@ == after_build_files(jars, mozbuild_files@, j as int, firefox_dir@, cwd@),
            decreases mozbuild_files.len() - j,
        {
            if let Some(content) = &mozbuild_files[j].content {
                parse_mozbuild_file(
                    content.as_str(),
                    mozbuild_files[j].path.as_str(),
                    firefox_dir,
                    cwd,
                    &mut mappings,
                );
            }
            j += 1;
        }
        Ok(JarResolver { mappings })
    }

    /// Whether `url` is written in one of the internal schemes,
    /// `chrome://` and `resource://`.
    pub fn is_internal_url(&self, url: &str) -> (r: bool)
        ensures
            r == is_internal(url@),
    {
        let chars = to_chars(url);
        starts_with_str(&chars, "chrome://") || starts_with_str(&chars, "resource://")
    }

    /// The file that the URL map gives for `url`.
    pub fn resolve_path(&self, url: &str) -> (r: Result<String, JarResolverError>)
        ensures
            match r {
                Ok(path) => is_internal(url@) && self@.contains_key(url@) && path@ == self@[url@],
                Err(JarResolverError::InvalidChromeUrl(u)) => !is_internal(url@) && u@ == url@,
                Err(JarResolverError::NoMappingFound(u)) => is_internal(url@)
                    && !self@.contains_key(url@) && u@ == url@,
                Err(_) => false,
            },
    {
        if !self.is_internal_url(url) {
            return Err(JarResolverError::InvalidChromeUrl(from_chars(&to_chars(url))));
        }
        match self.mappings.get(url) {
            Some(path) => Ok(path.clone()),
            None => Err(JarResolverError::NoMappingFound(from_chars(&to_chars(url)))),
        }
    }
}

/// Once a jar manifest is refused, the manifests after it change nothing.
pub proof fn lemma_jar_files_error_stays(
    files: Seq<ManifestFile>,
    k: int,
    n: int,
    firefox_dir: Seq<char>,
    cwd: Seq<char>,
    flags: Map<Seq<char>, bool>,
)
    requires
        0 <= k <= n,
        after_jar_files(files, k, firefox_dir, cwd, flags) is Err,
    ensures
        after_jar_files(files, n, firefox_dir, cwd, flags) == after_jar_files(
            files,
            k,
            firefox_dir,
            cwd,
            flags,
        ),
    decreases n - k,
{
    if n > k {
        lemma_jar_files_error_stays(files, k, n - 1, firefox_dir, cwd, flags);
    }
}

} // verus!
