//! The URL resolver: from an import text and the importing file to a path.

use crate::text::{
    contains_char, contains_seq, contains_str, ends_with_str, from_chars, slice,
    starts_with_str, to_chars, trim, trim_chars,
};
use crate::utils::file_utils::{make_relative_to_cwd, normalize_chars, normalized, relative_to};
use crate::utils::jar_resolver::{is_internal, JarResolver, JarResolverError};
use crate::utils::paths::{parent, parent_exec, push_path, push_path_exec};
use vstd::prelude::*;

verus! {

/// Why an import text could not be resolved.
#[derive(Debug)]
pub enum PathFinderError {
    ChromeMappingNotFound(String),
    InvalidRelativePath(String),
    RelativePathResolutionFailed { from: String, import: String },
    EmptyImportString,
    UnsupportedImportFormat(String),
    FileNotFound(String),
}

/// An error of the resolver as a mathematical value.
pub enum PathFinderErrorView {
    ChromeMappingNotFound(Seq<char>),
    InvalidRelativePath(Seq<char>),
    RelativePathResolutionFailed { from: Seq<char>, import: Seq<char> },
    EmptyImportString,
    UnsupportedImportFormat(Seq<char>),
    FileNotFound(Seq<char>),
}

impl View for PathFinderError {
    type V = PathFinderErrorView;

    open spec fn view(&self) -> PathFinderErrorView {
        match self {
            PathFinderError::ChromeMappingNotFound(s) => PathFinderErrorView::ChromeMappingNotFound(
                s@,
            ),
            PathFinderError::InvalidRelativePath(s) => PathFinderErrorView::InvalidRelativePath(s@),
            PathFinderError::RelativePathResolutionFailed { from, import } =>
                PathFinderErrorView::RelativePathResolutionFailed { from: from@, import: import@ },
            PathFinderError::EmptyImportString => PathFinderErrorView::EmptyImportString,
            PathFinderError::UnsupportedImportFormat(s) =>
                PathFinderErrorView::UnsupportedImportFormat(s@),
            PathFinderError::FileNotFound(s) => PathFinderErrorView::FileNotFound(s@),
        }
    }
}

/// Whether an import text has the looks of a relative path: it starts
/// with `./`, `../` or `/`, or it names no scheme and either ends like a
/// source file or holds a `/`.
pub open spec fn looks_relative(s: Seq<char>) -> bool {
    "./"@.is_prefix_of(s) || "../"@.is_prefix_of(s) || "/"@.is_prefix_of(s) || (!contains_seq(
        s,
        "://"@,
    ) && (".js"@.is_suffix_of(s) || ".css"@.is_suffix_of(s) || ".ts"@.is_suffix_of(s)
        || ".jsx"@.is_suffix_of(s) || ".tsx"@.is_suffix_of(s) || s.contains('/')))
}

/// The path that a relative import stands for, before it is brought into
/// normal form: an import that starts with `/` is joined, without that `/`,
/// to the working directory `cwd`; any other is joined to the directory of
/// the importing file, and stands for no path if that file has none.
pub open spec fn joined_import(
    current_file: Seq<char>,
    import_string: Seq<char>,
    cwd: Seq<char>,
) -> Option<Seq<char>> {
    if import_string.len() > 0 && import_string[0] == '/' {
        Some(push_path(cwd, import_string.subrange(1, import_string.len() as int)))
    } else {
        match parent(current_file) {
            Some(dir) => Some(push_path(dir, import_string)),
            None => None,
        }
    }
}

/// The path that an import text of the file `current_file` resolves to,
/// as seen from the working directory `cwd`, given the URL map `urls`.
///
/// An internal URL is looked up in the map. A relative path is joined to
/// the directory of the importing file, or to the working directory if it
/// starts with `/`, and brought into normal form. Anything else is refused.
pub open spec fn resolution(
    urls: Map<Seq<char>, Seq<char>>,
    current_file: Seq<char>,
    import_string: Seq<char>,
    cwd: Seq<char>,
) -> Result<Seq<char>, PathFinderErrorView> {
    let s = trim(import_string);
    if s.len() == 0 {
        Err(PathFinderErrorView::EmptyImportString)
    } else if is_internal(s) {
        if urls.contains_key(s) {
            Ok(relative_to(urls[s], cwd))
        } else {
            Err(PathFinderErrorView::ChromeMappingNotFound(s))
        }
    } else if looks_relative(s) {
        match joined_import(current_file, s, cwd) {
            Some(path) => Ok(relative_to(normalized(path), cwd)),
            None => Err(
                PathFinderErrorView::RelativePathResolutionFailed { from: current_file, import: s },
            ),
        }
    } else {
        Err(PathFinderErrorView::UnsupportedImportFormat(s))
    }
}

/// Resolves import texts to paths.
pub struct PathFinder {
    jar_resolver: JarResolver,
}

impl View for PathFinder {
    type V = Map<Seq<char>, Seq<char>>;

    closed spec fn view(&self) -> Map<Seq<char>, Seq<char>> {
        self.jar_resolver@
    }
}

impl PathFinder {
    /// A resolver over the URL map of `jar_resolver`.
    pub fn new(jar_resolver: JarResolver) -> (r: Self)
        ensures
            r@ == jar_resolver@,
    {
        PathFinder { jar_resolver }
    }

    /// Whether an import text has the looks of a relative path.
    pub fn is_relative_path(&self, import_string: &str) -> (r: bool)
        ensures
            r == looks_relative(import_string@),
    {
        let s = to_chars(import_string);
        starts_with_str(&s, "./") || starts_with_str(&s, "../") || starts_with_str(&s, "/") || (
        !contains_str(&s, "://") && (ends_with_str(&s, ".js") || ends_with_str(&s, ".css")
            || ends_with_str(&s, ".ts") || ends_with_str(&s, ".jsx") || ends_with_str(&s, ".tsx")
            || contains_char(&s, '/')))
    }

    /// Joins a relative import to the directory of the importing file, or
    /// to the working directory `cwd` if it starts with `/`, and brings the
    /// result into normal form.
    pub fn resolve_relative_path(&self, current_file: &str, import_string: &str, cwd: &str) -> (r:
        Result<String, PathFinderError>)
        ensures
            match joined_import(current_file@, import_string@, cwd@) {
                Some(path) => r matches Ok(p) && p@ == normalized(path),
                None => r matches Err(e) && e@ == (PathFinderErrorView::RelativePathResolutionFailed {
                    from: current_file@,
                    import: import_string@,
                }),
            },
    {
        let import = to_chars(import_string);
        let joined = if import.len() > 0 && import[0] == '/' {
            push_path_exec(&to_chars(cwd), &slice(&import, 1, import.len()))
        } else {
            match parent_exec(&to_chars(current_file)) {
                Some(dir) => push_path_exec(&dir, &import),
                None => {
                    return Err(
                        PathFinderError::RelativePathResolutionFailed {
                            from: from_chars(&to_chars(current_file)),
                            import: from_chars(&import),
                        },
                    );
                },
            }
        };
        Ok(from_chars(&normalize_chars(&joined)))
    }

    /// Resolves the import text `import_string`, found in `current_file`,
    /// to a path as seen from the working directory `cwd`. Whether the file
    /// is on disk is not looked at here.
    pub fn get_path(&self, current_file: &str, import_string: &str, cwd: &str) -> (r: Result<
        String,
        PathFinderError,
    >)
        ensures
            match resolution(self@, current_file@, import_string@, cwd@) {
                Ok(path) => r matches Ok(p) && p@ == path,
                Err(e) => r matches Err(err) && err@ == e,
            },
    {
        let import = from_chars(&trim_chars(&to_chars(import_string)));
        if import.as_str().is_empty() {
            return Err(PathFinderError::EmptyImportString);
        }
        let resolved = if self.jar_resolver.is_internal_url(import.as_str()) {
            match self.jar_resolver.resolve_path(import.as_str()) {
                Ok(path) => path,
                Err(JarResolverError::NoMappingFound(url)) => {
                    return Err(PathFinderError::ChromeMappingNotFound(url));
                },
                Err(_) => {
                    return Err(PathFinderError::UnsupportedImportFormat(import));
                },
            }
        } else if self.is_relative_path(import.as_str()) {
            match self.resolve_relative_path(current_file, import.as_str(), cwd) {
                Ok(path) => path,
                Err(e) => {
                    return Err(e);
                },
            }
        } else {
            return Err(PathFinderError::UnsupportedImportFormat(import));
        };
        Ok(make_relative_to_cwd(resolved.as_str(), cwd))
    }

    /// The outcome of the look at the disk: the path if the file is
    /// there, the error that names it if it is not.
    pub fn require_existing(path: String, exists: bool) -> (r: Result<String, PathFinderError>)
        ensures
            match r {
                Ok(p) => exists && p == path,
                Err(PathFinderError::FileNotFound(p)) => !exists && p == path,
                Err(_) => false,
            },
    {
        if exists {
            Ok(path)
        } else {
            Err(PathFinderError::FileNotFound(path))
        }
    }
}

} // verus!
