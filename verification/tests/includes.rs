use mozcomp::text::{from_chars, to_chars};
use mozcomp::utils::includes::{include_target, IncludeExpander};
use mozcomp::utils::jar_resolver::JarResolverError;

fn expand(content: &str, path: &str, root: &str, files: &[(&str, &str)]) -> Result<String, JarResolverError> {
    let mut expander = IncludeExpander::new(content, path, root);
    let mut reads = 0;
    while !expander.is_done() {
        match expander.pending() {
            Some(wanted) => {
                reads += 1;
                assert!(reads < 100);
                let found = files.iter().find(|(p, _)| *p == wanted).map(|(_, c)| String::from(*c));
                expander.supply(found)?;
            }
            None => expander.step(),
        }
    }
    Ok(expander.finish())
}

fn target(line: &str, dir: &str, root: &str) -> Option<String> {
    include_target(&to_chars(line), &to_chars(dir), &to_chars(root)).map(|p| from_chars(&p))
}

#[test]
fn include_lines() {
    assert_eq!(target("#include other.inc.mn", "a/b", "root"), Some(String::from("a/b/other.inc.mn")));
    assert_eq!(target("  #include   ../x.mn  ", "a/b", "root"), Some(String::from("a/b/../x.mn")));
    assert_eq!(target("#include /toolkit/x.mn", "a/b", "root"), Some(String::from("root/toolkit/x.mn")));
    assert_eq!(target("#includes x", "a", "root"), None);
    assert_eq!(target("# include x", "a", "root"), None);
    assert_eq!(target("skin/a.png", "a", "root"), None);
}

#[test]
fn manifest_without_includes_is_copied_line_by_line() {
    assert_eq!(expand("a\n  b  \r\nc", "d/jar.mn", "", &[]).unwrap(), "a\n  b  \nc\n");
    assert_eq!(expand("", "d/jar.mn", "", &[]).unwrap(), "");
}

#[test]
fn includes_are_spliced_in_place() {
    let files = [
        ("d/inner.mn", "inner one\n#include deep/leaf.mn\ninner two\n"),
        ("d/deep/leaf.mn", "leaf"),
        ("root/abs.mn", "absolute\n"),
    ];
    let out = expand("top\n#include inner.mn\nmiddle\n#include /abs.mn\nend\n", "d/jar.mn", "root", &files)
        .unwrap();
    assert_eq!(out, "top\ninner one\nleaf\n\ninner two\n\nmiddle\nabsolute\n\nend\n");
}

#[test]
fn included_paths_are_relative_to_the_including_file() {
    let files = [("d/sub/a.mn", "#include b.mn\n"), ("d/sub/b.mn", "b\n")];
    assert_eq!(expand("#include sub/a.mn\n", "d/jar.mn", "", &files).unwrap(), "b\n\n\n");
}

#[test]
fn missing_include_is_an_error() {
    let r = expand("x\n#include nowhere.mn\n", "d/jar.mn", "", &[]);
    assert!(matches!(r, Err(JarResolverError::IncludeFileNotFound(p)) if p == "d/nowhere.mn"));
}

#[test]
fn supply_without_a_request_changes_nothing() {
    let mut expander = IncludeExpander::new("a\n", "jar.mn", "");
    assert!(expander.pending().is_none());
    assert!(expander.supply(Some(String::from("ignored"))).is_ok());
    while !expander.is_done() {
        expander.step();
    }
    assert_eq!(expander.finish(), "a\n");
}
