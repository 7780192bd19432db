use mozcomp::utils::file_utils::{
    compute_relative_path, create_output_directories, make_relative_to_cwd, normalize_path,
    normalize_relative, relative_import,
};
use std::path::PathBuf;

#[test]
fn test_make_relative_to_cwd_returns_original_if_cwd_is_path() {
    let cwd = String::from("/work/tree");
    let rel = PathBuf::from(make_relative_to_cwd(&cwd, &cwd));
    assert!(rel == PathBuf::from(".") || rel == PathBuf::from(""));
}

#[test]
fn test_make_relative_to_cwd_with_absolute_path() {
    let cwd = String::from("/work/tree");
    let file = format!("{}/{}", cwd, "foo/bar.txt");
    let rel = make_relative_to_cwd(&file, &cwd);
    assert_eq!(PathBuf::from(rel), PathBuf::from("foo/bar.txt"));
}

#[test]
fn test_compute_relative_path_same_folder() {
    let rel = compute_relative_path("/tmp/a/b/file1.txt", "/tmp/a/b/file2.txt");
    assert_eq!(rel, "./file2.txt");
}

#[test]
fn test_compute_relative_path_parent_folder() {
    let rel = compute_relative_path("/tmp/a/b/c/file1.txt", "/tmp/a/b/file2.txt");
    assert_eq!(rel, "../file2.txt");
}

#[test]
fn test_normalize_path_simple() {
    let norm = normalize_path("foo/./bar/../baz");
    assert_eq!(PathBuf::from(norm), PathBuf::from("foo/baz"));
}

#[test]
fn test_normalize_path_leading_parents() {
    let norm = normalize_path("../../foo/bar");
    assert_eq!(PathBuf::from(norm), PathBuf::from("../../foo/bar"));
}

#[test]
fn test_normalize_path_more_middle_parents() {
    let norm = normalize_path("../../../test/../../../test2");
    assert_eq!(PathBuf::from(norm), PathBuf::from("../../../../../test2"));
}

#[test]
fn normalize_path_exact_text() {
    assert_eq!(normalize_path("foo/./bar/../baz"), "foo/baz");
    assert_eq!(normalize_path("./a//b/"), "a/b");
    assert_eq!(normalize_path("/a/../../b"), "/../b");
    assert_eq!(normalize_path("/.."), "/..");
    assert_eq!(normalize_path(""), "");
    assert_eq!(normalize_path("."), "");
    assert_eq!(normalize_path("a/.."), "");
}

#[test]
fn relative_import_prefixes_plain_paths() {
    assert_eq!(relative_import(Some(String::from("util.mjs")), "x"), "./util.mjs");
    assert_eq!(relative_import(Some(String::from("../a.css")), "x"), "../a.css");
    assert_eq!(relative_import(Some(String::from("/abs/a.css")), "x"), "/abs/a.css");
    assert_eq!(relative_import(Some(String::from("sub\\a.css")), "x"), "./sub/a.css");
    assert_eq!(relative_import(None, "styles\\a.css"), "styles/a.css");
    assert_eq!(relative_import(Some(String::new()), "x"), "./");
}

#[test]
fn compute_relative_path_between_output_folders() {
    assert_eq!(
        compute_relative_path("components/a/x.mjs", "dependencies/util.mjs"),
        "../../dependencies/util.mjs"
    );
    assert_eq!(compute_relative_path("styles/a.css", "assets/icon.svg"), "../assets/icon.svg");
    assert_eq!(compute_relative_path("x.mjs", "y.mjs"), "./y.mjs");
}

#[test]
fn normalize_relative_uses_the_path_without_a_relative_one() {
    assert_eq!(normalize_relative(None, "a/./b"), "a/b");
    assert_eq!(normalize_relative(Some(String::from("c/../d")), "a/./b"), "d");
}

#[test]
fn make_relative_to_cwd_of_relative_path() {
    assert_eq!(make_relative_to_cwd("src/a/../b.mjs", ""), "src/b.mjs");
    assert_eq!(make_relative_to_cwd("/abs/file", "rel"), "/abs/file");
}

#[test]
fn output_folders() {
    assert_eq!(
        create_output_directories("out"),
        vec!["out/components", "out/styles", "out/assets", "out/dependencies"]
    );
    assert_eq!(
        create_output_directories("/tmp/out/"),
        vec!["/tmp/out/components", "/tmp/out/styles", "/tmp/out/assets", "/tmp/out/dependencies"]
    );
    assert_eq!(create_output_directories(""), vec!["components", "styles", "assets", "dependencies"]);
}

#[test]
fn normalizing_twice_changes_nothing() {
    for p in [
        "", ".", "..", "/", "/..", "a", "a/b", "./a/./b/", "a/../..", "../a/../../b", "/a/../../b//c",
        "//x", "a/b/../../../c/.", "chrome://x/y/../z", "a b/./c d",
    ] {
        let once = normalize_path(p);
        assert_eq!(normalize_path(&once), once, "{}", p);
        let parts: Vec<&str> = once.split('/').collect();
        assert!(!parts.contains(&"."), "{}", p);
        for (i, part) in parts.iter().enumerate() {
            if *part == ".." && i > 0 {
                assert!(parts[i - 1] == ".." || parts[i - 1].is_empty(), "{}", p);
            }
        }
    }
}
