use mozcomp::dependency_graph::{DependencyGraph, FileNode, FileType, TargetLocation};
use mozcomp::errors::Error;
use mozcomp::graph_builder::{
    classify_component_file, classify_dependency, extractor_for, process_components,
    process_global_stylesheets, DependencyWalk, Extractor,
};

fn strings(v: &[&str]) -> Vec<String> {
    v.iter().map(|s| String::from(*s)).collect()
}

#[test]
fn component_files_by_name() {
    assert_eq!(classify_component_file("moz-button.mjs"), Some(FileType::JsComponent));
    assert_eq!(classify_component_file("moz-button.stories.mjs"), Some(FileType::JsFile));
    assert_eq!(classify_component_file("moz-button.story.mjs"), Some(FileType::JsFile));
    assert_eq!(classify_component_file("README.md"), Some(FileType::OpaqueFile));
    assert_eq!(classify_component_file("icon.svg"), Some(FileType::OpaqueFile));
    assert_eq!(classify_component_file(""), Some(FileType::OpaqueFile));
    assert_eq!(classify_component_file("moz-button.css"), None);
    assert_eq!(classify_component_file("moz-button.d.ts"), None);
    assert_eq!(classify_component_file("x.tsx"), Some(FileType::OpaqueFile));
}

#[test]
fn components_are_seeded_by_folder() {
    let mut g = DependencyGraph::new();
    let files = strings(&[
        "w/moz-button/moz-button.mjs",
        "w/moz-button/moz-button.css",
        "w/moz-button/moz-button.stories.mjs",
        "w/moz-card/README.md",
        "w/moz-button/moz-button.mjs",
    ]);
    process_components(&files, &mut g).unwrap();
    assert_eq!(g.file_count(), 3);
    let root = g.get_file("w/moz-button/moz-button.mjs").unwrap();
    assert_eq!(root.file_type, FileType::JsComponent);
    assert_eq!(root.target_location, TargetLocation::Component(String::from("moz-button")));
    assert_eq!(g.get_file("w/moz-button/moz-button.stories.mjs").unwrap().file_type, FileType::JsFile);
    let readme = g.get_file("w/moz-card/README.md").unwrap();
    assert_eq!(readme.file_type, FileType::OpaqueFile);
    assert_eq!(readme.target_location, TargetLocation::Component(String::from("moz-card")));
    assert!(!g.contains_file("w/moz-button/moz-button.css"));
}

#[test]
fn a_component_needs_a_folder() {
    let mut g = DependencyGraph::new();
    let files = strings(&["a/first.mjs", "loose.mjs", "a/never.mjs"]);
    let r = process_components(&files, &mut g);
    assert!(matches!(
        r,
        Err(Error::Custom(m)) if m == "Failed to determine component folder for \"loose.mjs\""
    ));
    assert!(g.contains_file("a/first.mjs"));
    assert!(!g.contains_file("a/never.mjs"));
    let mut skipped = DependencyGraph::new();
    assert!(process_components(&strings(&["loose.css", "loose.d.ts"]), &mut skipped).is_ok());
    assert_eq!(skipped.file_count(), 0);
}

#[test]
fn global_stylesheets_are_seeded() {
    let mut g = DependencyGraph::new();
    g.add_file(String::from("t/a.css"), FileType::CssFile, TargetLocation::Omit);
    process_global_stylesheets(&strings(&["t/a.css", "t/b.css", "t/notes.txt"]), &mut g);
    assert_eq!(g.file_count(), 3);
    assert_eq!(g.get_file("t/a.css").unwrap().target_location, TargetLocation::Omit);
    assert_eq!(g.get_file("t/b.css").unwrap().target_location, TargetLocation::CssGlobal);
    assert_eq!(g.get_file("t/notes.txt").unwrap().file_type, FileType::CssFile);
}

#[test]
fn dependencies_by_extension() {
    assert_eq!(classify_dependency(FileType::JsComponent, "./s.css"), (FileType::CssFile, TargetLocation::Omit));
    assert_eq!(classify_dependency(FileType::JsFile, "./s.css"), (FileType::CssFile, TargetLocation::Dependency));
    assert_eq!(classify_dependency(FileType::CssFile, "base.css"), (FileType::CssFile, TargetLocation::Dependency));
    assert_eq!(classify_dependency(FileType::JsComponent, "./u.mjs"), (FileType::JsFile, TargetLocation::Dependency));
    assert_eq!(classify_dependency(FileType::JsComponent, "./u.js"), (FileType::JsFile, TargetLocation::Dependency));
    for image in ["a.png", "b.jpg", "c.jpeg", "chrome://global/skin/icons/d.svg"] {
        assert_eq!(classify_dependency(FileType::JsComponent, image), (FileType::OpaqueFile, TargetLocation::Asset));
        assert_eq!(classify_dependency(FileType::CssFile, image), (FileType::OpaqueFile, TargetLocation::Asset));
    }
    assert_eq!(classify_dependency(FileType::JsFile, "font.woff2"), (FileType::OpaqueFile, TargetLocation::Dependency));
    assert_eq!(classify_dependency(FileType::JsFile, "no-extension"), (FileType::OpaqueFile, TargetLocation::Dependency));
    assert_eq!(classify_dependency(FileType::JsFile, "A.PNG"), (FileType::OpaqueFile, TargetLocation::Dependency));
}

fn walk_all(g: &mut DependencyGraph, deps: &[(&str, &str, Option<&str>)]) -> Vec<String> {
    let mut walk = DependencyWalk::new(g);
    let mut order = Vec::new();
    while let Some(file) = walk.next_file() {
        order.push(file.path.clone());
        for (from, text, resolved) in deps {
            if *from == file.path {
                walk.record_dependency(g, &file, text, resolved.map(String::from)).unwrap();
            }
        }
    }
    order
}

#[test]
fn the_walk_hands_out_each_file_once() {
    let mut g = DependencyGraph::new();
    process_components(&strings(&["c/a/x.mjs", "c/a/y.stories.mjs"]), &mut g).unwrap();
    let deps = [
        ("c/a/x.mjs", "./util.mjs", Some("c/a/util.mjs")),
        ("c/a/x.mjs", "s.css", Some("c/a/s.css")),
        ("c/a/x.mjs", "chrome://gone/x.mjs", None),
        ("c/a/y.stories.mjs", "./x.mjs", Some("c/a/x.mjs")),
        ("c/a/y.stories.mjs", "./util.mjs", Some("c/a/util.mjs")),
        ("c/a/util.mjs", "./x.mjs", Some("c/a/x.mjs")),
        ("c/a/s.css", "icon.svg", Some("c/a/icon.svg")),
        ("c/a/s.css", "./s.css", Some("c/a/s.css")),
    ];
    let order = walk_all(&mut g, &deps);
    let mut sorted = order.clone();
    sorted.sort();
    sorted.dedup();
    assert_eq!(sorted.len(), order.len());
    assert_eq!(sorted, vec!["c/a/icon.svg", "c/a/s.css", "c/a/util.mjs", "c/a/x.mjs", "c/a/y.stories.mjs"]);
    assert_eq!(order[0], "c/a/y.stories.mjs");
    assert_eq!(g.file_count(), 5);
    assert_eq!(g.dependency_count(), 7);
    assert!(g.has_cycles());
    assert_eq!(g.get_file("c/a/s.css").unwrap().target_location, TargetLocation::Dependency);
    assert_eq!(g.get_file("c/a/icon.svg").unwrap().target_location, TargetLocation::Asset);
    assert_eq!(g.get_file("c/a/util.mjs").unwrap().file_type, FileType::JsFile);
}

#[test]
fn a_stylesheet_of_a_component_alone_stays_omitted() {
    let mut g = DependencyGraph::new();
    process_components(&strings(&["c/a/x.mjs"]), &mut g).unwrap();
    walk_all(&mut g, &[("c/a/x.mjs", "s.css", Some("c/a/s.css"))]);
    assert_eq!(g.get_file("c/a/s.css").unwrap().target_location, TargetLocation::Omit);
    assert_eq!(
        g.get_omitted_imports("c/a/x.mjs"),
        vec![(String::from("s.css"), String::from("c/a/s.css"))]
    );
}

#[test]
fn a_file_outside_the_graph_cannot_depend() {
    let mut g = DependencyGraph::new();
    let mut walk = DependencyWalk::new(&g);
    let stray = FileNode {
        path: String::from("stray.mjs"),
        file_type: FileType::JsFile,
        target_location: TargetLocation::Dependency,
    };
    let r = walk.record_dependency(&mut g, &stray, "./u.mjs", Some(String::from("u.mjs")));
    assert!(matches!(
        r,
        Err(Error::Custom(m))
            if m == "Failed to add dependency: Cannot add dependency: source file 'stray.mjs' not found"
    ));
    assert!(g.contains_file("u.mjs"));
    assert_eq!(walk.next_file().unwrap().path, "u.mjs");
    assert!(walk.next_file().is_none());
}

#[test]
fn extractors_by_role() {
    assert_eq!(extractor_for(FileType::JsComponent), Extractor::Script);
    assert_eq!(extractor_for(FileType::JsFile), Extractor::Script);
    assert_eq!(extractor_for(FileType::CssFile), Extractor::Stylesheet);
    assert_eq!(extractor_for(FileType::OpaqueFile), Extractor::Nothing);
}

#[test]
fn only_new_files_wait() {
    let mut g = DependencyGraph::new();
    process_components(&strings(&["c/a/x.mjs", "c/a/y.mjs"]), &mut g).unwrap();
    let mut walk = DependencyWalk::new(&g);
    let y = walk.next_file().unwrap();
    assert_eq!(y.path, "c/a/y.mjs");
    walk.record_dependency(&mut g, &y, "./x.mjs", Some(String::from("c/a/x.mjs"))).unwrap();
    walk.record_dependency(&mut g, &y, "./y.mjs", Some(String::from("c/a/y.mjs"))).unwrap();
    walk.record_dependency(&mut g, &y, "./n.mjs", Some(String::from("c/a/n.mjs"))).unwrap();
    walk.record_dependency(&mut g, &y, "../a/n.mjs", Some(String::from("c/a/n.mjs"))).unwrap();
    let rest: Vec<String> = std::iter::from_fn(|| walk.next_file()).map(|f| f.path).collect();
    assert_eq!(rest, vec!["c/a/n.mjs", "c/a/x.mjs"]);
    assert_eq!(g.dependency_count(), 4);
}
