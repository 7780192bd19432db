use mozcomp::dependency_graph::{DependencyGraph, DependencyGraphError, FileNode, FileType, TargetLocation};

fn node(path: &str, file_type: FileType, target_location: TargetLocation) -> FileNode {
    FileNode { path: String::from(path), file_type, target_location }
}

fn component(name: &str) -> TargetLocation {
    TargetLocation::Component(String::from(name))
}

fn sample() -> DependencyGraph {
    let mut g = DependencyGraph::new();
    g.add_file(String::from("src/a/x.mjs"), FileType::JsComponent, component("a"));
    g.add_file(String::from("src/a/util.mjs"), FileType::JsFile, TargetLocation::Dependency);
    g.add_file(String::from("src/a/s.css"), FileType::CssFile, TargetLocation::Omit);
    g.add_file(String::from("src/a/icon.svg"), FileType::OpaqueFile, TargetLocation::Asset);
    g.add_dependency("src/a/x.mjs", "src/a/util.mjs", "./util.mjs").unwrap();
    g.add_dependency("src/a/x.mjs", "src/a/s.css", "s.css").unwrap();
    g.add_dependency("src/a/s.css", "src/a/icon.svg", "icon.svg").unwrap();
    g
}

#[test]
fn destination_paths() {
    assert_eq!(
        node("src/a/x.mjs", FileType::JsComponent, component("a")).get_dist_path(),
        Some(String::from("components/a/x.mjs"))
    );
    assert_eq!(
        node("t/common.css", FileType::CssFile, TargetLocation::CssGlobal).get_dist_path(),
        Some(String::from("styles/common.css"))
    );
    assert_eq!(
        node("t/i.svg", FileType::OpaqueFile, TargetLocation::Asset).get_dist_path(),
        Some(String::from("assets/i.svg"))
    );
    assert_eq!(
        node("t/u.mjs", FileType::JsFile, TargetLocation::Dependency).get_dist_path(),
        Some(String::from("dependencies/u.mjs"))
    );
    assert_eq!(node("t/s.css", FileType::CssFile, TargetLocation::Omit).get_dist_path(), None);
    assert_eq!(node("t/..", FileType::JsFile, TargetLocation::Dependency).get_dist_path(), None);
    assert_eq!(node("", FileType::JsFile, TargetLocation::Asset).get_dist_path(), None);
}

#[test]
fn add_file_is_idempotent() {
    let mut g = DependencyGraph::new();
    let a = g.add_file(String::from("a.mjs"), FileType::JsComponent, component("c"));
    let b = g.add_file(String::from("b.css"), FileType::CssFile, TargetLocation::Omit);
    let again = g.add_file(String::from("a.mjs"), FileType::OpaqueFile, TargetLocation::Asset);
    assert_eq!((a, b, again), (0, 1, 0));
    assert_eq!(g.file_count(), 2);
    let kept = g.get_file("a.mjs").unwrap();
    assert_eq!(kept.file_type, FileType::JsComponent);
    assert_eq!(kept.target_location, component("c"));
    assert!(g.contains_file("b.css"));
    assert!(!g.contains_file("c.css"));
    assert!(g.get_file("c.css").is_none());
    assert_eq!(g.index_of("b.css"), Some(1));
    assert_eq!(g.file_at(1).path, "b.css");
}

#[test]
fn edge_from_a_component_keeps_the_target_omitted() {
    let g = sample();
    assert_eq!(g.get_file("src/a/s.css").unwrap().target_location, TargetLocation::Omit);
    assert_eq!(g.dependency_count(), 3);
}

#[test]
fn edge_from_another_file_makes_the_target_a_dependency() {
    let mut g = sample();
    let e = g.add_dependency("src/a/util.mjs", "src/a/s.css", "./s.css").unwrap();
    assert_eq!(e, 3);
    assert_eq!(g.get_file("src/a/s.css").unwrap().target_location, TargetLocation::Dependency);
    assert_eq!(g.get_file("src/a/s.css").unwrap().file_type, FileType::CssFile);
    g.add_dependency("src/a/x.mjs", "src/a/s.css", "s.css").unwrap();
    assert_eq!(g.get_file("src/a/s.css").unwrap().target_location, TargetLocation::Dependency);
    g.add_dependency("src/a/util.mjs", "src/a/icon.svg", "icon.svg").unwrap();
    assert_eq!(g.get_file("src/a/icon.svg").unwrap().target_location, TargetLocation::Asset);
}

#[test]
fn edges_need_both_files() {
    let mut g = sample();
    assert!(matches!(
        g.add_dependency("nowhere.mjs", "src/a/s.css", "x"),
        Err(DependencyGraphError::SourceFileNotFound(p)) if p == "nowhere.mjs"
    ));
    assert!(matches!(
        g.add_dependency("src/a/x.mjs", "nowhere.css", "x"),
        Err(DependencyGraphError::TargetFileNotFound(p)) if p == "nowhere.css"
    ));
    assert!(matches!(
        g.add_dependency("nowhere.mjs", "nowhere.css", "x"),
        Err(DependencyGraphError::SourceFileNotFound(_))
    ));
    assert_eq!(g.dependency_count(), 3);
}

#[test]
fn parallel_edges_are_kept() {
    let mut g = sample();
    g.add_dependency("src/a/x.mjs", "src/a/util.mjs", "./util.mjs").unwrap();
    g.add_dependency("src/a/x.mjs", "src/a/util.mjs", "../a/util.mjs").unwrap();
    assert_eq!(g.dependency_count(), 5);
    let deps = g.get_file_dependencies("src/a/x.mjs").unwrap();
    let expected: Vec<(String, String)> = [
        ("src/a/util.mjs", "../a/util.mjs"),
        ("src/a/util.mjs", "./util.mjs"),
        ("src/a/s.css", "s.css"),
        ("src/a/util.mjs", "./util.mjs"),
    ]
    .iter()
    .map(|(a, b)| (String::from(*a), String::from(*b)))
    .collect();
    assert_eq!(deps, expected);
}

#[test]
fn dependencies_of_files() {
    let g = sample();
    assert!(g.get_file_dependencies("src/a/util.mjs").unwrap().is_empty());
    assert_eq!(
        g.get_file_dependencies("src/a/s.css").unwrap(),
        vec![(String::from("src/a/icon.svg"), String::from("icon.svg"))]
    );
    assert!(matches!(
        g.get_file_dependencies("nowhere"),
        Err(DependencyGraphError::FileNotFound(p)) if p == "nowhere"
    ));
}

#[test]
fn add_dependent_file_adds_node_and_edge() {
    let mut g = sample();
    let (n, e) = g
        .add_dependent_file(
            String::from("src/b/y.mjs"),
            FileType::JsFile,
            TargetLocation::Dependency,
            "src/a/util.mjs",
            "../a/util.mjs",
        )
        .unwrap();
    assert_eq!((n, e), (4, 3));
    assert_eq!(
        g.get_file_dependencies("src/b/y.mjs").unwrap(),
        vec![(String::from("src/a/util.mjs"), String::from("../a/util.mjs"))]
    );
    let missing = g.add_dependent_file(
        String::from("src/b/z.mjs"),
        FileType::JsFile,
        TargetLocation::Dependency,
        "nowhere.mjs",
        "x",
    );
    assert!(matches!(missing, Err(DependencyGraphError::TargetFileNotFound(p)) if p == "nowhere.mjs"));
    assert!(g.contains_file("src/b/z.mjs"));
}

#[test]
fn all_files_in_order() {
    let g = sample();
    let paths: Vec<String> = g.all_files().into_iter().map(|f| f.path).collect();
    assert_eq!(paths, vec!["src/a/x.mjs", "src/a/util.mjs", "src/a/s.css", "src/a/icon.svg"]);
    assert_eq!(g.get_file_node("src/a/s.css").unwrap().path, "src/a/s.css");
    assert!(g.get_file_node("nowhere").is_none());
}

#[test]
fn cycles_are_reported() {
    let mut g = sample();
    assert!(!g.has_cycles());
    g.add_dependency("src/a/util.mjs", "src/a/x.mjs", "./x.mjs").unwrap();
    assert!(g.has_cycles());
    let mut own = DependencyGraph::new();
    own.add_file(String::from("a.css"), FileType::CssFile, TargetLocation::CssGlobal);
    assert!(!own.has_cycles());
    own.add_dependency("a.css", "a.css", "a.css").unwrap();
    assert!(own.has_cycles());
}

#[test]
fn import_replacements() {
    let g = sample();
    let r = g.get_import_replacements("src/a/x.mjs").unwrap();
    assert_eq!(r.get("./util.mjs").unwrap(), "../../dependencies/util.mjs");
    assert!(!r.contains_key("s.css"));
    let of_css = g.get_dependencies_and_relative_paths("src/a/s.css", "src/a/x.mjs").unwrap();
    assert_eq!(of_css.get("icon.svg").unwrap(), "../../assets/icon.svg");
    assert!(g.get_import_replacements("src/a/util.mjs").unwrap().is_empty());
}

#[test]
fn import_replacements_need_a_place() {
    let g = sample();
    assert!(matches!(
        g.get_import_replacements("src/a/s.css"),
        Err(DependencyGraphError::FileNotFound(p)) if p == "src/a/s.css"
    ));
    assert!(matches!(
        g.get_import_replacements("nowhere"),
        Err(DependencyGraphError::FileNotFound(p)) if p == "nowhere"
    ));
    assert!(matches!(
        g.get_dependencies_and_relative_paths("nowhere", "src/a/x.mjs"),
        Err(DependencyGraphError::FileNotFound(p)) if p == "nowhere"
    ));
}

#[test]
fn of_two_edges_with_one_text_the_first_decides() {
    let mut g = DependencyGraph::new();
    g.add_file(String::from("a/x.mjs"), FileType::JsFile, TargetLocation::Dependency);
    g.add_file(String::from("a/one.mjs"), FileType::JsFile, TargetLocation::Dependency);
    g.add_file(String::from("a/two.css"), FileType::CssFile, TargetLocation::CssGlobal);
    g.add_dependency("a/x.mjs", "a/one.mjs", "same").unwrap();
    g.add_dependency("a/x.mjs", "a/two.css", "same").unwrap();
    let r = g.get_import_replacements("a/x.mjs").unwrap();
    assert_eq!(r.get("same").unwrap(), "./one.mjs");
}

#[test]
fn omitted_imports() {
    let mut g = sample();
    g.add_file(String::from("src/a/t.css"), FileType::CssFile, TargetLocation::Omit);
    g.add_dependency("src/a/x.mjs", "src/a/t.css", "./t.css").unwrap();
    assert_eq!(
        g.get_omitted_imports("src/a/x.mjs"),
        vec![
            (String::from("./t.css"), String::from("src/a/t.css")),
            (String::from("s.css"), String::from("src/a/s.css")),
        ]
    );
    assert!(g.get_omitted_imports("src/a/util.mjs").is_empty());
    assert!(g.get_omitted_imports("nowhere").is_empty());
}

#[test]
fn error_messages() {
    assert_eq!(
        DependencyGraphError::FileNotFound(String::from("a")).message(),
        "File not found in graph: a"
    );
    assert_eq!(
        DependencyGraphError::EdgeNotFound(String::from("a"), String::from("b")).message(),
        "Dependency edge not found between 'a' and 'b'"
    );
    assert_eq!(
        DependencyGraphError::CircularDependency.message(),
        "Circular dependency detected in graph"
    );
    assert_eq!(
        DependencyGraphError::SourceFileNotFound(String::from("a")).message(),
        "Cannot add dependency: source file 'a' not found"
    );
    assert_eq!(
        DependencyGraphError::TargetFileNotFound(String::from("b")).message(),
        "Cannot add dependency: target file 'b' not found"
    );
}

#[test]
fn topological_order_lists_importers_first() {
    let g = sample();
    let order: Vec<String> = g.topological_sort().unwrap().into_iter().map(|f| f.path).collect();
    assert_eq!(order.len(), 4);
    let place = |p: &str| order.iter().position(|x| x == p).unwrap();
    assert!(place("src/a/x.mjs") < place("src/a/util.mjs"));
    assert!(place("src/a/x.mjs") < place("src/a/s.css"));
    assert!(place("src/a/s.css") < place("src/a/icon.svg"));
    assert!(DependencyGraph::new().topological_sort().unwrap().is_empty());
}

#[test]
fn a_cycle_has_no_topological_order() {
    let mut g = sample();
    g.add_dependency("src/a/icon.svg", "src/a/x.mjs", "x").unwrap();
    assert!(matches!(g.topological_sort(), Err(DependencyGraphError::CircularDependency)));
    let mut own = DependencyGraph::new();
    own.add_file(String::from("a.css"), FileType::CssFile, TargetLocation::CssGlobal);
    own.add_dependency("a.css", "a.css", "a.css").unwrap();
    assert!(matches!(own.topological_sort(), Err(DependencyGraphError::CircularDependency)));
}

#[test]
fn import_texts_can_be_replaced() {
    let mut g = sample();
    g.add_dependency("src/a/x.mjs", "src/a/util.mjs", "second").unwrap();
    g.update_import_statement("src/a/x.mjs", "src/a/util.mjs", String::from("changed")).unwrap();
    let deps = g.get_file_dependencies("src/a/x.mjs").unwrap();
    let texts: Vec<&str> = deps.iter().map(|(_, t)| t.as_str()).collect();
    assert_eq!(texts, vec!["changed", "s.css", "./util.mjs"]);
    assert_eq!(g.dependency_count(), 4);
}

#[test]
fn replacing_an_import_text_needs_the_edge() {
    let mut g = sample();
    assert!(matches!(
        g.update_import_statement("nowhere", "src/a/util.mjs", String::from("x")),
        Err(DependencyGraphError::SourceFileNotFound(p)) if p == "nowhere"
    ));
    assert!(matches!(
        g.update_import_statement("src/a/x.mjs", "nowhere", String::from("x")),
        Err(DependencyGraphError::TargetFileNotFound(p)) if p == "nowhere"
    ));
    assert!(matches!(
        g.update_import_statement("src/a/util.mjs", "src/a/x.mjs", String::from("x")),
        Err(DependencyGraphError::EdgeNotFound(a, b)) if a == "src/a/util.mjs" && b == "src/a/x.mjs"
    ));
    assert_eq!(
        g.get_file_dependencies("src/a/s.css").unwrap(),
        vec![(String::from("src/a/icon.svg"), String::from("icon.svg"))]
    );
}
