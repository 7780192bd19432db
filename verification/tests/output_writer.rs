use mozcomp::dependency_graph::{DependencyGraph, FileType, TargetLocation};
use mozcomp::graph_builder::{process_components, process_global_stylesheets, DependencyWalk};
use mozcomp::output_writer::{transform_and_write_files, OutputTask, WriteAction};

fn build(files: &[&str], styles: &[&str], deps: &[(&str, &str, &str)]) -> DependencyGraph {
    let mut g = DependencyGraph::new();
    let files: Vec<String> = files.iter().map(|s| String::from(*s)).collect();
    let styles: Vec<String> = styles.iter().map(|s| String::from(*s)).collect();
    process_components(&files, &mut g).unwrap();
    process_global_stylesheets(&styles, &mut g);
    let mut walk = DependencyWalk::new(&g);
    while let Some(file) = walk.next_file() {
        for (from, text, resolved) in deps {
            if *from == file.path {
                walk.record_dependency(&mut g, &file, text, Some(String::from(*resolved))).unwrap();
            }
        }
    }
    g
}

fn task<'a>(tasks: &'a [OutputTask], source: &str) -> &'a OutputTask {
    tasks.iter().find(|t| t.source == source).unwrap()
}

#[test]
fn single_component_no_stylesheet() {
    let g = build(&["src/a/x.mjs"], &[], &[("src/a/x.mjs", "./util.mjs", "src/a/util.mjs")]);
    let tasks = transform_and_write_files(&g, "out");
    assert_eq!(tasks.len(), 2);
    let x = task(&tasks, "src/a/x.mjs");
    assert_eq!(x.output_path, "out/components/a/x.mjs");
    match &x.action {
        WriteAction::Script { replacements, inlines } => {
            assert_eq!(replacements.get("./util.mjs").unwrap(), "../../dependencies/util.mjs");
            assert!(inlines.as_ref().unwrap().is_empty());
        }
        _ => panic!("a script is transformed"),
    }
    let util = task(&tasks, "src/a/util.mjs");
    assert_eq!(util.output_path, "out/dependencies/util.mjs");
    match &util.action {
        WriteAction::Script { replacements, inlines } => {
            assert!(replacements.is_empty());
            assert!(inlines.is_none());
        }
        _ => panic!("a script is transformed"),
    }
}

#[test]
fn component_with_inlined_stylesheet() {
    let g = build(
        &["src/a/x.mjs"],
        &[],
        &[
            ("src/a/x.mjs", "s.css", "src/a/s.css"),
            ("src/a/s.css", "icon.svg", "src/a/icon.svg"),
            ("src/a/s.css", "base.css", "src/base.css"),
        ],
    );
    let tasks = transform_and_write_files(&g, "out");
    let sources: Vec<&str> = tasks.iter().map(|t| t.source.as_str()).collect();
    assert_eq!(sources, vec!["src/a/x.mjs", "src/a/icon.svg", "src/base.css"]);
    match &task(&tasks, "src/a/x.mjs").action {
        WriteAction::Script { replacements, inlines } => {
            assert!(!replacements.contains_key("s.css"));
            let inlines = inlines.as_ref().unwrap();
            assert_eq!(inlines.len(), 1);
            assert_eq!(inlines[0].import_text, "s.css");
            assert_eq!(inlines[0].css_path, "src/a/s.css");
            assert_eq!(inlines[0].replacements.get("icon.svg").unwrap(), "../../assets/icon.svg");
            assert_eq!(inlines[0].replacements.get("base.css").unwrap(), "../../dependencies/base.css");
        }
        _ => panic!("a component is transformed"),
    }
    let icon = task(&tasks, "src/a/icon.svg");
    assert_eq!(icon.output_path, "out/assets/icon.svg");
    assert!(matches!(icon.action, WriteAction::Copy));
    match &task(&tasks, "src/base.css").action {
        WriteAction::Stylesheet { replacements } => assert!(replacements.is_empty()),
        _ => panic!("a stylesheet is transformed"),
    }
}

#[test]
fn opaque_url_is_rewritten_to_the_dependency() {
    let g = build(
        &["src/a/x.mjs"],
        &[],
        &[("src/a/x.mjs", "chrome://browser/content/panel.mjs", "src/panel.mjs")],
    );
    let tasks = transform_and_write_files(&g, "/tmp/out/");
    match &task(&tasks, "src/a/x.mjs").action {
        WriteAction::Script { replacements, .. } => assert_eq!(
            replacements.get("chrome://browser/content/panel.mjs").unwrap(),
            "../../dependencies/panel.mjs"
        ),
        _ => panic!("a script is transformed"),
    }
    assert_eq!(task(&tasks, "src/panel.mjs").output_path, "/tmp/out/dependencies/panel.mjs");
}

#[test]
fn global_stylesheets_and_their_assets() {
    let g = build(
        &[],
        &["t/common.css"],
        &[("t/common.css", "icon.svg?v=2", "t/icon.svg"), ("t/common.css", "other.css", "t/other.css")],
    );
    let tasks = transform_and_write_files(&g, "out");
    let common = task(&tasks, "t/common.css");
    assert_eq!(common.output_path, "out/styles/common.css");
    match &common.action {
        WriteAction::Stylesheet { replacements } => {
            assert_eq!(replacements.get("other.css").unwrap(), "../dependencies/other.css");
            assert_eq!(replacements.get("icon.svg?v=2").unwrap(), "../dependencies/icon.svg");
        }
        _ => panic!("a stylesheet is transformed"),
    }
}

#[test]
fn files_without_a_place_are_not_written() {
    let mut g = DependencyGraph::new();
    g.add_file(String::from("a/omitted.css"), FileType::CssFile, TargetLocation::Omit);
    g.add_file(String::from("a/.."), FileType::OpaqueFile, TargetLocation::Asset);
    g.add_file(String::from("a/kept.png"), FileType::OpaqueFile, TargetLocation::Asset);
    let tasks = transform_and_write_files(&g, "");
    assert_eq!(tasks.len(), 1);
    assert_eq!(tasks[0].source, "a/kept.png");
    assert_eq!(tasks[0].output_path, "assets/kept.png");
    assert!(transform_and_write_files(&DependencyGraph::new(), "out").is_empty());
}

#[test]
fn the_plan_is_the_same_each_time() {
    let deps = [
        ("src/a/x.mjs", "s.css", "src/a/s.css"),
        ("src/a/x.mjs", "./util.mjs", "src/a/util.mjs"),
        ("src/a/s.css", "icon.svg", "src/a/icon.svg"),
    ];
    let describe = |tasks: &[OutputTask]| -> Vec<String> {
        tasks
            .iter()
            .map(|t| {
                let kind = match &t.action {
                    WriteAction::Script { replacements, inlines } => format!(
                        "script {:?} {:?}",
                        replacements.get("./util.mjs"),
                        inlines.as_ref().map(|v| v.iter().map(|i| i.css_path.clone()).collect::<Vec<_>>())
                    ),
                    WriteAction::Stylesheet { .. } => String::from("stylesheet"),
                    WriteAction::Copy => String::from("copy"),
                };
                format!("{} -> {} {}", t.source, t.output_path, kind)
            })
            .collect()
    };
    let first = describe(&transform_and_write_files(&build(&["src/a/x.mjs"], &[], &deps), "out"));
    let second = describe(&transform_and_write_files(&build(&["src/a/x.mjs"], &[], &deps), "out"));
    assert_eq!(first, second);
    assert_eq!(first.len(), 3);
}
