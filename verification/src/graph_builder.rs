//! The graph builder: the seeding of the graph with components and
//! global stylesheets, and the walk that adds what they depend on.

use crate::dependency_graph::{
    contains_path, graph_error_message, index_of_path, node_views, nodes_after_edge, with_file,
    DependencyGraph, DependencyGraphError, EdgeView, FileNode, FileNodeView, FileType, GraphView,
    TargetLocation, TargetView,
};
use crate::errors::Error;
use crate::text::{append_chars, chars_eq, ends_with_str, from_chars, strings, to_chars};
use crate::utils::paths::{
    extension, extension_exec, file_name, file_name_exec, parent, parent_exec,
};
use vstd::prelude::*;

verus! {

/// The file name of `path`, or the empty text.
pub open spec fn file_name_or_empty(path: Seq<char>) -> Seq<char> {
    match file_name(path) {
        Some(name) => name,
        None => Seq::empty(),
    }
}

/// Whether a file matched by a component pattern is passed over: type
/// declarations and stylesheets are.
pub open spec fn is_skipped_component_file(name: Seq<char>) -> bool {
    ".ts"@.is_suffix_of(name) || ".css"@.is_suffix_of(name)
}

/// The role of a file matched by a component pattern: stories are
/// scripts, other modules are component roots, anything else is opaque.
pub open spec fn component_file_type(name: Seq<char>) -> FileType {
    if ".stories.mjs"@.is_suffix_of(name) || ".story.mjs"@.is_suffix_of(name) {
        FileType::JsFile
    } else if ".mjs"@.is_suffix_of(name) {
        FileType::JsComponent
    } else {
        FileType::OpaqueFile
    }
}

/// The name of the component of a file: the name of the folder that the
/// file lies in.
pub open spec fn component_name(path: Seq<char>) -> Option<Seq<char>> {
    match parent(path) {
        Some(dir) => file_name(dir),
        None => None,
    }
}

/// What a file matched by a component pattern is seeded as.
pub enum Seed {
    /// The file is passed over.
    Skipped,
    /// The file becomes a node of the component `name` with the role
    /// `file_type`.
    Node { file_type: FileType, name: Seq<char> },
    /// The file lies in no folder whose name could name the component.
    NoComponent,
}

/// How the file at `path`, matched by a component pattern, is seeded.
pub open spec fn component_seed(path: Seq<char>) -> Seed {
    let name = file_name_or_empty(path);
    if is_skipped_component_file(name) {
        Seed::Skipped
    } else {
        match component_name(path) {
            Some(component) => Seed::Node {
                file_type: component_file_type(name),
                name: component,
            },
            None => Seed::NoComponent,
        }
    }
}

/// How far the seeding came: the graph after the last file that was
/// taken, and the file that could not be placed, if there was one.
pub struct SeedOutcome {
    pub graph: GraphView,
    pub failed: Option<Seq<char>>,
}

/// The outcome of seeding the graph with the first `n` of the files that
/// the component patterns matched: the seeding stops at the first file
/// that lies in no component folder.
pub open spec fn after_components(g: GraphView, files: Seq<Seq<char>>, n: int) -> SeedOutcome
    decreases n,
{
    if n <= 0 {
        SeedOutcome { graph: g, failed: None }
    } else {
        let before = after_components(g, files, n - 1);
        if before.failed is Some {
            before
        } else {
            match component_seed(files[n - 1]) {
                Seed::Skipped => before,
                Seed::Node { file_type, name } => SeedOutcome {
                    graph: with_file(
                        before.graph,
                        files[n - 1],
                        file_type,
                        TargetView::Component(name),
                    ),
                    failed: None,
                },
                Seed::NoComponent => SeedOutcome { graph: before.graph, failed: Some(files[n - 1]) },
            }
        }
    }
}

/// Once a file could not be placed, the files after it change nothing.
pub proof fn lemma_seed_failure_stays(g: GraphView, files: Seq<Seq<char>>, k: int, n: int)
    requires
        0 <= k <= n,
        after_components(g, files, k).failed is Some,
    ensures
        after_components(g, files, n) == after_components(g, files, k),
    decreases n - k,
{
    if n > k {
        lemma_seed_failure_stays(g, files, k, n - 1);
    }
}

/// The graph after the first `n` global stylesheets were added.
pub open spec fn after_stylesheets(g: GraphView, files: Seq<Seq<char>>, n: int) -> GraphView
    decreases n,
{
    if n <= 0 {
        g
    } else {
        with_file(
            after_stylesheets(g, files, n - 1),
            files[n - 1],
            FileType::CssFile,
            TargetView::CssGlobal,
        )
    }
}

/// The message for a file that lies in no component folder.
pub open spec fn no_component_message(path: Seq<char>) -> Seq<char> {
    "Failed to determine component folder for \""@ + path + "\""@
}

/// The role of a component file with the file name `name`, unless files
/// of that name are passed over.
pub fn classify_component_file(name: &str) -> (r: Option<FileType>)
    ensures
        match r {
            Some(t) => !is_skipped_component_file(name@) && t == component_file_type(name@),
            None => is_skipped_component_file(name@),
        },
{
    let chars = to_chars(name);
    if ends_with_str(&chars, ".ts") || ends_with_str(&chars, ".css") {
        None
    } else if ends_with_str(&chars, ".stories.mjs") || ends_with_str(&chars, ".story.mjs") {
        Some(FileType::JsFile)
    } else if ends_with_str(&chars, ".mjs") {
        Some(FileType::JsComponent)
    } else {
        Some(FileType::OpaqueFile)
    }
}

/// Seeds the graph with the files that the component patterns matched,
/// each as a node of the component that its folder names.
pub fn process_components(files: &Vec<String>, dep_graph: &mut DependencyGraph) -> (r: Result<
    (),
    Error,
>)
    requires
        old(dep_graph).wf(),
        old(dep_graph)@.nodes.len() + files.len() < u32::MAX,
    ensures
        final(dep_graph).wf(),
        final(dep_graph)@ == after_components(
            old(dep_graph)@,
            strings(files@),
            files@.len() as int,
        ).graph,
        match r {
            Ok(_) => after_components(
                old(dep_graph)@,
                strings(files@),
                files@.len() as int,
            ).failed is None,
            Err(Error::Custom(message)) => after_components(
                old(dep_graph)@,
                strings(files@),
                files@.len() as int,
            ).failed matches Some(path) && message@ == no_component_message(path),
            Err(_) => false,
        },
{
    let ghost start = dep_graph@;
    let ghost paths = strings(files@);
    let mut i: usize = 0;
    while i < files.len()
        invariant
            i <= files.len(),
            dep_graph.wf(),
            paths == strings(files@),
            start == old(dep_graph)@,
            dep_graph@.nodes.len() <= start.nodes.len() + i,
            start.nodes.len() + files.len() < u32::MAX,
            after_components(start, paths, i as int) == (SeedOutcome {
                graph: dep_graph@,
                failed: None,
            }),
        decreases files.len() - i,
    {
        assert(paths[i as int] == files@[i as int]@);
        let path = to_chars(files[i].as_str());
        let name = match file_name_exec(&path) {
            Some(name) => name,
            None => Vec::new(),
        };
        if let Some(file_type) = classify_component_file(from_chars(&name).as_str()) {
            let component = match parent_exec(&path) {
                Some(dir) => file_name_exec(&dir),
                None => None,
            };
            match component {
                Some(component) => {
                    dep_graph.add_file(
                        files[i].clone(),
                        file_type,
                        TargetLocation::Component(from_chars(&component)),
                    );
                },
                None => {
                    let a = append_chars(&to_chars("Failed to determine component folder for \""), &path);
                    let message = append_chars(&a, &to_chars("\""));
                    proof {
                        assert(after_components(start, paths, i + 1).failed == Some(paths[i as int]));
                        lemma_seed_failure_stays(start, paths, i + 1, files@.len() as int);
                    }
                    return Err(Error::Custom(from_chars(&message)));
                },
            }
        }
        i += 1;
    }
    Ok(())
}

/// Seeds the graph with the global stylesheets.
pub fn process_global_stylesheets(files: &Vec<String>, dep_graph: &mut DependencyGraph)
    requires
        old(dep_graph).wf(),
        old(dep_graph)@.nodes.len() + files.len() < u32::MAX,
    ensures
        final(dep_graph).wf(),
        final(dep_graph)@ == after_stylesheets(
            old(dep_graph)@,
            strings(files@),
            files@.len() as int,
        ),
{
    let ghost start = dep_graph@;
    let ghost paths = strings(files@);
    let mut i: usize = 0;
    while i < files.len()
        invariant
            i <= files.len(),
            dep_graph.wf(),
            paths == strings(files@),
            start == old(dep_graph)@,
            dep_graph@.nodes.len() <= start.nodes.len() + i,
            start.nodes.len() + files.len() < u32::MAX,
            dep_graph@ == after_stylesheets(start, paths, i as int),
        decreases files.len() - i,
    {
        assert(paths[i as int] == files@[i as int]@);
        dep_graph.add_file(files[i].clone(), FileType::CssFile, TargetLocation::CssGlobal);
        i += 1;
    }
}

/// The role of a dependency, by the extension of its import text:
/// stylesheets and scripts are told apart, anything else is opaque.
pub open spec fn dependency_type(dep: Seq<char>) -> FileType {
    match extension(dep) {
        Some(e) => if e == "css"@ {
            FileType::CssFile
        } else if e == "js"@ || e == "mjs"@ {
            FileType::JsFile
        } else {
            FileType::OpaqueFile
        },
        None => FileType::OpaqueFile,
    }
}

/// Whether an extension is that of an image.
pub open spec fn is_image_extension(e: Seq<char>) -> bool {
    e == "png"@ || e == "jpg"@ || e == "jpeg"@ || e == "svg"@
}

/// The place of a dependency in the output: a stylesheet of a component
/// root is omitted, to be inlined; an image is an asset; anything else is a
/// dependency.
pub open spec fn dependency_target(parent_type: FileType, dep: Seq<char>) -> TargetView {
    match extension(dep) {
        Some(e) => if parent_type == FileType::JsComponent && e == "css"@ {
            TargetView::Omit
        } else if is_image_extension(e) {
            TargetView::Asset
        } else {
            TargetView::Dependency
        },
        None => TargetView::Dependency,
    }
}

/// A node that is placed among the assets is opaque: it is copied as it
/// is.
pub proof fn lemma_assets_are_opaque(parent_type: FileType, dep: Seq<char>)
    requires
        dependency_target(parent_type, dep) == TargetView::Asset,
    ensures
        dependency_type(dep) == FileType::OpaqueFile,
{
    reveal_strlit("css");
    reveal_strlit("js");
    reveal_strlit("mjs");
    reveal_strlit("png");
    reveal_strlit("jpg");
    reveal_strlit("jpeg");
    reveal_strlit("svg");
    let e = extension(dep)->0;
    if e == "png"@ || e == "jpg"@ || e == "svg"@ {
        assert(e.len() == 3);
        assert(e[0] != 'c' && e[0] != 'm');
        assert(e[0] != 'j' || e.len() != 2);
    } else {
        assert(e.len() == 4);
    }
}

/// The role and the place of a dependency with the import text `dep`,
/// found in a file with the role `parent_type`.
pub fn classify_dependency(parent_type: FileType, dep: &str) -> (r: (FileType, TargetLocation))
    ensures
        r.0 == dependency_type(dep@),
        r.1@ == dependency_target(parent_type, dep@),
{
    let chars = to_chars(dep);
    match extension_exec(&chars) {
        Some(e) => {
            let is_css = chars_eq(&e, &to_chars("css"));
            let file_type = if is_css {
                FileType::CssFile
            } else if chars_eq(&e, &to_chars("js")) || chars_eq(&e, &to_chars("mjs")) {
                FileType::JsFile
            } else {
                FileType::OpaqueFile
            };
            let target = if parent_type == FileType::JsComponent && is_css {
                TargetLocation::Omit
            } else if chars_eq(&e, &to_chars("png")) || chars_eq(&e, &to_chars("jpg")) || chars_eq(
                &e,
                &to_chars("jpeg"),
            ) || chars_eq(&e, &to_chars("svg")) {
                TargetLocation::Asset
            } else {
                TargetLocation::Dependency
            };
            (file_type, target)
        },
        None => (FileType::OpaqueFile, TargetLocation::Dependency),
    }
}

/// The extractor that finds the dependencies of a file.
#[derive(Debug, Clone, Copy, PartialEq, Eq, Structural)]
pub enum Extractor {
    /// The file is parsed as a script.
    Script,
    /// The file is parsed as a stylesheet.
    Stylesheet,
    /// The file is not read: it depends on nothing.
    Nothing,
}

/// The extractor for a file of the role `file_type`: component roots and
/// scripts are scripts, stylesheets are stylesheets, and opaque files are
/// not read.
pub open spec fn extractor_of(file_type: FileType) -> Extractor {
    match file_type {
        FileType::JsComponent => Extractor::Script,
        FileType::JsFile => Extractor::Script,
        FileType::CssFile => Extractor::Stylesheet,
        FileType::OpaqueFile => Extractor::Nothing,
    }
}

/// The extractor for a file of the role `file_type`.
pub fn extractor_for(file_type: FileType) -> (r: Extractor)
    ensures
        r == extractor_of(file_type),
{
    match file_type {
        FileType::JsComponent => Extractor::Script,
        FileType::JsFile => Extractor::Script,
        FileType::CssFile => Extractor::Stylesheet,
        FileType::OpaqueFile => Extractor::Nothing,
    }
}

/// The walk over the graph as a mathematical value: the paths of the
/// files that were handed out, and the files that wait.
pub struct WalkView {
    pub processed: Seq<Seq<char>>,
    pub to_process: Seq<FileNodeView>,
}

/// One step of the walk: the walk after it, and the file handed out.
pub struct StepView {
    pub walk: WalkView,
    pub file: Option<FileNodeView>,
}

/// The next step of the walk: the file that waits last is taken; one
/// that was handed out before is dropped and the next one taken; with no
/// file left the walk is over.
pub open spec fn next_step(w: WalkView) -> StepView
    decreases w.to_process.len(),
{
    if w.to_process.len() == 0 {
        StepView { walk: w, file: None }
    } else {
        let file = w.to_process.last();
        let rest = w.to_process.drop_last();
        if w.processed.contains(file.path) {
            next_step(WalkView { processed: w.processed, to_process: rest })
        } else {
            StepView {
                walk: WalkView { processed: w.processed.push(file.path), to_process: rest },
                file: Some(file),
            }
        }
    }
}

/// A step hands out no file twice: the file it hands out was not handed
/// out before, the paths handed out stay distinct, and no file is added to
/// those that wait.
pub proof fn lemma_next_step(w: WalkView)
    requires
        w.processed.no_duplicates(),
    ensures
        next_step(w).walk.processed.no_duplicates(),
        next_step(w).walk.to_process.len() <= w.to_process.len(),
        match next_step(w).file {
            Some(file) => !w.processed.contains(file.path) && next_step(w).walk.processed
                == w.processed.push(file.path) && next_step(w).walk.to_process.len()
                < w.to_process.len(),
            None => next_step(w).walk.processed == w.processed && next_step(
                w,
            ).walk.to_process.len() == 0,
        },
    decreases w.to_process.len(),
{
    if w.to_process.len() > 0 {
        let file = w.to_process.last();
        let rest = w.to_process.drop_last();
        if w.processed.contains(file.path) {
            lemma_next_step(WalkView { processed: w.processed, to_process: rest });
        }
    }
}

/// The graph after a dependency of `file` with the import text `dep` was
/// resolved to the path `resolved`: the file at that path is added with the
/// role and the place that the import text gives it, unless the graph holds
/// it already, and an edge leads to it from `file`.
pub open spec fn with_dependency(
    g: GraphView,
    file: FileNodeView,
    dep: Seq<char>,
    resolved: Seq<char>,
) -> GraphView {
    let added = with_file(
        g,
        resolved,
        dependency_type(dep),
        dependency_target(file.file_type, dep),
    );
    if contains_path(added.nodes, file.path) {
        let from = index_of_path(added.nodes, file.path);
        let to = index_of_path(added.nodes, resolved);
        GraphView {
            nodes: nodes_after_edge(added.nodes, from, to),
            edges: added.edges.push(EdgeView { from, to, import_statement: dep }),
        }
    } else {
        added
    }
}

/// The files that wait after a dependency was resolved to the path
/// `resolved`: if the graph `before` did not hold the file and the graph
/// `after` holds it, the file is new and waits too.
pub open spec fn with_queued(
    w: WalkView,
    before: GraphView,
    after: GraphView,
    resolved: Seq<char>,
) -> WalkView {
    if !contains_path(before.nodes, resolved) && contains_path(after.nodes, resolved) {
        WalkView {
            processed: w.processed,
            to_process: w.to_process.push(after.nodes[index_of_path(after.nodes, resolved)]),
        }
    } else {
        w
    }
}

/// The walk over the files of the graph that adds their dependencies:
/// each file is handed out once, in no particular order.
pub struct DependencyWalk {
    processed: Vec<String>,
    to_process: Vec<FileNode>,
}

impl View for DependencyWalk {
    type V = WalkView;

    closed spec fn view(&self) -> WalkView {
        WalkView { processed: strings(self.processed@), to_process: node_views(self.to_process@) }
    }
}

fn holds_path(paths: &Vec<String>, path: &str) -> (r: bool)
    ensures
        r == strings(paths@).contains(path@),
{
    let mut i: usize = 0;
    while i < paths.len()
        invariant
            i <= paths.len(),
            forall|k: int| 0 <= k < i ==> strings(paths@)[k] != path@,
        decreases paths.len() - i,
    {
        assert(strings(paths@)[i as int] == paths@[i as int]@);
        if crate::text::str_eq(paths[i].as_str(), path) {
            return true;
        }
        i += 1;
    }
    false
}

impl DependencyWalk {
    /// A walk in which every file of the graph waits.
    pub fn new(dep_graph: &DependencyGraph) -> (r: Self)
        requires
            dep_graph.wf(),
        ensures
            r@ == (WalkView { processed: Seq::empty(), to_process: dep_graph@.nodes }),
    {
        let walk = DependencyWalk { processed: Vec::new(), to_process: dep_graph.all_files() };
        assert(walk@.processed =~= Seq::empty());
        walk
    }

    /// Hands out the next file whose dependencies are to be added, if one
    /// is left.
    pub fn next_file(&mut self) -> (r: Option<FileNode>)
        ensures
            final(self)@ == next_step(old(self)@).walk,
            match r {
                Some(file) => next_step(old(self)@).file == Some(file@),
                None => next_step(old(self)@).file is None,
            },
    {
        loop
            invariant
                next_step(self@) == next_step(old(self)@),
            decreases self.to_process.len(),
        {
            let ghost before = self@;
            match self.to_process.pop() {
                Some(file) => {
                    assert(node_views(self.to_process@) =~= before.to_process.drop_last());
                    assert(before.to_process.last() == file@);
                    if !holds_path(&self.processed, file.path.as_str()) {
                        self.processed.push(file.path.clone());
                        assert(strings(self.processed@) =~= before.processed.push(file@.path));
                        return Some(file);
                    }
                },
                None => {
                    return None;
                },
            }
        }
    }

    /// Takes note of one dependency of `file`: `dep` is its import text,
    /// `resolved` the path that it was resolved to, if it could be resolved.
    /// An unresolved dependency changes nothing. A resolved one is added to
    /// the graph with an edge from `file`, and waits to be walked if it is
    /// new to the graph.
    pub fn record_dependency(
        &mut self,
        dep_graph: &mut DependencyGraph,
        file: &FileNode,
        dep: &str,
        resolved: Option<String>,
    ) -> (r: Result<(), Error>)
        requires
            old(dep_graph).wf(),
            old(dep_graph)@.nodes.len() < u32::MAX,
            old(dep_graph)@.edges.len() < u32::MAX,
        ensures
            final(dep_graph).wf(),
            match resolved {
                None => r is Ok && final(dep_graph)@ == old(dep_graph)@ && final(self)@ == old(self)@,
                Some(path) => {
                    &&& final(dep_graph)@ == with_dependency(old(dep_graph)@, file@, dep@, path@)
                    &&& final(self)@ == with_queued(
                        old(self)@,
                        old(dep_graph)@,
                        final(dep_graph)@,
                        path@,
                    )
                    &&& match r {
                        Ok(_) => contains_path(old(dep_graph)@.nodes, file@.path) || file@.path
                            == path@,
                        Err(Error::Custom(message)) => !contains_path(
                            old(dep_graph)@.nodes,
                            file@.path,
                        ) && file@.path != path@ && message@ == "Failed to add dependency: "@
                            + graph_error_message(
                            DependencyGraphError::SourceFileNotFound(file.path),
                        ),
                        Err(_) => false,
                    }
                },
            },
    {
        let path = match resolved {
            Some(path) => path,
            None => {
                return Ok(());
            },
        };
        let (file_type, target) = classify_dependency(file.file_type, dep);
        let ghost start = dep_graph@;
        let is_new = !dep_graph.contains_file(path.as_str());
        dep_graph.add_file(path.clone(), file_type, target);
        let ghost added = dep_graph@;
        proof {
            dep_graph.lemma_wf();
            assert(added == with_file(
                start,
                path@,
                dependency_type(dep@),
                dependency_target(file.file_type, dep@),
            ));
            if contains_path(start.nodes, file@.path) {
                let i = index_of_path(start.nodes, file@.path);
                assert(added.nodes[i].path == file@.path);
            }
            if contains_path(added.nodes, file@.path) && !contains_path(start.nodes, file@.path) {
                let i = index_of_path(added.nodes, file@.path);
                assert(i == start.nodes.len());
            }
        }
        let result = match dep_graph.add_dependency(file.path.as_str(), path.as_str(), dep) {
            Ok(_) => Ok(()),
            Err(e) => {
                proof {
                    assert(contains_path(added.nodes, path@));
                }
                let text = append_chars(&to_chars("Failed to add dependency: "), &to_chars(e.message().as_str()));
                Err(Error::Custom(from_chars(&text)))
            },
        };
        if is_new {
            if let Some(node) = dep_graph.get_file(path.as_str()) {
                let ghost before = node_views(self.to_process@);
                self.to_process.push(node.clone());
                assert(node_views(self.to_process@) =~= before.push(node@));
            }
        }
        result
    }
}

} // verus!
