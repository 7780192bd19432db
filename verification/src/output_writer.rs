//! The output writer: for each file of the graph that is written, where
//! it goes and what is done to it on the way.

use crate::dependency_graph::{
    contains_path, dist_path, index_of_path, omitted_of, omitted_upto, out_edges,
    replacements_of, string_pairs, well_formed, DependencyGraph, FileType, GraphView, TargetView,
};
use crate::replacements::ReplacementMap;
use crate::text::{from_chars, to_chars};
use crate::utils::paths::{file_name, push_path, push_path_exec};
use vstd::prelude::*;

verus! {

/// A stylesheet to inline into a component: the import text that names
/// it, its path, and the replacements for its own references, as seen from
/// the component's place.
pub struct InlineStylesheet {
    pub import_text: String,
    pub css_path: String,
    pub replacements: ReplacementMap,
}

/// A stylesheet to inline as a mathematical value.
pub struct InlineView {
    pub import_text: Seq<char>,
    pub css_path: Seq<char>,
    pub replacements: Map<Seq<char>, Seq<char>>,
}

impl View for InlineStylesheet {
    type V = InlineView;

    open spec fn view(&self) -> InlineView {
        InlineView {
            import_text: self.import_text@,
            css_path: self.css_path@,
            replacements: self.replacements@,
        }
    }
}

/// The views of the stylesheets `v`.
pub open spec fn inline_views(v: Seq<InlineStylesheet>) -> Seq<InlineView> {
    Seq::new(v.len(), |i: int| v[i]@)
}

/// What is done to a file on its way to the output.
pub enum WriteAction {
    /// The script is transformed with the replacements for its imports; a
    /// component root has the stylesheets `inlines` inlined.
    Script { replacements: ReplacementMap, inlines: Option<Vec<InlineStylesheet>> },
    /// The stylesheet is transformed with the replacements for its
    /// references.
    Stylesheet { replacements: ReplacementMap },
    /// The file is copied byte by byte.
    Copy,
}

/// An action as a mathematical value.
pub enum ActionView {
    Script { replacements: Map<Seq<char>, Seq<char>>, inlines: Option<Seq<InlineView>> },
    Stylesheet { replacements: Map<Seq<char>, Seq<char>> },
    Copy,
}

impl View for WriteAction {
    type V = ActionView;

    open spec fn view(&self) -> ActionView {
        match self {
            WriteAction::Script { replacements, inlines } => ActionView::Script {
                replacements: replacements@,
                inlines: match inlines {
                    Some(v) => Some(inline_views(v@)),
                    None => None,
                },
            },
            WriteAction::Stylesheet { replacements } => ActionView::Stylesheet {
                replacements: replacements@,
            },
            WriteAction::Copy => ActionView::Copy,
        }
    }
}

/// One file to write: where it comes from, where it goes, and what is
/// done to it.
pub struct OutputTask {
    pub source: String,
    pub output_path: String,
    pub action: WriteAction,
}

/// A task as a mathematical value.
pub struct TaskView {
    pub source: Seq<char>,
    pub output_path: Seq<char>,
    pub action: ActionView,
}

impl View for OutputTask {
    type V = TaskView;

    open spec fn view(&self) -> TaskView {
        TaskView { source: self.source@, output_path: self.output_path@, action: self.action@ }
    }
}

/// The views of the tasks `v`.
pub open spec fn task_views(v: Seq<OutputTask>) -> Seq<TaskView> {
    Seq::new(v.len(), |i: int| v[i]@)
}

/// The first `n` of the stylesheets to inline into a component placed at
/// `from_dist`: each omitted import with the replacements for the
/// stylesheet's references, relative to the component's place.
pub open spec fn inlines_upto(
    g: GraphView,
    omitted: Seq<(Seq<char>, Seq<char>)>,
    from_dist: Seq<char>,
    n: int,
) -> Seq<InlineView>
    decreases n,
{
    if n <= 0 {
        Seq::empty()
    } else {
        inlines_upto(g, omitted, from_dist, n - 1).push(
            InlineView {
                import_text: omitted[n - 1].0,
                css_path: omitted[n - 1].1,
                replacements: replacements_of(
                    g,
                    index_of_path(g.nodes, omitted[n - 1].1),
                    from_dist,
                ),
            },
        )
    }
}

/// What is done to node `i`, which is placed at `dist`.
pub open spec fn action_of(g: GraphView, i: int, dist: Seq<char>) -> ActionView {
    match g.nodes[i].file_type {
        FileType::JsComponent => ActionView::Script {
            replacements: replacements_of(g, i, dist),
            inlines: Some(
                inlines_upto(g, omitted_of(g, i), dist, omitted_of(g, i).len() as int),
            ),
        },
        FileType::JsFile => ActionView::Script {
            replacements: replacements_of(g, i, dist),
            inlines: None,
        },
        FileType::CssFile => ActionView::Stylesheet { replacements: replacements_of(g, i, dist) },
        FileType::OpaqueFile => ActionView::Copy,
    }
}

/// The task for node `i`, if the node is written: its place in the
/// output lies below the output directory.
pub open spec fn task_of(g: GraphView, i: int, output_dir: Seq<char>) -> Option<TaskView> {
    match dist_path(g.nodes[i]) {
        Some(dist) => Some(
            TaskView {
                source: g.nodes[i].path,
                output_path: push_path(output_dir, dist),
                action: action_of(g, i, dist),
            },
        ),
        None => None,
    }
}

/// The tasks for the first `n` nodes of the graph.
pub open spec fn tasks_upto(g: GraphView, output_dir: Seq<char>, n: int) -> Seq<TaskView>
    decreases n,
{
    if n <= 0 {
        Seq::empty()
    } else {
        match task_of(g, n - 1, output_dir) {
            Some(task) => tasks_upto(g, output_dir, n - 1).push(task),
            None => tasks_upto(g, output_dir, n - 1),
        }
    }
}

/// The tasks for the graph: one for each node that is written, in the
/// order of the nodes.
pub open spec fn tasks(g: GraphView, output_dir: Seq<char>) -> Seq<TaskView> {
    tasks_upto(g, output_dir, g.nodes.len() as int)
}

/// Every node that is written has its task: a node with a place in the
/// output is written to that place below the output directory.
pub proof fn lemma_written_nodes_have_tasks(g: GraphView, output_dir: Seq<char>, i: int, n: int)
    requires
        0 <= i < n <= g.nodes.len(),
        dist_path(g.nodes[i]) is Some,
    ensures
        tasks_upto(g, output_dir, n).contains(task_of(g, i, output_dir)->0),
        (task_of(g, i, output_dir)->0).output_path == push_path(
            output_dir,
            dist_path(g.nodes[i])->0,
        ),
        (task_of(g, i, output_dir)->0).source == g.nodes[i].path,
    decreases n,
{
    let task = task_of(g, i, output_dir)->0;
    let before = tasks_upto(g, output_dir, n - 1);
    if i == n - 1 {
        assert(before.push(task)[before.len() as int] == task);
    } else {
        lemma_written_nodes_have_tasks(g, output_dir, i, n - 1);
        let k = choose|k: int| 0 <= k < before.len() && before[k] == task;
        assert(tasks_upto(g, output_dir, n)[k] == task);
    }
}

/// No task is made for a node that is omitted.
pub proof fn lemma_omitted_nodes_have_no_task(g: GraphView, output_dir: Seq<char>, i: int)
    requires
        0 <= i < g.nodes.len(),
        g.nodes[i].target_location == TargetView::Omit,
    ensures
        task_of(g, i, output_dir) is None,
{
}

/// An asset goes to `assets/<file name>` below the output directory,
/// and an opaque file is copied.
pub proof fn lemma_asset_task(g: GraphView, output_dir: Seq<char>, i: int)
    requires
        0 <= i < g.nodes.len(),
        g.nodes[i].target_location == TargetView::Asset,
        file_name(g.nodes[i].path) is Some,
    ensures
        task_of(g, i, output_dir) matches Some(task) && task.source == g.nodes[i].path
            && task.output_path == push_path(
            output_dir,
            "assets/"@ + file_name(g.nodes[i].path)->0,
        ) && (g.nodes[i].file_type == FileType::OpaqueFile ==> task.action == ActionView::Copy),
{
}

/// Each omitted import names a file of the graph.
pub proof fn lemma_omitted_in_graph(g: GraphView, i: int, n: int)
    requires
        well_formed(g),
        0 <= n <= out_edges(g.edges, i).len(),
    ensures
        forall|k: int|
            0 <= k < omitted_upto(g, out_edges(g.edges, i), n).len() ==> contains_path(
                g.nodes,
                (#[trigger] omitted_upto(g, out_edges(g.edges, i), n)[k]).1,
            ),
    decreases n,
{
    if n > 0 {
        lemma_omitted_in_graph(g, i, n - 1);
        crate::dependency_graph::lemma_out_edges_in_range(g, i, g.edges.len() as int);
        let deps = out_edges(g.edges, i);
        let all = omitted_upto(g, deps, n);
        let rest = omitted_upto(g, deps, n - 1);
        assert forall|k: int| 0 <= k < all.len() implies contains_path(
            g.nodes,
            (#[trigger] all[k]).1,
        ) by {
            if k < rest.len() {
                assert(all[k] == rest[k]);
            } else {
                let t = deps[n - 1].0;
                assert(g.nodes[t].path == all[k].1);
            }
        }
    }
}

/// The tasks of a run: for every file of the graph that is written, its
/// place below `output_dir` and what is done to it.
pub fn transform_and_write_files(dep_graph: &DependencyGraph, output_dir: &str) -> (r: Vec<
    OutputTask,
>)
    requires
        dep_graph.wf(),
    ensures
        task_views(r@) == tasks(dep_graph@, output_dir@),
{
    let root = to_chars(output_dir);
    let count = dep_graph.file_count();
    let mut out: Vec<OutputTask> = Vec::new();
    let mut i: usize = 0;
    assert(task_views(out@) =~= Seq::empty());
    proof {
        dep_graph.lemma_wf();
    }
    while i < count
        invariant
            i <= count,
            count == dep_graph@.nodes.len(),
            dep_graph.wf(),
            well_formed(dep_graph@),
            root@ == output_dir@,
            task_views(out@) == tasks_upto(dep_graph@, output_dir@, i as int),
        decreases count - i,
    {
        let ghost g = dep_graph@;
        let ghost before = task_views(out@);
        let node = dep_graph.file_at(i);
        proof {
            let j = index_of_path(g.nodes, node@.path);
            assert(g.nodes[i as int].path == node@.path);
            assert(g.nodes[j].path == node@.path);
            assert(j == i);
        }
        if let Some(dist) = node.get_dist_path() {
            let output_path = from_chars(&push_path_exec(&root, &to_chars(dist.as_str())));
            let action = match node.file_type {
                FileType::JsComponent => {
                    let replacements = plan_replacements(dep_graph, node.path.as_str());
                    let inlines = plan_inlines(dep_graph, node.path.as_str(), Ghost(dist@));
                    WriteAction::Script { replacements, inlines: Some(inlines) }
                },
                FileType::JsFile => WriteAction::Script {
                    replacements: plan_replacements(dep_graph, node.path.as_str()),
                    inlines: None,
                },
                FileType::CssFile => WriteAction::Stylesheet {
                    replacements: plan_replacements(dep_graph, node.path.as_str()),
                },
                FileType::OpaqueFile => WriteAction::Copy,
            };
            let task = OutputTask { source: node.path.clone(), output_path, action };
            assert(task@ == task_of(g, i as int, output_dir@)->0);
            out.push(task);
            assert(task_views(out@) =~= before.push(task_of(g, i as int, output_dir@)->0));
        }
        i += 1;
    }
    out
}

fn plan_replacements(dep_graph: &DependencyGraph, path: &str) -> (r: ReplacementMap)
    requires
        dep_graph.wf(),
        contains_path(dep_graph@.nodes, path@),
        dist_path(dep_graph@.nodes[index_of_path(dep_graph@.nodes, path@)]) is Some,
    ensures
        r@ == replacements_of(
            dep_graph@,
            index_of_path(dep_graph@.nodes, path@),
            dist_path(dep_graph@.nodes[index_of_path(dep_graph@.nodes, path@)])->0,
        ),
{
    match dep_graph.get_import_replacements(path) {
        Ok(m) => m,
        Err(_) => {
            proof {
                assert(false);
            }
            ReplacementMap::new()
        },
    }
}

fn plan_inlines(dep_graph: &DependencyGraph, path: &str, Ghost(dist): Ghost<Seq<char>>) -> (r: Vec<
    InlineStylesheet,
>)
    requires
        dep_graph.wf(),
        contains_path(dep_graph@.nodes, path@),
        dist_path(dep_graph@.nodes[index_of_path(dep_graph@.nodes, path@)]) == Some(dist),
    ensures
        inline_views(r@) == inlines_upto(
            dep_graph@,
            omitted_of(dep_graph@, index_of_path(dep_graph@.nodes, path@)),
            dist,
            omitted_of(dep_graph@, index_of_path(dep_graph@.nodes, path@)).len() as int,
        ),
{
    let ghost g = dep_graph@;
    let ghost component = index_of_path(g.nodes, path@);
    let ghost wanted = omitted_of(g, component);
    let omitted = dep_graph.get_omitted_imports(path);
    proof {
        dep_graph.lemma_wf();
        lemma_omitted_in_graph(g, component, out_edges(g.edges, component).len() as int);
        assert(string_pairs(omitted@).len() == omitted@.len());
    }
    let mut out: Vec<InlineStylesheet> = Vec::new();
    let mut k: usize = 0;
    assert(inline_views(out@) =~= Seq::empty());
    while k < omitted.len()
        invariant
            k <= omitted.len(),
            dep_graph.wf(),
            g == dep_graph@,
            component == index_of_path(g.nodes, path@),
            contains_path(g.nodes, path@),
            dist_path(g.nodes[component]) == Some(dist),
            wanted == string_pairs(omitted@),
            forall|j: int| 0 <= j < wanted.len() ==> contains_path(g.nodes, (#[trigger] wanted[j]).1),
            inline_views(out@) == inlines_upto(g, wanted, dist, k as int),
        decreases omitted.len() - k,
    {
        let ghost before = inline_views(out@);
        assert(wanted[k as int] == (omitted@[k as int].0@, omitted@[k as int].1@));
        let import_text = omitted[k].0.clone();
        let css_path = omitted[k].1.clone();
        let replacements = match dep_graph.get_dependencies_and_relative_paths(
            css_path.as_str(),
            path,
        ) {
            Ok(m) => m,
            Err(_) => {
                proof {
                    assert(false);
                }
                ReplacementMap::new()
            },
        };
        let inline = InlineStylesheet { import_text, css_path, replacements };
        let ghost view = inline@;
        out.push(inline);
        assert(inline_views(out@) =~= before.push(view));
        k += 1;
    }
    out
}

} // verus!
