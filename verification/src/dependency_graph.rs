//! The dependency graph: files as nodes, imports as edges.
//!
//! Nodes carry a role and a place in the output layout; edges carry the
//! import text as it stands in the importing file. The graph itself is a
//! `petgraph` graph; this module states what each of its operations does to
//! the nodes and edges it holds.

use crate::replacements::ReplacementMap;
use crate::text::{append_chars, from_chars, to_chars};
use crate::utils::file_utils::{compute_relative_path, relative_path};
use crate::utils::paths::{file_name, file_name_exec};
use petgraph::graph::EdgeIndex;
use petgraph::graph::Graph;
use petgraph::graph::NodeIndex;
use petgraph::visit::EdgeRef;
use petgraph::Directed;
use petgraph::Direction;
use vstd::hash_map::StringHashMap;
use vstd::prelude::*;

verus! {

/// The role of a file.
#[derive(Debug, Clone, Copy, PartialEq, Eq, Hash, Structural)]
pub enum FileType {
    JsComponent,
    JsFile,
    CssFile,
    OpaqueFile,
}

/// Where a file is placed in the output layout.
#[derive(Debug, PartialEq, Eq, Hash)]
pub enum TargetLocation {
    Component(String),
    CssGlobal,
    Asset,
    Dependency,
    Omit,
}

/// A target location as a mathematical value.
pub enum TargetView {
    Component(Seq<char>),
    CssGlobal,
    Asset,
    Dependency,
    Omit,
}

impl View for TargetLocation {
    type V = TargetView;

    open spec fn view(&self) -> TargetView {
        match self {
            TargetLocation::Component(name) => TargetView::Component(name@),
            TargetLocation::CssGlobal => TargetView::CssGlobal,
            TargetLocation::Asset => TargetView::Asset,
            TargetLocation::Dependency => TargetView::Dependency,
            TargetLocation::Omit => TargetView::Omit,
        }
    }
}

impl Clone for TargetLocation {
    fn clone(&self) -> (r: Self)
        ensures
            r == *self,
    {
        match self {
            TargetLocation::Component(name) => TargetLocation::Component(name.clone()),
            TargetLocation::CssGlobal => TargetLocation::CssGlobal,
            TargetLocation::Asset => TargetLocation::Asset,
            TargetLocation::Dependency => TargetLocation::Dependency,
            TargetLocation::Omit => TargetLocation::Omit,
        }
    }
}

/// A file of the graph.
#[derive(Debug)]
pub struct FileNode {
    pub path: String,
    pub file_type: FileType,
    pub target_location: TargetLocation,
}

/// A file node as a mathematical value.
pub struct FileNodeView {
    pub path: Seq<char>,
    pub file_type: FileType,
    pub target_location: TargetView,
}

impl View for FileNode {
    type V = FileNodeView;

    open spec fn view(&self) -> FileNodeView {
        FileNodeView {
            path: self.path@,
            file_type: self.file_type,
            target_location: self.target_location@,
        }
    }
}

impl Clone for FileNode {
    fn clone(&self) -> (r: Self)
        ensures
            r == *self,
    {
        FileNode {
            path: self.path.clone(),
            file_type: self.file_type,
            target_location: self.target_location.clone(),
        }
    }
}

/// What an import edge carries: the import text as written.
#[derive(Debug)]
pub struct ImportEdge {
    pub import_statement: String,
}

impl Clone for ImportEdge {
    fn clone(&self) -> (r: Self)
        ensures
            r == *self,
    {
        ImportEdge { import_statement: self.import_statement.clone() }
    }
}

/// An edge of the graph as a mathematical value: the indices of the
/// importing node and of the imported node, and the import text.
pub struct EdgeView {
    pub from: int,
    pub to: int,
    pub import_statement: Seq<char>,
}

/// The output-relative path of a node: its folder in the output layout,
/// then the node's file name. None for a node that is not written, and for
/// one whose path has no file name.
pub open spec fn dist_path(n: FileNodeView) -> Option<Seq<char>> {
    match file_name(n.path) {
        None => None,
        Some(name) => match n.target_location {
            TargetView::Component(c) => Some("components/"@ + c + "/"@ + name),
            TargetView::CssGlobal => Some("styles/"@ + name),
            TargetView::Asset => Some("assets/"@ + name),
            TargetView::Dependency => Some("dependencies/"@ + name),
            TargetView::Omit => None,
        },
    }
}

impl FileNode {
    /// The output-relative path of this file, if it is written at all.
    pub fn get_dist_path(&self) -> (r: Option<String>)
        ensures
            match r {
                Some(p) => dist_path(self@) == Some(p@),
                None => dist_path(self@) is None,
            },
    {
        if matches!(self.target_location, TargetLocation::Omit) {
            return None;
        }
        let path = to_chars(self.path.as_str());
        let name = match file_name_exec(&path) {
            Some(name) => name,
            None => {
                return None;
            },
        };
        let out = match &self.target_location {
            TargetLocation::Component(c) => {
                let a = to_chars("components/");
                let b = to_chars(c.as_str());
                let sep = to_chars("/");
                let ab = append_chars(&a, &b);
                let abs = append_chars(&ab, &sep);
                append_chars(&abs, &name)
            },
            TargetLocation::CssGlobal => {
                let a = to_chars("styles/");
                append_chars(&a, &name)
            },
            TargetLocation::Asset => {
                let a = to_chars("assets/");
                append_chars(&a, &name)
            },
            TargetLocation::Dependency => {
                let a = to_chars("dependencies/");
                append_chars(&a, &name)
            },
            TargetLocation::Omit => {
                return None;
            },
        };
        Some(from_chars(&out))
    }
}

/// Why an operation on the graph failed.
#[derive(Debug)]
pub enum DependencyGraphError {
    FileNotFound(String),
    EdgeNotFound(String, String),
    CircularDependency,
    SourceFileNotFound(String),
    TargetFileNotFound(String),
}

/// The text of a graph error.
pub open spec fn graph_error_message(e: DependencyGraphError) -> Seq<char> {
    match e {
        DependencyGraphError::FileNotFound(p) => "File not found in graph: "@ + p@,
        DependencyGraphError::EdgeNotFound(a, b) => "Dependency edge not found between '"@ + a@
            + "' and '"@ + b@ + "'"@,
        DependencyGraphError::CircularDependency => "Circular dependency detected in graph"@,
        DependencyGraphError::SourceFileNotFound(p) => "Cannot add dependency: source file '"@
            + p@ + "' not found"@,
        DependencyGraphError::TargetFileNotFound(p) => "Cannot add dependency: target file '"@
            + p@ + "' not found"@,
    }
}

impl DependencyGraphError {
    /// The text of the error.
    pub fn message(&self) -> (r: String)
        ensures
            r@ == graph_error_message(*self),
    {
        let out = match self {
            DependencyGraphError::FileNotFound(p) => append_chars(
                &to_chars("File not found in graph: "),
                &to_chars(p.as_str()),
            ),
            DependencyGraphError::EdgeNotFound(a, b) => {
                let x = append_chars(&to_chars("Dependency edge not found between '"), &to_chars(a.as_str()));
                let y = append_chars(&x, &to_chars("' and '"));
                let z = append_chars(&y, &to_chars(b.as_str()));
                append_chars(&z, &to_chars("'"))
            },
            DependencyGraphError::CircularDependency => to_chars(
                "Circular dependency detected in graph",
            ),
            DependencyGraphError::SourceFileNotFound(p) => {
                let x = append_chars(&to_chars("Cannot add dependency: source file '"), &to_chars(p.as_str()));
                append_chars(&x, &to_chars("' not found"))
            },
            DependencyGraphError::TargetFileNotFound(p) => {
                let x = append_chars(&to_chars("Cannot add dependency: target file '"), &to_chars(p.as_str()));
                append_chars(&x, &to_chars("' not found"))
            },
        };
        from_chars(&out)
    }
}

/// `petgraph::graph::Graph`: a graph with node weights `N` and edge
/// weights `E`. What it holds is told by the names below.
#[verifier::external_type_specification]
#[verifier::external_body]
#[verifier::reject_recursive_types(N)]
#[verifier::reject_recursive_types(E)]
#[verifier::reject_recursive_types(Ty)]
#[verifier::reject_recursive_types(Ix)]
pub struct ExGraph<N, E, Ty, Ix>(Graph<N, E, Ty, Ix>);

/// `petgraph::Directed`: the marker of graphs with directed edges.
#[verifier::external_type_specification]
#[verifier::external_body]
pub struct ExDirected(Directed);

/// The nodes that a graph holds, by their indices.
pub uninterp spec fn graph_nodes(g: Graph<FileNode, ImportEdge, Directed, u32>) -> Seq<
    FileNodeView,
>;

/// The edges that a graph holds, by their indices.
pub uninterp spec fn graph_edges(g: Graph<FileNode, ImportEdge, Directed, u32>) -> Seq<EdgeView>;

/// Whether nothing was ever removed from the graph. Then each edge stands
/// at the index that it was added at. (Removing a node or an edge moves the
/// last one into its place.)
pub uninterp spec fn graph_is_intact(g: Graph<FileNode, ImportEdge, Directed, u32>) -> bool;

/// The out-edges of node `i` among the first `n` edges, as pairs of target
/// index and import text, the edge added last first.
pub open spec fn out_edges_upto(edges: Seq<EdgeView>, i: int, n: int) -> Seq<(int, Seq<char>)>
    decreases n,
{
    if n <= 0 {
        Seq::empty()
    } else if edges[n - 1].from == i {
        seq![(edges[n - 1].to, edges[n - 1].import_statement)] + out_edges_upto(edges, i, n - 1)
    } else {
        out_edges_upto(edges, i, n - 1)
    }
}

/// The out-edges of node `i`, the edge added last first.
pub open spec fn out_edges(edges: Seq<EdgeView>, i: int) -> Seq<(int, Seq<char>)> {
    out_edges_upto(edges, i, edges.len() as int)
}

/// The pairs of `v` as mathematical values.
pub open spec fn edge_pairs(v: Seq<(usize, String)>) -> Seq<(int, Seq<char>)> {
    Seq::new(v.len(), |k: int| (v[k].0 as int, v[k].1@))
}

/// Whether `walk`, a sequence of edge indices, follows the edges: each of
/// its edges starts where the one before it ends.
pub open spec fn is_walk(edges: Seq<EdgeView>, walk: Seq<int>) -> bool {
    &&& forall|k: int| 0 <= k < walk.len() ==> 0 <= #[trigger] walk[k] < edges.len()
    &&& forall|k: int|
        0 <= k < walk.len() - 1 ==> edges[#[trigger] walk[k]].to == edges[walk[k + 1]].from
}

/// Whether the edges hold a cycle: a walk of at least one edge that ends
/// where it starts.
pub open spec fn has_cycle(edges: Seq<EdgeView>) -> bool {
    exists|walk: Seq<int>|
        walk.len() > 0 && #[trigger] is_walk(edges, walk) && edges[walk.last()].to
            == edges[walk[0]].from
}

/// Calls `Graph::new`, which makes a graph without nodes or edges.
#[verifier::external_body]
fn graph_new() -> (g: Graph<FileNode, ImportEdge, Directed, u32>)
    ensures
        graph_nodes(g) == Seq::<FileNodeView>::empty(),
        graph_edges(g) == Seq::<EdgeView>::empty(),
        graph_is_intact(g),
{
    Graph::new()
}

/// Calls `Graph::node_count`: the number of nodes.
#[verifier::external_body]
fn graph_node_count(g: &Graph<FileNode, ImportEdge, Directed, u32>) -> (n: usize)
    ensures
        n == graph_nodes(*g).len(),
{
    g.node_count()
}

/// Calls `Graph::edge_count`: the number of edges.
#[verifier::external_body]
fn graph_edge_count(g: &Graph<FileNode, ImportEdge, Directed, u32>) -> (n: usize)
    ensures
        n == graph_edges(*g).len(),
{
    g.edge_count()
}

/// Calls `Graph::add_node`, which appends a node and returns its index,
/// the number of nodes before the call. It panics where that index is the
/// largest `u32`, which the precondition leaves out.
#[verifier::external_body]
fn graph_add_node(g: &mut Graph<FileNode, ImportEdge, Directed, u32>, node: FileNode) -> (i: usize)
    requires
        graph_nodes(*old(g)).len() < u32::MAX,
    ensures
        i == graph_nodes(*old(g)).len(),
        graph_nodes(*final(g)) == graph_nodes(*old(g)).push(node@),
        graph_edges(*final(g)) == graph_edges(*old(g)),
        graph_is_intact(*final(g)) == graph_is_intact(*old(g)),
{
    g.add_node(node).index()
}

/// Calls `Graph::add_edge`, which appends an edge between two nodes of the
/// graph and returns its index, the number of edges before the call. It
/// panics where a node does not exist and where that index is the largest
/// `u32`; the precondition leaves both out.
#[verifier::external_body]
fn graph_add_edge(
    g: &mut Graph<FileNode, ImportEdge, Directed, u32>,
    from: usize,
    to: usize,
    edge: ImportEdge,
) -> (i: usize)
    requires
        from < graph_nodes(*old(g)).len(),
        to < graph_nodes(*old(g)).len(),
        graph_nodes(*old(g)).len() <= u32::MAX,
        graph_edges(*old(g)).len() < u32::MAX,
    ensures
        i == graph_edges(*old(g)).len(),
        graph_nodes(*final(g)) == graph_nodes(*old(g)),
        graph_edges(*final(g)) == graph_edges(*old(g)).push(
            EdgeView { from: from as int, to: to as int, import_statement: edge.import_statement@ },
        ),
        graph_is_intact(*final(g)) == graph_is_intact(*old(g)),
{
    g.add_edge(NodeIndex::new(from), NodeIndex::new(to), edge).index()
}

/// Indexes the graph by a node index, which gives the node at that index
/// and panics where there is none; the precondition leaves that out.
#[verifier::external_body]
fn graph_node(g: &Graph<FileNode, ImportEdge, Directed, u32>, i: usize) -> (node: &FileNode)
    requires
        i < graph_nodes(*g).len(),
        graph_nodes(*g).len() <= u32::MAX,
    ensures
        node@ == graph_nodes(*g)[i as int],
{
    &g[NodeIndex::new(i)]
}

/// Assigns through the graph's mutable index, which replaces the node at
/// index `i` and panics where there is none; the precondition leaves that
/// out.
#[verifier::external_body]
fn graph_set_node(g: &mut Graph<FileNode, ImportEdge, Directed, u32>, i: usize, node: FileNode)
    requires
        i < graph_nodes(*old(g)).len(),
        graph_nodes(*old(g)).len() <= u32::MAX,
    ensures
        graph_nodes(*final(g)) == graph_nodes(*old(g)).update(i as int, node@),
        graph_edges(*final(g)) == graph_edges(*old(g)),
        graph_is_intact(*final(g)) == graph_is_intact(*old(g)),
{
    g[NodeIndex::new(i)] = node;
}

/// Calls `Graph::edges_directed` for the outgoing edges of node `i`, which
/// lists them in reverse order of their addition, and hands out each edge
/// as its target's index and its import text.
#[verifier::external_body]
fn graph_out_edges(g: &Graph<FileNode, ImportEdge, Directed, u32>, i: usize) -> (r: Vec<
    (usize, String),
>)
    requires
        i < graph_nodes(*g).len(),
        graph_nodes(*g).len() <= u32::MAX,
        graph_is_intact(*g),
    ensures
        edge_pairs(r@) == out_edges(graph_edges(*g), i as int),
{
    g.edges_directed(NodeIndex::new(i), Direction::Outgoing).map(
        |e| (e.target().index(), e.weight().import_statement.clone()),
    ).collect()
}

/// The index of the edge added last among the first `n` edges that leads
/// from node `from` to node `to`.
pub open spec fn last_edge_between(edges: Seq<EdgeView>, from: int, to: int, n: int) -> Option<
    int,
>
    decreases n,
{
    if n <= 0 {
        None
    } else if edges[n - 1].from == from && edges[n - 1].to == to {
        Some(n - 1)
    } else {
        last_edge_between(edges, from, to, n - 1)
    }
}

/// Whether `order` lists each of the `n` nodes once, and each node before
/// the nodes that its edges lead to.
pub open spec fn is_topological_order(order: Seq<int>, n: int, edges: Seq<EdgeView>) -> bool {
    &&& order.len() == n
    &&& forall|i: int| 0 <= i < n ==> 0 <= #[trigger] order[i] < n
    &&& forall|i: int, j: int| 0 <= i < j < n ==> #[trigger] order[i] != #[trigger] order[j]
    &&& forall|k: int, i: int, j: int|
        0 <= k < edges.len() && 0 <= i < n && 0 <= j < n && #[trigger] order[i]
            == (#[trigger] edges[k]).from && #[trigger] order[j] == edges[k].to ==> i < j
}

/// The indices of `v` as mathematical values.
pub open spec fn indices(v: Seq<usize>) -> Seq<int> {
    Seq::new(v.len(), |i: int| v[i] as int)
}

/// Calls `Graph::find_edge`, which looks an edge from one node to
/// another up among the first node's outgoing edges, the edge added last
/// first.
#[verifier::external_body]
fn graph_find_edge(g: &Graph<FileNode, ImportEdge, Directed, u32>, from: usize, to: usize) -> (r:
    Option<usize>)
    requires
        from < graph_nodes(*g).len(),
        to < graph_nodes(*g).len(),
        graph_nodes(*g).len() <= u32::MAX,
        graph_is_intact(*g),
    ensures
        match r {
            Some(e) => last_edge_between(
                graph_edges(*g),
                from as int,
                to as int,
                graph_edges(*g).len() as int,
            ) == Some(e as int),
            None => last_edge_between(
                graph_edges(*g),
                from as int,
                to as int,
                graph_edges(*g).len() as int,
            ) is None,
        },
{
    match g.find_edge(NodeIndex::new(from), NodeIndex::new(to)) {
        Some(e) => Some(e.index()),
        None => None,
    }
}

/// Assigns through the graph's mutable index by edge, which gives access
/// to the weight of the edge at index `e` and panics where there is none;
/// the precondition leaves that out. The import text of the edge is
/// replaced.
#[verifier::external_body]
fn graph_set_edge_text(g: &mut Graph<FileNode, ImportEdge, Directed, u32>, e: usize, text: String)
    requires
        e < graph_edges(*old(g)).len(),
        graph_edges(*old(g)).len() <= u32::MAX,
    ensures
        graph_nodes(*final(g)) == graph_nodes(*old(g)),
        graph_edges(*final(g)) == graph_edges(*old(g)).update(
            e as int,
            EdgeView {
                from: graph_edges(*old(g))[e as int].from,
                to: graph_edges(*old(g))[e as int].to,
                import_statement: text@,
            },
        ),
        graph_is_intact(*final(g)) == graph_is_intact(*old(g)),
{
    g[EdgeIndex::new(e)].import_statement = text;
}

/// Calls `petgraph::algo::toposort`, which returns the nodes in
/// topological order, each node before its successors, if the graph has no
/// cycle, and an error if it has one.
#[verifier::external_body]
fn graph_toposort(g: &Graph<FileNode, ImportEdge, Directed, u32>) -> (r: Option<Vec<usize>>)
    ensures
        r is None <==> has_cycle(graph_edges(*g)),
        r matches Some(order) ==> is_topological_order(
            indices(order@),
            graph_nodes(*g).len() as int,
            graph_edges(*g),
        ),
{
    match petgraph::algo::toposort(g, None) {
        Ok(order) => Some(order.into_iter().map(|i| i.index()).collect()),
        Err(_) => None,
    }
}

/// Calls `petgraph::algo::is_cyclic_directed`, which says whether the
/// directed graph contains a cycle. Its search is recursive: it goes as
/// deep as the longest chain of edges.
#[verifier::external_body]
fn graph_is_cyclic(g: &Graph<FileNode, ImportEdge, Directed, u32>) -> (r: bool)
    ensures
        r == has_cycle(graph_edges(*g)),
{
    petgraph::algo::is_cyclic_directed(g)
}

/// The graph as a mathematical value: its nodes and its edges, each in the
/// order in which they were added.
pub struct GraphView {
    pub nodes: Seq<FileNodeView>,
    pub edges: Seq<EdgeView>,
}

/// Whether some node of `nodes` has the path `path`.
pub open spec fn contains_path(nodes: Seq<FileNodeView>, path: Seq<char>) -> bool {
    exists|i: int| 0 <= i < nodes.len() && #[trigger] nodes[i].path == path
}

/// The index of a node of `nodes` with the path `path`.
pub open spec fn index_of_path(nodes: Seq<FileNodeView>, path: Seq<char>) -> int {
    choose|i: int| 0 <= i < nodes.len() && #[trigger] nodes[i].path == path
}

/// Whether each path occurs in at most one node and each edge joins two
/// nodes of the graph.
pub open spec fn well_formed(g: GraphView) -> bool {
    &&& forall|i: int, j: int|
        0 <= i < g.nodes.len() && 0 <= j < g.nodes.len() && #[trigger] g.nodes[i].path
            == #[trigger] g.nodes[j].path ==> i == j
    &&& forall|k: int|
        0 <= k < g.edges.len() ==> 0 <= (#[trigger] g.edges[k]).from < g.nodes.len() && 0
            <= g.edges[k].to < g.nodes.len()
}

/// The graph with a file added: a path that the graph holds already
/// changes nothing.
pub open spec fn with_file(
    g: GraphView,
    path: Seq<char>,
    file_type: FileType,
    target_location: TargetView,
) -> GraphView {
    if contains_path(g.nodes, path) {
        g
    } else {
        GraphView {
            nodes: g.nodes.push(FileNodeView { path, file_type, target_location }),
            edges: g.edges,
        }
    }
}

/// The nodes after an edge from node `from` to node `to` was added: where
/// the importing node is no component root and the imported node was to be
/// omitted, the imported node becomes a dependency.
pub open spec fn nodes_after_edge(nodes: Seq<FileNodeView>, from: int, to: int) -> Seq<
    FileNodeView,
> {
    if nodes[from].file_type != FileType::JsComponent && nodes[to].target_location
        == TargetView::Omit {
        nodes.update(
            to,
            FileNodeView {
                path: nodes[to].path,
                file_type: nodes[to].file_type,
                target_location: TargetView::Dependency,
            },
        )
    } else {
        nodes
    }
}

/// The graph after an import edge with the text `text` was added from the
/// file at `from_path` to the file at `to_path`, both files of the graph.
pub open spec fn with_edge(
    g: GraphView,
    from_path: Seq<char>,
    to_path: Seq<char>,
    text: Seq<char>,
) -> GraphView {
    let from = index_of_path(g.nodes, from_path);
    let to = index_of_path(g.nodes, to_path);
    GraphView {
        nodes: nodes_after_edge(g.nodes, from, to),
        edges: g.edges.push(EdgeView { from, to, import_statement: text }),
    }
}

/// Whether `after` holds the nodes of `before` and perhaps more, each old
/// node with its path and role, and with its target location either
/// unchanged or raised from omitted to dependency.
pub open spec fn nodes_kept(before: Seq<FileNodeView>, after: Seq<FileNodeView>) -> bool {
    &&& before.len() <= after.len()
    &&& forall|i: int|
        0 <= i < before.len() ==> {
            &&& (#[trigger] after[i]).path == before[i].path
            &&& after[i].file_type == before[i].file_type
            &&& (after[i].target_location == before[i].target_location || (
            before[i].target_location == TargetView::Omit && after[i].target_location
                == TargetView::Dependency))
        }
}

/// The views of the nodes of `v`.
pub open spec fn node_views(v: Seq<FileNode>) -> Seq<FileNodeView> {
    Seq::new(v.len(), |i: int| v[i]@)
}

/// The pairs of `v` as mathematical values.
pub open spec fn string_pairs(v: Seq<(String, String)>) -> Seq<(Seq<char>, Seq<char>)> {
    Seq::new(v.len(), |k: int| (v[k].0@, v[k].1@))
}

/// The out-edges of node `i` as pairs of the target's path and the import
/// text, the edge added last first.
pub open spec fn dependencies_of(g: GraphView, i: int) -> Seq<(Seq<char>, Seq<char>)> {
    let out = out_edges(g.edges, i);
    Seq::new(out.len(), |k: int| (g.nodes[out[k].0].path, out[k].1))
}

/// The replacement map after the first `n` of the dependencies `deps` of a
/// file placed at `from_dist`: each import text whose target is written is
/// mapped to the relative path from `from_dist` to the target's place.
pub open spec fn replacements_upto(
    g: GraphView,
    from_dist: Seq<char>,
    deps: Seq<(int, Seq<char>)>,
    n: int,
) -> Map<Seq<char>, Seq<char>>
    decreases n,
{
    if n <= 0 {
        Map::empty()
    } else {
        let before = replacements_upto(g, from_dist, deps, n - 1);
        match dist_path(g.nodes[deps[n - 1].0]) {
            Some(target) => before.insert(deps[n - 1].1, relative_path(from_dist, target)),
            None => before,
        }
    }
}

/// The replacement map for the imports of node `query`, as seen from a
/// file placed at `from_dist`.
pub open spec fn replacements_of(g: GraphView, query: int, from_dist: Seq<char>) -> Map<
    Seq<char>,
    Seq<char>,
> {
    let deps = out_edges(g.edges, query);
    replacements_upto(g, from_dist, deps, deps.len() as int)
}

/// The omitted imports among the first `n` of the dependencies `deps`: the
/// import text and the target's path of each edge whose target is omitted.
pub open spec fn omitted_upto(g: GraphView, deps: Seq<(int, Seq<char>)>, n: int) -> Seq<
    (Seq<char>, Seq<char>),
>
    decreases n,
{
    if n <= 0 {
        Seq::empty()
    } else if g.nodes[deps[n - 1].0].target_location == TargetView::Omit {
        omitted_upto(g, deps, n - 1).push((deps[n - 1].1, g.nodes[deps[n - 1].0].path))
    } else {
        omitted_upto(g, deps, n - 1)
    }
}

/// The imports of node `i` whose targets are omitted from the output.
pub open spec fn omitted_of(g: GraphView, i: int) -> Seq<(Seq<char>, Seq<char>)> {
    let deps = out_edges(g.edges, i);
    omitted_upto(g, deps, deps.len() as int)
}

/// Each out-edge of a well-formed graph leads to a node of the graph.
pub proof fn lemma_out_edges_in_range(g: GraphView, i: int, n: int)
    requires
        well_formed(g),
        0 <= n <= g.edges.len(),
    ensures
        forall|k: int|
            0 <= k < out_edges_upto(g.edges, i, n).len() ==> 0 <= (#[trigger] out_edges_upto(
                g.edges,
                i,
                n,
            )[k]).0 < g.nodes.len(),
    decreases n,
{
    if n > 0 {
        lemma_out_edges_in_range(g, i, n - 1);
        let rest = out_edges_upto(g.edges, i, n - 1);
        let all = out_edges_upto(g.edges, i, n);
        assert forall|k: int| 0 <= k < all.len() implies 0 <= (#[trigger] all[k]).0
            < g.nodes.len() by {
            if g.edges[n - 1].from == i {
                if k > 0 {
                    assert(all[k] == rest[k - 1]);
                }
            }
        }
    }
}

/// An import text is replaced exactly if one of the edges that carry it
/// leads to a file that is written.
pub proof fn lemma_replacements_domain(
    g: GraphView,
    from_dist: Seq<char>,
    deps: Seq<(int, Seq<char>)>,
    n: int,
    text: Seq<char>,
)
    requires
        0 <= n <= deps.len(),
    ensures
        replacements_upto(g, from_dist, deps, n).contains_key(text) <==> exists|k: int|
            0 <= k < n && (#[trigger] deps[k]).1 == text && dist_path(g.nodes[deps[k].0]) is Some,
    decreases n,
{
    if n > 0 {
        lemma_replacements_domain(g, from_dist, deps, n - 1, text);
        let before = replacements_upto(g, from_dist, deps, n - 1);
        if before.contains_key(text) {
            let k = choose|k: int|
                0 <= k < n - 1 && (#[trigger] deps[k]).1 == text && dist_path(g.nodes[deps[k].0])
                    is Some;
            assert(0 <= k < n && deps[k].1 == text);
        }
        if deps[n - 1].1 == text && dist_path(g.nodes[deps[n - 1].0]) is Some {
            assert(0 <= n - 1 < n && deps[n - 1].1 == text);
        }
    }
}

/// An import text is replaced by the relative path to the place of the
/// file that its edge leads to: of the edges among the first `n` that carry
/// the text of edge `k` and lead to a written file, the last one listed
/// decides, and that is edge `k` if none follows it.
pub proof fn lemma_replacement_value(
    g: GraphView,
    from_dist: Seq<char>,
    deps: Seq<(int, Seq<char>)>,
    n: int,
    k: int,
)
    requires
        0 <= k < n <= deps.len(),
        dist_path(g.nodes[deps[k].0]) is Some,
        forall|j: int|
            k < j < n && (#[trigger] deps[j]).1 == deps[k].1 ==> dist_path(g.nodes[deps[j].0])
                is None,
    ensures
        replacements_upto(g, from_dist, deps, n).contains_key(deps[k].1),
        replacements_upto(g, from_dist, deps, n)[deps[k].1] == relative_path(
            from_dist,
            dist_path(g.nodes[deps[k].0])->0,
        ),
    decreases n,
{
    if n - 1 > k {
        lemma_replacement_value(g, from_dist, deps, n - 1, k);
        assert(deps[n - 1].1 == deps[k].1 ==> dist_path(g.nodes[deps[n - 1].0]) is None);
    }
}

/// Every import of a written file that leads to a written file is
/// rewritten: where one edge of node `i` alone carries an import text and
/// leads to a node with a place in the output, the replacement for that
/// text is the relative path from the place of node `i` to that place.
pub proof fn lemma_edge_is_rewritten(g: GraphView, i: int, k: int)
    requires
        0 <= i < g.nodes.len(),
        dist_path(g.nodes[i]) is Some,
        0 <= k < out_edges(g.edges, i).len(),
        dist_path(g.nodes[out_edges(g.edges, i)[k].0]) is Some,
        forall|j: int|
            0 <= j < out_edges(g.edges, i).len() && j != k ==> (#[trigger] out_edges(
                g.edges,
                i,
            )[j]).1 != out_edges(g.edges, i)[k].1,
    ensures
        replacements_of(g, i, dist_path(g.nodes[i])->0).contains_key(out_edges(g.edges, i)[k].1),
        replacements_of(g, i, dist_path(g.nodes[i])->0)[out_edges(g.edges, i)[k].1]
            == relative_path(
            dist_path(g.nodes[i])->0,
            dist_path(g.nodes[out_edges(g.edges, i)[k].0])->0,
        ),
{
    let deps = out_edges(g.edges, i);
    lemma_replacement_value(g, dist_path(g.nodes[i])->0, deps, deps.len() as int, k);
}

/// An import that leads only to omitted files is not rewritten.
pub proof fn lemma_omitted_is_not_rewritten(g: GraphView, i: int, from_dist: Seq<char>, text: Seq<char>)
    requires
        forall|j: int|
            0 <= j < out_edges(g.edges, i).len() && (#[trigger] out_edges(g.edges, i)[j]).1
                == text ==> dist_path(g.nodes[out_edges(g.edges, i)[j].0]) is None,
    ensures
        !replacements_of(g, i, from_dist).contains_key(text),
{
    let deps = out_edges(g.edges, i);
    lemma_replacements_domain(g, from_dist, deps, deps.len() as int, text);
}

/// The edge found between two nodes is one of the edges, and leads from
/// the one node to the other.
pub proof fn lemma_last_edge_between(edges: Seq<EdgeView>, from: int, to: int, n: int)
    requires
        0 <= n <= edges.len(),
    ensures
        last_edge_between(edges, from, to, n) matches Some(e) ==> 0 <= e < n && edges[e].from
            == from && edges[e].to == to,
    decreases n,
{
    if n > 0 {
        lemma_last_edge_between(edges, from, to, n - 1);
    }
}

/// A directed graph of files and imports.
pub struct DependencyGraph {
    graph: Graph<FileNode, ImportEdge, Directed, u32>,
    path_to_index: StringHashMap<usize>,
}

impl View for DependencyGraph {
    type V = GraphView;

    closed spec fn view(&self) -> GraphView {
        GraphView { nodes: graph_nodes(self.graph), edges: graph_edges(self.graph) }
    }
}

impl DependencyGraph {
    /// The invariant of the graph: the index by path agrees with the
    /// nodes, and the graph is well formed.
    pub closed spec fn wf(&self) -> bool {
        let nodes = graph_nodes(self.graph);
        &&& nodes.len() <= u32::MAX
        &&& graph_edges(self.graph).len() <= u32::MAX
        &&& graph_is_intact(self.graph)
        &&& forall|k: Seq<char>| #[trigger]
            self.path_to_index@.contains_key(k) ==> self.path_to_index@[k] < nodes.len()
                && nodes[self.path_to_index@[k] as int].path == k
        &&& forall|i: int|
            0 <= i < nodes.len() ==> self.path_to_index@.contains_key((#[trigger] nodes[i]).path)
                && self.path_to_index@[nodes[i].path] == i
        &&& forall|k: int|
            0 <= k < graph_edges(self.graph).len() ==> 0 <= (#[trigger] graph_edges(
                self.graph,
            )[k]).from < nodes.len() && 0 <= graph_edges(self.graph)[k].to < nodes.len()
    }

    /// A graph that meets its invariant is well formed and holds fewer
    /// nodes than a `u32` can count.
    pub proof fn lemma_wf(&self)
        requires
            self.wf(),
        ensures
            well_formed(self@),
            self@.nodes.len() <= u32::MAX,
    {
    }

    /// Creates an empty dependency graph.
    pub fn new() -> (g: Self)
        ensures
            g.wf(),
            g@.nodes == Seq::<FileNodeView>::empty(),
            g@.edges == Seq::<EdgeView>::empty(),
    {
        DependencyGraph { graph: graph_new(), path_to_index: StringHashMap::new() }
    }

    fn lookup(&self, path: &str) -> (r: Option<usize>)
        requires
            self.wf(),
        ensures
            match r {
                Some(i) => i < self@.nodes.len() && self@.nodes[i as int].path == path@ && i
                    == index_of_path(self@.nodes, path@),
                None => !contains_path(self@.nodes, path@),
            },
    {
        match self.path_to_index.get(path) {
            Some(i) => {
                proof {
                    let j = index_of_path(self@.nodes, path@);
                    assert(self@.nodes[*i as int].path == path@);
                    assert(self@.nodes[j].path == path@);
                }
                Some(*i)
            },
            None => None,
        }
    }

    /// Adds a file to the graph and returns its index. A file whose path is
    /// in the graph already stays as it is, with its role and its target
    /// location, and its index is returned.
    pub fn add_file(
        &mut self,
        path: String,
        file_type: FileType,
        target_location: TargetLocation,
    ) -> (r: usize)
        requires
            old(self).wf(),
            contains_path(old(self)@.nodes, path@) || old(self)@.nodes.len() < u32::MAX,
        ensures
            final(self).wf(),
            final(self)@ == with_file(old(self)@, path@, file_type, target_location@),
            final(self)@.edges == old(self)@.edges,
            contains_path(old(self)@.nodes, path@) ==> final(self)@ == old(self)@ && r
                == index_of_path(old(self)@.nodes, path@),
            !contains_path(old(self)@.nodes, path@) ==> r == old(self)@.nodes.len() && final(self)@.nodes == old(self)@.nodes.push(
                FileNodeView { path: path@, file_type, target_location: target_location@ },
            ),
            r < final(self)@.nodes.len(),
            final(self)@.nodes[r as int].path == path@,
            nodes_kept(old(self)@.nodes, final(self)@.nodes),
    {
        if let Some(existing) = self.lookup(path.as_str()) {
            return existing;
        }
        let key = path.clone();
        let node = FileNode { path, file_type, target_location };
        let index = graph_add_node(&mut self.graph, node);
        self.path_to_index.insert(key, index);
        proof {
            let nodes = graph_nodes(self.graph);
            assert forall|i: int| 0 <= i < nodes.len() implies self.path_to_index@.contains_key(
                (#[trigger] nodes[i]).path,
            ) && self.path_to_index@[nodes[i].path] == i by {
                if i < nodes.len() - 1 {
                    assert(nodes[i] == graph_nodes(old(self).graph)[i]);
                    assert(nodes[i].path != path@);
                }
            }
        }
        index
    }

    /// Adds a dependency between two files of the graph, with the import
    /// text as written, and returns the index of the new edge. Where the
    /// importing file is no component and the imported file was to be
    /// omitted, the imported file becomes a dependency.
    pub fn add_dependency(&mut self, from_file: &str, to_file: &str, import_statement: &str) -> (r:
        Result<usize, DependencyGraphError>)
        requires
            old(self).wf(),
            old(self)@.edges.len() < u32::MAX,
        ensures
            final(self).wf(),
            nodes_kept(old(self)@.nodes, final(self)@.nodes),
            final(self)@.nodes.len() == old(self)@.nodes.len(),
            match r {
                Ok(e) => {
                    &&& contains_path(old(self)@.nodes, from_file@)
                    &&& contains_path(old(self)@.nodes, to_file@)
                    &&& e == old(self)@.edges.len()
                    &&& final(self)@ == with_edge(
                        old(self)@,
                        from_file@,
                        to_file@,
                        import_statement@,
                    )
                },
                Err(DependencyGraphError::SourceFileNotFound(p)) => !contains_path(
                    old(self)@.nodes,
                    from_file@,
                ) && p@ == from_file@ && final(self)@ == old(self)@,
                Err(DependencyGraphError::TargetFileNotFound(p)) => contains_path(
                    old(self)@.nodes,
                    from_file@,
                ) && !contains_path(old(self)@.nodes, to_file@) && p@ == to_file@ && final(self)@
                    == old(self)@,
                Err(_) => false,
            },
    {
        let from_idx = match self.lookup(from_file) {
            Some(i) => i,
            None => {
                return Err(DependencyGraphError::SourceFileNotFound(from_chars(&to_chars(from_file))));
            },
        };
        let to_idx = match self.lookup(to_file) {
            Some(i) => i,
            None => {
                return Err(DependencyGraphError::TargetFileNotFound(from_chars(&to_chars(to_file))));
            },
        };
        let from_is_component = graph_node(&self.graph, from_idx).file_type
            == FileType::JsComponent;
        let target = graph_node(&self.graph, to_idx);
        if !from_is_component && matches!(target.target_location, TargetLocation::Omit) {
            let raised = FileNode {
                path: target.path.clone(),
                file_type: target.file_type,
                target_location: TargetLocation::Dependency,
            };
            graph_set_node(&mut self.graph, to_idx, raised);
        }
        assert(graph_nodes(self.graph) =~= nodes_after_edge(
            old(self)@.nodes,
            from_idx as int,
            to_idx as int,
        ));
        let edge = ImportEdge { import_statement: from_chars(&to_chars(import_statement)) };
        let e = graph_add_edge(&mut self.graph, from_idx, to_idx, edge);
        Ok(e)
    }

    /// Adds a file and an edge from it to a file of the graph, in one step.
    pub fn add_dependent_file(
        &mut self,
        dependent_path: String,
        dependent_file_type: FileType,
        dependent_target_location: TargetLocation,
        depends_on: &str,
        import_statement: &str,
    ) -> (r: Result<(usize, usize), DependencyGraphError>)
        requires
            old(self).wf(),
            old(self)@.edges.len() < u32::MAX,
            contains_path(old(self)@.nodes, dependent_path@) || old(self)@.nodes.len() < u32::MAX,
        ensures
            final(self).wf(),
            nodes_kept(old(self)@.nodes, final(self)@.nodes),
            ({
                let added = with_file(
                    old(self)@,
                    dependent_path@,
                    dependent_file_type,
                    dependent_target_location@,
                );
                match r {
                    Ok((n, e)) => {
                        &&& contains_path(added.nodes, depends_on@)
                        &&& n == index_of_path(added.nodes, dependent_path@)
                        &&& e == old(self)@.edges.len()
                        &&& final(self)@ == with_edge(
                            added,
                            dependent_path@,
                            depends_on@,
                            import_statement@,
                        )
                    },
                    Err(DependencyGraphError::TargetFileNotFound(p)) => p@ == depends_on@
                        && !contains_path(added.nodes, depends_on@) && final(self)@ == added,
                    Err(_) => false,
                }
            }),
    {
        let key = dependent_path.clone();
        let n = self.add_file(dependent_path, dependent_file_type, dependent_target_location);
        let ghost mid = self@;
        proof {
            self.lemma_wf();
        }
        match self.add_dependency(key.as_str(), depends_on, import_statement) {
            Ok(e) => {
                proof {
                    let j = index_of_path(mid.nodes, key@);
                    assert(mid.nodes[n as int].path == key@);
                    assert(j == n);
                    let t = index_of_path(mid.nodes, depends_on@);
                    let t2 = index_of_path(self@.nodes, depends_on@);
                    assert(self@.nodes[t].path == depends_on@);
                    self.lemma_wf();
                    assert(self@.nodes[t2].path == depends_on@);
                    assert(t == t2);
                }
                Ok((n, e))
            },
            Err(DependencyGraphError::TargetFileNotFound(p)) => Err(
                DependencyGraphError::TargetFileNotFound(p),
            ),
            Err(other) => {
                proof {
                    assert(mid.nodes[n as int].path == key@);
                    assert(contains_path(mid.nodes, key@));
                }
                Err(other)
            },
        }
    }

    /// The file node with the path `file_path`.
    pub fn get_file(&self, file_path: &str) -> (r: Option<&FileNode>)
        requires
            self.wf(),
        ensures
            match r {
                Some(n) => contains_path(self@.nodes, file_path@) && n@ == self@.nodes[index_of_path(
                    self@.nodes,
                    file_path@,
                )],
                None => !contains_path(self@.nodes, file_path@),
            },
    {
        match self.lookup(file_path) {
            Some(i) => Some(graph_node(&self.graph, i)),
            None => None,
        }
    }

    /// A copy of the file node with the path `file_path`.
    pub fn get_file_node(&self, file_path: &str) -> (r: Option<FileNode>)
        requires
            self.wf(),
        ensures
            match r {
                Some(n) => contains_path(self@.nodes, file_path@) && n@ == self@.nodes[index_of_path(
                    self@.nodes,
                    file_path@,
                )],
                None => !contains_path(self@.nodes, file_path@),
            },
    {
        match self.get_file(file_path) {
            Some(n) => Some(n.clone()),
            None => None,
        }
    }

    /// Whether the graph holds a file with the path `file_path`.
    pub fn contains_file(&self, file_path: &str) -> (r: bool)
        requires
            self.wf(),
        ensures
            r == contains_path(self@.nodes, file_path@),
    {
        self.lookup(file_path).is_some()
    }

    /// The index of the file with the path `file_path`.
    pub fn index_of(&self, file_path: &str) -> (r: Option<usize>)
        requires
            self.wf(),
        ensures
            match r {
                Some(i) => contains_path(self@.nodes, file_path@) && i == index_of_path(
                    self@.nodes,
                    file_path@,
                ) && i < self@.nodes.len(),
                None => !contains_path(self@.nodes, file_path@),
            },
    {
        self.lookup(file_path)
    }

    /// The file node at index `i`.
    pub fn file_at(&self, i: usize) -> (r: &FileNode)
        requires
            self.wf(),
            i < self@.nodes.len(),
        ensures
            r@ == self@.nodes[i as int],
    {
        graph_node(&self.graph, i)
    }

    /// All files of the graph, in the order in which they were added.
    pub fn all_files(&self) -> (r: Vec<FileNode>)
        requires
            self.wf(),
        ensures
            node_views(r@) == self@.nodes,
    {
        let n = graph_node_count(&self.graph);
        let mut out: Vec<FileNode> = Vec::new();
        let mut i: usize = 0;
        while i < n
            invariant
                i <= n,
                n == self@.nodes.len(),
                self.wf(),
                out.len() == i,
                forall|k: int| 0 <= k < i ==> out@[k]@ == self@.nodes[k],
            decreases n - i,
        {
            out.push(graph_node(&self.graph, i).clone());
            i += 1;
        }
        assert(node_views(out@) =~= self@.nodes);
        out
    }

    /// Whether the graph has a circular dependency.
    pub fn has_cycles(&self) -> (r: bool)
        ensures
            r == has_cycle(self@.edges),
    {
        graph_is_cyclic(&self.graph)
    }

    /// The files in a topological order: each file before the files that
    /// it imports. A graph with a circular dependency has no such order.
    pub fn topological_sort(&self) -> (r: Result<Vec<FileNode>, DependencyGraphError>)
        requires
            self.wf(),
        ensures
            match r {
                Ok(files) => !has_cycle(self@.edges) && exists|order: Seq<int>|
                    #[trigger] is_topological_order(order, self@.nodes.len() as int, self@.edges)
                        && node_views(files@) == Seq::new(
                        self@.nodes.len(),
                        |i: int| self@.nodes[order[i]],
                    ),
                Err(DependencyGraphError::CircularDependency) => has_cycle(self@.edges),
                Err(_) => false,
            },
    {
        let order = match graph_toposort(&self.graph) {
            Some(order) => order,
            None => {
                return Err(DependencyGraphError::CircularDependency);
            },
        };
        let ghost places = indices(order@);
        let mut files: Vec<FileNode> = Vec::new();
        let mut i: usize = 0;
        while i < order.len()
            invariant
                i <= order.len(),
                self.wf(),
                places == indices(order@),
                is_topological_order(places, self@.nodes.len() as int, self@.edges),
                files.len() == i,
                forall|k: int| 0 <= k < i ==> files@[k]@ == self@.nodes[places[k]],
            decreases order.len() - i,
        {
            assert(places[i as int] == order@[i as int] as int);
            files.push(graph_node(&self.graph, order[i]).clone());
            i += 1;
        }
        assert(node_views(files@) =~= Seq::new(
            self@.nodes.len(),
            |i: int| self@.nodes[places[i]],
        ));
        Ok(files)
    }

    /// Replaces the import text of the dependency from one file on
    /// another: of several such dependencies, that of the one added last.
    pub fn update_import_statement(
        &mut self,
        from_file: &str,
        to_file: &str,
        new_import_statement: String,
    ) -> (r: Result<(), DependencyGraphError>)
        requires
            old(self).wf(),
        ensures
            final(self).wf(),
            final(self)@.nodes == old(self)@.nodes,
            ({
                let g = old(self)@;
                let from = index_of_path(g.nodes, from_file@);
                let to = index_of_path(g.nodes, to_file@);
                let found = last_edge_between(g.edges, from, to, g.edges.len() as int);
                match r {
                    Ok(_) => {
                        &&& contains_path(g.nodes, from_file@)
                        &&& contains_path(g.nodes, to_file@)
                        &&& found matches Some(e)
                        &&& final(self)@.edges == g.edges.update(
                            e,
                            EdgeView { from, to, import_statement: new_import_statement@ },
                        )
                    },
                    Err(DependencyGraphError::SourceFileNotFound(p)) => !contains_path(
                        g.nodes,
                        from_file@,
                    ) && p@ == from_file@ && final(self)@ == g,
                    Err(DependencyGraphError::TargetFileNotFound(p)) => contains_path(
                        g.nodes,
                        from_file@,
                    ) && !contains_path(g.nodes, to_file@) && p@ == to_file@ && final(self)@ == g,
                    Err(DependencyGraphError::EdgeNotFound(a, b)) => contains_path(
                        g.nodes,
                        from_file@,
                    ) && contains_path(g.nodes, to_file@) && found is None && a@ == from_file@
                        && b@ == to_file@ && final(self)@ == g,
                    Err(_) => false,
                }
            }),
    {
        let from_idx = match self.lookup(from_file) {
            Some(i) => i,
            None => {
                return Err(DependencyGraphError::SourceFileNotFound(from_chars(&to_chars(from_file))));
            },
        };
        let to_idx = match self.lookup(to_file) {
            Some(i) => i,
            None => {
                return Err(DependencyGraphError::TargetFileNotFound(from_chars(&to_chars(to_file))));
            },
        };
        match graph_find_edge(&self.graph, from_idx, to_idx) {
            Some(e) => {
                proof {
                    lemma_last_edge_between(
                        graph_edges(self.graph),
                        from_idx as int,
                        to_idx as int,
                        graph_edges(self.graph).len() as int,
                    );
                }
                graph_set_edge_text(&mut self.graph, e, new_import_statement);
                Ok(())
            },
            None => Err(
                DependencyGraphError::EdgeNotFound(
                    from_chars(&to_chars(from_file)),
                    from_chars(&to_chars(to_file)),
                ),
            ),
        }
    }

    /// The number of files in the graph.
    pub fn file_count(&self) -> (r: usize)
        ensures
            r == self@.nodes.len(),
    {
        graph_node_count(&self.graph)
    }

    /// The number of dependencies in the graph.
    pub fn dependency_count(&self) -> (r: usize)
        ensures
            r == self@.edges.len(),
    {
        graph_edge_count(&self.graph)
    }

    /// The outgoing dependencies of a file, each as the target's path and
    /// the import text, the one added last first.
    pub fn get_file_dependencies(&self, file_path: &str) -> (r: Result<
        Vec<(String, String)>,
        DependencyGraphError,
    >)
        requires
            self.wf(),
        ensures
            match r {
                Ok(deps) => contains_path(self@.nodes, file_path@) && string_pairs(deps@)
                    == dependencies_of(self@, index_of_path(self@.nodes, file_path@)),
                Err(DependencyGraphError::FileNotFound(p)) => !contains_path(
                    self@.nodes,
                    file_path@,
                ) && p@ == file_path@,
                Err(_) => false,
            },
    {
        let idx = match self.lookup(file_path) {
            Some(i) => i,
            None => {
                return Err(DependencyGraphError::FileNotFound(from_chars(&to_chars(file_path))));
            },
        };
        let edges = graph_out_edges(&self.graph, idx);
        let ghost out = out_edges(self@.edges, idx as int);
        proof {
            self.lemma_wf();
            lemma_out_edges_in_range(self@, idx as int, self@.edges.len() as int);
            assert(edge_pairs(edges@).len() == edges@.len());
        }
        let mut deps: Vec<(String, String)> = Vec::new();
        let mut k: usize = 0;
        while k < edges.len()
            invariant
                k <= edges.len(),
                self.wf(),
                edge_pairs(edges@) == out,
                out == out_edges(self@.edges, idx as int),
                forall|j: int| 0 <= j < out.len() ==> 0 <= (#[trigger] out[j]).0 < self@.nodes.len(),
                deps.len() == k,
                forall|j: int|
                    0 <= j < k ==> (#[trigger] deps@[j]).0@ == self@.nodes[out[j].0].path
                        && deps@[j].1@ == out[j].1,
            decreases edges.len() - k,
        {
            assert(edge_pairs(edges@)[k as int] == (edges@[k as int].0 as int, edges@[k as int].1@));
            let target = graph_node(&self.graph, edges[k].0);
            deps.push((target.path.clone(), edges[k].1.clone()));
            k += 1;
        }
        assert(string_pairs(deps@) =~= dependencies_of(self@, idx as int));
        Ok(deps)
    }

    /// The replacement map for the imports of the file `query_path`, as
    /// seen from the place of the file `relative_from_path`: each import
    /// text whose target is written is mapped to the relative path from that
    /// place to the target's place; of two edges with one import text, the
    /// one added first decides.
    pub fn get_dependencies_and_relative_paths(
        &self,
        query_path: &str,
        relative_from_path: &str,
    ) -> (r: Result<ReplacementMap, DependencyGraphError>)
        requires
            self.wf(),
        ensures
            match r {
                Ok(m) => {
                    let from = self@.nodes[index_of_path(self@.nodes, relative_from_path@)];
                    &&& contains_path(self@.nodes, relative_from_path@)
                    &&& contains_path(self@.nodes, query_path@)
                    &&& dist_path(from) is Some
                    &&& m@ == replacements_of(
                        self@,
                        index_of_path(self@.nodes, query_path@),
                        dist_path(from)->0,
                    )
                },
                Err(DependencyGraphError::FileNotFound(p)) => {
                    let from = self@.nodes[index_of_path(self@.nodes, relative_from_path@)];
                    if contains_path(self@.nodes, relative_from_path@) && dist_path(from) is Some {
                        !contains_path(self@.nodes, query_path@) && p@ == query_path@
                    } else {
                        p@ == relative_from_path@
                    }
                },
                Err(_) => false,
            },
    {
        let from_dist = match self.get_file(relative_from_path) {
            Some(node) => match node.get_dist_path() {
                Some(d) => d,
                None => {
                    return Err(
                        DependencyGraphError::FileNotFound(
                            from_chars(&to_chars(relative_from_path)),
                        ),
                    );
                },
            },
            None => {
                return Err(
                    DependencyGraphError::FileNotFound(from_chars(&to_chars(relative_from_path))),
                );
            },
        };
        let idx = match self.lookup(query_path) {
            Some(i) => i,
            None => {
                return Err(DependencyGraphError::FileNotFound(from_chars(&to_chars(query_path))));
            },
        };
        let edges = graph_out_edges(&self.graph, idx);
        let ghost out = out_edges(self@.edges, idx as int);
        proof {
            self.lemma_wf();
            lemma_out_edges_in_range(self@, idx as int, self@.edges.len() as int);
            assert(edge_pairs(edges@).len() == edges@.len());
        }
        let mut replacements = ReplacementMap::new();
        let mut k: usize = 0;
        while k < edges.len()
            invariant
                k <= edges.len(),
                self.wf(),
                edge_pairs(edges@) == out,
                out == out_edges(self@.edges, idx as int),
                forall|j: int| 0 <= j < out.len() ==> 0 <= (#[trigger] out[j]).0 < self@.nodes.len(),
                replacements@ == replacements_upto(self@, from_dist@, out, k as int),
            decreases edges.len() - k,
        {
            assert(edge_pairs(edges@)[k as int] == (edges@[k as int].0 as int, edges@[k as int].1@));
            let target = graph_node(&self.graph, edges[k].0);
            if let Some(target_dist) = target.get_dist_path() {
                let relative = compute_relative_path(from_dist.as_str(), target_dist.as_str());
                replacements.insert(edges[k].1.clone(), relative);
            }
            k += 1;
        }
        Ok(replacements)
    }

    /// The replacement map for the imports of a file, as seen from its own
    /// place in the output.
    pub fn get_import_replacements(&self, file_path: &str) -> (r: Result<
        ReplacementMap,
        DependencyGraphError,
    >)
        requires
            self.wf(),
        ensures
            match r {
                Ok(m) => {
                    let i = index_of_path(self@.nodes, file_path@);
                    &&& contains_path(self@.nodes, file_path@)
                    &&& dist_path(self@.nodes[i]) is Some
                    &&& m@ == replacements_of(self@, i, dist_path(self@.nodes[i])->0)
                },
                Err(DependencyGraphError::FileNotFound(p)) => p@ == file_path@ && (!contains_path(
                    self@.nodes,
                    file_path@,
                ) || dist_path(self@.nodes[index_of_path(self@.nodes, file_path@)]) is None),
                Err(_) => false,
            },
    {
        self.get_dependencies_and_relative_paths(file_path, file_path)
    }

    /// The imports of a file whose targets are omitted from the output,
    /// each as the import text and the target's path: the stylesheets to
    /// be inlined. Empty for a file that the graph does not hold.
    pub fn get_omitted_imports(&self, path: &str) -> (r: Vec<(String, String)>)
        requires
            self.wf(),
        ensures
            string_pairs(r@) == if contains_path(self@.nodes, path@) {
                omitted_of(self@, index_of_path(self@.nodes, path@))
            } else {
                Seq::empty()
            },
    {
        let mut found: Vec<(String, String)> = Vec::new();
        let idx = match self.lookup(path) {
            Some(i) => i,
            None => {
                assert(string_pairs(found@) =~= Seq::empty());
                return found;
            },
        };
        let edges = graph_out_edges(&self.graph, idx);
        let ghost out = out_edges(self@.edges, idx as int);
        proof {
            self.lemma_wf();
            lemma_out_edges_in_range(self@, idx as int, self@.edges.len() as int);
            assert(edge_pairs(edges@).len() == edges@.len());
            assert(string_pairs(found@) =~= Seq::empty());
        }
        let mut k: usize = 0;
        while k < edges.len()
            invariant
                k <= edges.len(),
                self.wf(),
                edge_pairs(edges@) == out,
                out == out_edges(self@.edges, idx as int),
                forall|j: int| 0 <= j < out.len() ==> 0 <= (#[trigger] out[j]).0 < self@.nodes.len(),
                string_pairs(found@) == omitted_upto(self@, out, k as int),
            decreases edges.len() - k,
        {
            assert(edge_pairs(edges@)[k as int] == (edges@[k as int].0 as int, edges@[k as int].1@));
            let target = graph_node(&self.graph, edges[k].0);
            if matches!(target.target_location, TargetLocation::Omit) {
                let ghost before = string_pairs(found@);
                found.push((edges[k].1.clone(), target.path.clone()));
                assert(string_pairs(found@) =~= before.push((out[k as int].1, target@.path)));
            }
            k += 1;
        }
        found
    }
}

} // verus!
