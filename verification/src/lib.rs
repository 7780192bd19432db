//! Extraction of web components from a host source tree: manifest reading,
//! URL resolution, dependency graph construction and the decisions behind the
//! rewriting of JavaScript and CSS sources.

pub mod config;
pub mod dependencies;
pub mod dependency_graph;
pub mod errors;
pub mod graph_builder;
pub mod output_writer;
pub mod patterns;
pub mod replacements;
pub mod text;
pub mod transform;
pub mod utils;
