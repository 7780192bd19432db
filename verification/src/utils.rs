//! Paths, manifests and URL resolution.

pub mod file_utils;
pub mod includes;
pub mod jar_resolver;
pub mod normal_form;
pub mod path_finder;
pub mod paths;
