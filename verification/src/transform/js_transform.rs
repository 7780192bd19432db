//! The passes over a script, each as the decisions it takes at the nodes
//! of the syntax tree.

pub mod css_inline_transform;
pub mod icon_template_import;
pub mod import_css_transform;
pub mod url_transform;
