//! The decisions behind the rewriting of stylesheets and scripts.

pub mod css;
pub mod js;
pub mod js_transform;
