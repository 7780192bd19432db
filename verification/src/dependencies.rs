//! Dependency extraction: what a stylesheet or a script refers to.

pub mod css;
pub mod js;
