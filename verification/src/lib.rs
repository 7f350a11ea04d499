//! Structural pattern matching over concrete syntax trees.
//!
//! A *pattern tree* may contain meta-variables (`$A`), anonymous wildcards
//! (`$_`) and ellipsis wildcards (`$$$`, `$$$A`); the matcher finds whether
//! and where such a pattern occurs inside a *candidate tree*, binding captured
//! nodes into an environment as it goes.

pub mod laws;
pub mod matcher;
pub mod meta_var;
pub mod node;
pub mod template;
