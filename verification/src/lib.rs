//! Finds, for every entry of a git tree, the commit that last set its content.

pub mod git;
pub mod oid;
pub mod model;
pub mod search;
pub mod history;
pub mod text;
