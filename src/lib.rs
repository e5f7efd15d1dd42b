//! Decision logic of a small directory provisioner: it checks a base
//! directory, optionally clears it after confirmation, and creates a list of
//! child directories in it. Every filesystem and console effect is carried
//! out by the caller; this library decides which effect comes next.

pub mod answer;
pub mod lemmas;
pub mod naming;
pub mod provision;
