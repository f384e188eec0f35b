//! What a rule finds, and what a project says about it.

pub mod ignore;
pub mod ruleset;
