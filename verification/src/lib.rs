//! A linter for Traditional Chinese prose: the command line, the plan of a
//! run, the scan cache, the reports, and the framing of its MCP server.

pub mod batch;
pub mod cache;
pub mod cli;
pub mod convert;
pub mod files;
pub mod json;
pub mod lint;
pub mod lint_args;
pub mod manage;
pub mod mcp;
pub mod pipeline;
pub mod plan;
pub mod report;
pub mod rules;
pub mod scan;
pub mod text;
