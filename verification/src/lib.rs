//! A small templating engine for git status lines.
//!
//! A template is a string in which `{` opens a token: either a variable
//! placeholder such as `{branch}`, or a function call such as `{color(red)}`.
//! Parsing turns a template into a sequence of typed expression nodes, and
//! rendering evaluates those nodes against facts about a repository,
//! concatenating the results.

pub mod change_type;
pub mod color;
pub mod errors;
pub mod handlers;
pub mod laws;
pub mod numbers;
pub mod parser;
pub mod render;
pub mod status;
pub mod strutil;
