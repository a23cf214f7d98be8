//! What the engine knows of each outside service: the shape of its answers
//! and how an answer becomes a status.

pub mod copilot_cli;
pub mod github_actions;
pub mod github_pr;
pub mod opencode;
pub mod slack;
pub mod url_parser;
