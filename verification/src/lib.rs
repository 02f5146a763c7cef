//! Activities for the jiji compositor: the rules behind the command-line tool.

pub mod assign_workspace;
pub mod cli;
pub mod completions;
pub mod config_document;
pub mod config_scan;
pub mod create;
pub mod error;
pub mod flow;
pub mod follow;
pub mod ipc;
pub mod ipc_helpers;
pub mod laws;
pub mod laws_of_lists;
pub mod laws_of_moves;
pub mod list;
pub mod move_window;
pub mod move_workspace;
pub mod order;
pub mod picker;
pub mod remove;
pub mod rename;
pub mod resume;
pub mod save;
pub mod search;
pub mod switch;
pub mod switch_previous;
pub mod text;
