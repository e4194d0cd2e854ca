//! A library for browsing a git history and its GitHub issues and gists in a terminal:
//! text with ANSI colour codes, dates, lane layout of the commit graph, filters,
//! and the key-driven state of the views.
use vstd::prelude::*;

pub mod text;
pub mod ansi;
pub mod styled;
pub mod date;
pub mod remote;
pub mod graph;
pub mod pattern;
pub mod state;
pub mod issues;
pub mod render;
pub mod sidebar;
pub mod nav;
pub mod keys;
pub mod gists;
pub mod issue_keys;
pub mod view_keys;
pub mod dispatch;
pub mod report;
pub mod issue_views;
pub mod issue_flow;
pub mod cli;
pub mod repos;
pub mod load;
pub mod project_json;
pub mod ui_text;
pub mod views;
