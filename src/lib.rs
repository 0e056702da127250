//! Session model of an interactive graph viewer: navigable lists, a tab
//! stack, prefix completion, incremental search and the mode / focus state
//! machine that routes each key to one handler.

pub mod list;
pub mod error;
pub mod tabs;
pub mod table;
pub mod text;
pub mod graph;
pub mod trie;
pub mod search;
pub mod view;
pub mod input;
pub mod command;
pub mod app;
