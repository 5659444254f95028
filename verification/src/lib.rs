//! Core of a terminal dashboard for a note-taking tool: navigable lists of
//! books and pages, the shared state the panes work on, the parsing of the
//! tool's line-oriented output, key-chord resolution and action dispatch.

pub mod mode;
pub mod text;
pub mod dnote;
pub mod action;
pub mod list;
pub mod state;
pub mod keys;
pub mod components;
pub mod dispatch;
