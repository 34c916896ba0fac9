//! A streaming pager engine for line-oriented text such as git logs: a
//! growing line store, scroll arithmetic, commit-context extraction,
//! case-insensitive substring search, and the interaction state machine.

pub mod app;
pub mod context_finder;
pub mod error;
pub mod query;
pub mod search;
pub mod ui;
pub mod utils;
