//! Account bookkeeping for a command-line tool that switches between saved
//! ChatGPT OAuth logins of the Codex CLI.

pub mod text;
pub mod timestamp;
pub mod format;
pub mod json;
pub mod encoding;
pub mod auth;
pub mod usage;
pub mod order;
pub mod local;
pub mod registry;
pub mod storage;
pub mod select;
pub mod rows;
pub mod commands;
pub mod cli;
