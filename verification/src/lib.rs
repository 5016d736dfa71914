//! A chat-bot command framework: routing of chat lines to command handlers,
//! the commands themselves, and the bookkeeping for hot-reloaded plugins.
//!
//! The library performs no input or output. Handlers answer with scripts of
//! [`dispatch::Action`]s; whoever owns the connection, the store and the
//! posting service performs them and reports back.

pub mod clock;
pub mod cmd;
pub mod config;
pub mod dispatch;
pub mod error;
pub mod models;
pub mod plugin;
pub mod text;
