//! Account switching for command line tools.
pub mod text;
pub mod text_map;
pub mod json;
pub mod path;
pub mod plugin;
pub mod paths;
pub mod identity;
pub mod time;
pub mod registry;
pub mod store;
pub mod switch;
pub mod account;
pub mod session;
pub mod usage;
pub mod quota;
pub mod claude;
pub mod pattern;
pub mod codex;
pub mod gemini;
pub mod cmd;
pub mod tui;
pub mod laws;
