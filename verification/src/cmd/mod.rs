//! The commands of the program.
pub mod accounts;
pub mod choice;
pub mod init;
pub mod live;
pub mod login;
pub mod pick;
pub mod plugins;
pub mod print;
pub mod probe;
pub mod project;
pub mod prompt;
pub mod scope;
pub mod session;
pub mod shell;
pub mod usage;
