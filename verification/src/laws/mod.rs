//! What holds of the library as a whole: for each of the things that it does, how what comes out relates
//! to what went in.
pub mod accounts;
pub mod commands;
pub mod files;
pub mod filters;
pub mod identity;
pub mod live;
pub mod messages;
pub mod plugins;
pub mod printing;
pub mod quotas;
pub mod records;
pub mod screen;
pub mod shell;
pub mod switching;
pub mod texts;
pub mod usage;
pub mod views;
