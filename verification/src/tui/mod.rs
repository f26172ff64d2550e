//! The full-screen view of the accounts: its state, how it answers to keys, and what it shows.
pub mod details;
pub mod news;
pub mod piece;
pub mod screen;
pub mod tables;
