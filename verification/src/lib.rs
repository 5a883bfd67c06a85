//! Timmy's News: the verified core of a terminal RSS/Atom news reader.
//!
//! The library holds the feed parser, the article cache model, the
//! refresh scheduler, the line-oriented command protocol, the key decoder
//! and the state machine of the terminal interface. Terminal, network and
//! database I/O stand outside it.

pub mod text;
pub mod config;
pub mod datetime;
pub mod xml;
pub mod feed;
pub mod cache;
pub mod cli;
pub mod backend;
pub mod input;
pub mod tui;
pub mod views;
pub mod log;
pub mod laws;
