//! A line-oriented chat server core: backspace handling, in-band command
//! classification, the user registry, per-connection session decisions and
//! transcript handling, all with verified contracts.

pub mod text;

pub mod cli;
pub mod commands;
pub mod dedupe;
pub mod registry;
pub mod sanitize;
pub mod session;
pub mod transcript;
