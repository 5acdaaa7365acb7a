//! A terminal-resident process supervisor core: spawning child processes on
//! pseudo-terminals, draining their output into a VT100 screen buffer with
//! scrollback, and tearing process groups down safely.

pub mod browser;
pub mod config;
pub mod detector;
pub mod handle;
pub mod lsof;
pub mod manager;
pub mod ports;
pub mod pty;
pub mod screen;
pub mod signal;
pub mod strutil;
pub mod types;
pub mod ui;
pub mod vt;
