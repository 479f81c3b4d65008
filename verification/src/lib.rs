//! eqtune: the control logic of a system-wide audio equalizer.

pub mod cli;
pub mod config;
pub mod control;
pub mod daemon;
pub mod dsp;
pub mod effects;
pub mod error;
pub mod gap;
pub mod ipc;
pub mod launchd;
pub mod laws;
pub mod library;
pub mod number;
pub mod paths;
pub mod preset;
pub mod prompt;
pub mod recovery;
pub mod restart;
pub mod state;
pub mod sys;
pub mod text;
pub mod tuning;
