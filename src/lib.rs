//! A task runner's engine: named shell commands, selected by tag, run one
//! after the other, side by side, or in the panes of a tmux session, with
//! their output passed line by line through a chain of processors.
pub mod cli;
pub mod config;
pub mod error;
pub mod executor;
pub mod literate;
pub mod paths;
pub mod pipeline;
pub mod processors;
pub mod runner;
pub mod shell;
pub mod text;
pub mod tmux;
pub mod workbench;
