//! The line processors that a command's output can pass through.
pub mod openai;
pub mod prefix;
