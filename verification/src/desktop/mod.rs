//! The desktop assistant: its screens and the decisions behind them.

pub mod chat;
pub mod screen;
pub mod sidebar;

pub use screen::{State, View};
