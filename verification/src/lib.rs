//! Verified core of the UMBRA agent system: caches, diagnostics, text
//! extraction, conversation threads and the decision rules behind the
//! HTTP and desktop front ends.

pub mod agent_personality;
pub mod ai_client;
pub mod api;
pub mod audio;
pub mod auth;
pub mod bounded;
pub mod bridge;
pub mod browser;
pub mod cache;
mod clock;
pub mod config;
pub mod customization;
pub mod debugger;
pub mod desktop;
pub mod discovery;
pub mod emotion;
pub mod providers;
mod random;
pub mod security;
pub mod settings;
pub mod setup;
pub mod text;
pub mod vault;
