//! Mycelix agentic orchestrator: provider routing strategies (fallback,
//! round-robin, fusion), the persisted application state, configuration and
//! the wire-level helpers of the HTTP front end, as verified logic.

pub mod text;
pub mod types;
pub mod orchestrator;
pub mod mock;
pub mod state;
pub mod config;
pub mod logbuf;
pub mod openai;
pub mod server;
pub mod ui;
