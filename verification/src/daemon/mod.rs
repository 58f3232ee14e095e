//! The daemon: an HTTP API in front of a browser extension.
pub mod api;
pub mod bridge;
pub mod command;
pub mod config;
pub mod config_laws;
pub mod defaults;
pub mod error;
pub mod job_calls;
pub mod job_table;
pub mod jobs;
pub mod loading;
pub mod messages;
pub mod model;
pub mod pending_job;
pub mod request_laws;
pub mod scheduler_runs;
pub mod secrets;
pub mod service_laws;
pub mod session;
pub mod settings;
pub mod settings_file;
pub mod state;
pub mod token;
pub mod validation;

pub use crate::daemon::state::AppState;
