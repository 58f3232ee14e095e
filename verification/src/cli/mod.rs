//! The command line client: it asks the daemon for pages of results and merges them.
pub mod args;
pub mod client;
pub mod environment;
pub mod error;
pub mod laws;
pub mod model;
pub mod pages;
pub mod results;

pub use crate::cli::args::Cli;
pub use crate::cli::environment::Environment;
pub use crate::cli::error::CliError;
pub use crate::cli::results::SearchResult;
