//! Verified core of a browser-backed search service: the daemon that schedules searches onto a
//! browser extension, and the command line client that pages through its results.
pub mod cli;
pub mod daemon;
pub mod ordered_map;
pub mod text;
pub mod unique_id;
pub mod web_address;
