//! Decision logic of a small continuous-integration server: the repository
//! table, the report archive and its filters, the webhook and build
//! responses, and the timestamp codec.

pub mod cargo_build;
pub mod config;
pub mod database;
pub mod errors;
pub mod hooks;
pub mod post;
pub mod reports;
pub mod text;
pub mod timestamp;
