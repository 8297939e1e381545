//! The HTTP API: what is asked of it, and what its answers mean.

pub mod auth;
pub mod client;
pub mod error;
pub mod laws;
pub mod marketplace;
pub mod overview;
pub mod request;
pub mod session;
pub mod teams;
pub mod users;
