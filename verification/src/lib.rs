//! Verified core of a small ticket-tracking web service: the ticket store,
//! the credential and bearer-token rules of its authentication endpoints,
//! the mapping of errors to HTTP replies, and the server's settings.

pub mod error;
pub mod model;
pub mod ticket_id;
pub mod auth;
pub mod config;

pub use error::{Error, Result};
