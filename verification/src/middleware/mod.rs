//! What stands before the handlers.

pub mod auth;
