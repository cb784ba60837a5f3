//! The requests that the server answers.

pub mod auth;
pub mod cursor;
pub mod favorites;
pub mod fetch;
pub mod health;
pub mod search;
pub mod tags;
pub mod upload;
