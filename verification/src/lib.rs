pub mod auth;
pub mod base64url;
pub mod config;
pub mod error;
pub mod middleware;
pub mod models;
pub mod number;
pub mod router;
pub mod routes;
pub mod storage;
pub mod text;
