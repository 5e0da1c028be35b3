//! Client address service core: a reverse-name cache with expiry and a
//! fixed-window request limiter, with the small text helpers around them.
pub mod cache;
pub mod client;
mod clock;
pub mod config;
pub mod metrics;
pub mod models;
pub mod network;
pub mod rate_limit;
pub mod security;
pub mod table;
pub mod text;
pub mod time;
