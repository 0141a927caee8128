//! Routing, scoring and protocol logic of the routerd model router.
pub mod text;
pub mod num;
pub mod error;
pub mod models;
pub mod telemetry;
pub mod scoring;
pub mod router;
pub mod ctl;
pub mod laws;
pub mod behaviour;
pub mod varlink;
pub mod config;
pub mod adapters;
pub mod credentials;
pub mod notify;
pub mod rss;
pub mod gateway;
pub mod activation;
pub mod setup;
pub mod setup_steps;
pub mod probe;
pub mod cli;
pub mod daemon;
