//! Harvesting, verifying and filtering of public proxy endpoints.
//!
//! The crate holds the decisions of the pipeline: how a listing is decoded,
//! which candidates are worth a verification, what a verification proves,
//! how long its outcome is remembered and which proxies are handed out.
//! Network traffic, timers and task scheduling belong to the caller.

pub mod address;
pub mod cache;
pub mod configuration;
pub mod filter;
pub mod provider;
pub mod providers;
pub mod proxy;
pub mod proxy_generator;
pub mod text;
pub mod time;
pub mod verification;

pub use proxy_generator::ProxyGenerator;
