//! Core of a multi-tenant URL shortener: tenant-scoped API-key
//! authentication with constant-time key comparison, and the
//! slug-assignment logic for creating short links, including the
//! bounded retry on slug collisions.
//!
//! The pieces, in dependency order: [`ct`] compares keys in constant
//! time; [`auth`] resolves a request's credentials against the key
//! bindings that [`keystore`] builds from the configuration in
//! [`models`] and [`config`]; [`slug`] generates random hexadecimal
//! slugs; [`store`] models the persisted link rows; [`links`] runs
//! creation and listing on top of it; [`query`], [`builders`] and
//! [`metrics`] carry the smaller client- and server-side helpers.

pub mod auth;
pub mod builders;
pub mod config;
pub mod ct;
pub mod keystore;
pub mod links;
pub mod metrics;
pub mod models;
pub mod query;
pub mod slug;
pub mod store;
pub mod strutil;
pub mod time;

pub use ct::constant_time_eq;
