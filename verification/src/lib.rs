//! Capability-mode routing between a weak and a strong model tier.
//!
//! A judge decides for each chat request which tier serves it, unless the
//! session's floor already answers. The library holds every decision of that
//! process; reading sockets, the clock and the environment is left to its caller.
//!
//! - [`config`]: tiers, modes and the validated configuration
//! - [`session`]: the key that tells conversations apart
//! - [`store`], [`store_laws`]: remembered tiers, with idle time and capacity
//! - [`failure`], [`error`]: what failed and what a failure turns into
//! - [`endpoint`], [`judge`]: where the judge is, and how it is asked
//! - [`body`], [`route`], [`route_laws`]: one routing turn, and turns in a row
//! - [`json`], [`headers`], [`uri`], [`text`]: the values that all of it works on

pub mod body;
pub mod config;
pub mod endpoint;
pub mod error;
pub mod failure;
pub mod headers;
pub mod json;
pub mod judge;
pub mod route;
pub mod route_laws;
pub mod session;
pub mod store;
pub mod store_laws;
pub mod text;
pub mod uri;
