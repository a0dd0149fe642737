//! Memoization of a computation behind a declarative configuration.
//!
//! A [`config::Config`] is resolved once into a [`config::Plan`]: one cache
//! backend, one way of deriving the cache key and one policy for the outputs
//! that are stored. From the plan comes a wrapper that serves calls from its
//! cache and runs the computation only on a miss: [`memo::Memo`] for one
//! owner, [`shared::Shared`] for many callers at once.
//!
//! - [`config`]: the configuration, its resolution and the plan.
//! - [`key`]: the key deriver.
//! - [`outcome`]: the result filter.
//! - [`cache`]: the cache backend under its three eviction disciplines.
//! - [`clock`]: the seconds by which a time-bounded cache judges its entries.
//! - [`memo`]: the protocol of a call, for one owner.
//! - [`shared`]: the same protocol behind a lock, on an instance made on
//!   first use.
//! - [`laws`]: what holds of all of these, proved.

pub mod cache;
pub mod clock;
pub mod config;
pub mod key;
pub mod laws;
pub mod memo;
pub mod outcome;
pub mod shared;

pub use shared::cached;
