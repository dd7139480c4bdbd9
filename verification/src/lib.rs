//! Core engine of a group-based restaurant-rating service.
//!
//! Users join groups and rate restaurants once per calendar quarter.  The
//! engine buckets ratings into quarters, decides when a group's rating round
//! for a restaurant is complete, deduplicates the completion notification per
//! quarter, and aggregates per-period averages.  The relational store is
//! modelled by [`store::Store`]; the surrounding HTTP, database and push
//! plumbing lives outside this crate and talks to it through plain values.

pub mod aggregate;
pub mod clock;
pub mod complete;
pub mod errors;
pub mod groups;
pub mod history;
pub mod ids;
pub mod ips;
pub mod models;
pub mod period;
pub mod push;
pub mod queries;
pub mod ratings;
pub mod restaurants;
pub mod store;
pub mod text;
pub mod users;
