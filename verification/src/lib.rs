//! A small on-chain song repository: it records authored items, counts them,
//! groups them by author in insertion order, and keeps a fixed-capacity
//! "recently added" buffer whose slots are chosen by an external monotonic
//! counter taken modulo the capacity.

pub mod contract;
mod host;
pub mod model;
pub mod repository;
pub mod song;
