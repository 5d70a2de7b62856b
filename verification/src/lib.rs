//! An in-memory string key-value store speaking a line-oriented wire
//! protocol of simple strings, errors, integers, bulk strings and arrays.
//!
//! The crate is organised leaf-first:
//! - [`wire`] holds the protocol value tree and its mathematical model;
//! - [`decimal`] holds verified decimal parsing and formatting;
//! - [`strutil`] holds small character-level string helpers;
//! - [`codec`] turns wire text into values and back, with round-trip proofs;
//! - [`ttl`] holds the expiration index, a priority queue seen through a
//!   trusted map-of-instants view;
//! - [`store`] holds the key/value map and the expiration index, with the
//!   sweep that evicts expired keys;
//! - [`engine`] validates and executes commands against the store, each
//!   proved equal to a pure transition on the store's two maps.
//!
//! Network plumbing, logging and the one floating-point command live with
//! the embedding program, which hands the library plain decoded values and
//! the current instant in milliseconds.

pub mod codec;
pub mod decimal;
pub mod engine;
pub mod store;
pub mod strutil;
pub mod ttl;
pub mod wire;
