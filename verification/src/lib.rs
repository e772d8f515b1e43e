//! Keeps a set of Pi-hole instances, the secondaries, in line with one main
//! instance: the rules of the synchronisation engine, each with its contract.
//!
//! The library decides and computes; it neither waits nor reads nor sends.
//! A program around it performs the requests that the library describes and
//! hands the answers back.

pub mod cli;
pub mod config;
pub mod config_filter;
pub mod constants;
pub mod error;
pub mod json;
pub mod order;
pub mod path;
pub mod pihole;
pub mod sync;
