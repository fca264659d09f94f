//! Relay selection by the location of two peers.
//!
//! A configuration document arrives through a [`handoff`], is brought to its
//! normal form by [`runtime_config`], and puts Geo rules in force.
//! [`geo_relay`] looks the two peers up in the databases and has the rules
//! select a relay. [`laws`] states what holds of all this together.
pub mod checksum;
pub mod facts;
pub mod files;
pub mod geo_relay;
pub mod handoff;
pub mod laws;
pub mod mmdb;
pub mod names;
pub mod rules;
pub mod runtime_config;
pub mod text;
