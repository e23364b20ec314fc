//! Builds release archives for a matrix of target platforms and publishes
//! them to distribution channels: a release on the source host, a formula in
//! a package-manager tap, the source registry, a shell installer, and an
//! update request against a flake repository.
//!
//! The library decides; it does not act. A release run is a state machine
//! ([`release::Release`]) that hands out one [`effect::Effect`] at a time: a
//! process to run, a file to look at, a request to send. Whoever drives it
//! performs the effect and hands back the [`effect::Event`] that tells how it
//! went. Every decision of the run is a function of the configuration and of
//! the events so far, and is proved to be the one its specification names.

pub mod channels;
pub mod config;
pub mod effect;
pub mod encoding;
pub mod error;
pub mod json;
pub mod paths;
pub mod pipeline;
pub mod platform;
pub mod publish;
pub mod release;
pub mod template;
pub mod text;
pub mod triage;
pub mod version;
