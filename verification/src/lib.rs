//! Rules, matching and kernel-facing decisions of the arbiter process priority manager.

pub mod app;
pub mod applier;
pub mod cli;
pub mod config;
pub mod daemon;
pub mod laws;
pub mod numbers;
pub mod order;
pub mod platform;
pub mod rules;
pub mod text;
