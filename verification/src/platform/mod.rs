//! Platform integrations.

pub mod linux;
