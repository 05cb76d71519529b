//! Settings that steer how translations are loaded and merged.

pub mod config;
