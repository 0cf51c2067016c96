//! Cloudflare zone ids.

pub mod base;
pub mod game;
pub mod job;
