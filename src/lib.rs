//! Lobby resolution for a multiplayer matchmaker: game mode and region
//! selection, the auto-create fallback, the typed outcome of a find request,
//! port translation into join endpoints and the lobby listing filter. Also the
//! service environment settings and a few build tooling helpers.

pub mod text;
pub mod protocol;
pub mod error;
pub mod ports;
pub mod selection;
pub mod find;
pub mod listing;
pub mod dev;
pub mod env;
pub mod cloudflare;
pub mod source_tree;
pub mod find_flow;
