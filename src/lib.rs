//! Authenticated webhook ingestion and real-time fan-out for a game-tracking
//! service: signature and token checks, the mapping of issue-tracker
//! events into game mutations, a game store, and a broker that delivers
//! notifications to live subscriber connections.

pub mod hexcode;
pub mod digest;
pub mod text;
pub mod auth;
pub mod store;
pub mod broker;
pub mod webhook;
pub mod session;
