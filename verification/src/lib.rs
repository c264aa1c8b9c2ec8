//! A verified core for a single-route HTTP relay: it plans the outbound
//! request for an incoming call (checking Basic credentials), parses the
//! device's XML status response into a three-field record, and renders
//! that record as JSON.
//!
//! All I/O (the HTTP listener and the outbound client) lives outside this
//! library; the functions here are pure transformations with contracts.

pub mod json;
pub mod proxy;
pub mod record;
mod text;
pub mod xml;
