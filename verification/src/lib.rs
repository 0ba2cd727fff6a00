//! A verified core for a "where shall we eat" chat-bot: conversation
//! identities are mapped to storage partition keys ("jars"), user intents
//! are decoded from postback payloads, and a per-jar document store model
//! carries the place catalog, per-meal membership sets, coordinates and
//! the single current-draw slot through the draw / postpone / delete /
//! archive operations.

pub mod client;
pub mod coordinates;
pub mod dispatch;
pub mod jar;
pub mod laws;
pub mod meal;
pub mod migrate;
pub mod message;
pub mod store;
pub mod strutil;
pub mod user_action;
pub mod webhook;
