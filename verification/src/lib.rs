//! Topic channels of a websocket service.
//!
//! A [`channel::Channel`] knows the clients that are subscribed to one
//! [`topic::Topic`]. At every block it begins a [`round::Round`], which reads
//! from a cache what is new on the topic and says what to publish. The library
//! decides; connections, cache commands and deliveries are left to its caller.

pub mod account;
pub mod cache;
pub mod cache_map;
pub mod channel;
pub mod channel_laws;
pub mod decimal;
pub mod message;
pub mod model_laws;
pub mod report_laws;
pub mod round;
pub mod round_laws;
pub mod rules;
pub mod topic;
