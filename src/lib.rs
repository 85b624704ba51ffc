//! Tagged notification broker: routing tags and their wire addresses, a
//! subscription registry with bounded per-subscriber queues and the delivery
//! rules over it, scoped sender tokens, and the checks the gateway's
//! notification endpoints apply before and after their collaborator calls.

pub mod auth;
pub mod config;
pub mod decimal;
pub mod error;
pub mod events;
pub mod notification;
pub mod registry;
pub mod request;
pub mod response;
pub mod token;
