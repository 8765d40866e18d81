//! A bridge between an application's internal event model and a
//! publish/subscribe message broker: backoff-governed connecting, a
//! bounded-mailbox publisher actor serializing envelopes onto one
//! connection, and a subscriber loop decoding raw messages into typed
//! events.

pub mod backoff;
pub mod envelope;
pub mod errors;
pub mod handler;
pub mod json;
pub mod model;
pub mod payload;
pub mod publisher;
pub mod settings;
pub mod stamp;
pub mod subscriber;
