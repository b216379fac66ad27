//! The payloads that applications send and receive: data and metadata,
//! and the payload of a connection's SETUP.

pub mod misc;
pub mod normal;
pub mod setup;

pub use normal::{Payload, PayloadBuilder};
pub use setup::{SetupPayload, SetupPayloadBuilder};
