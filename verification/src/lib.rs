//! RSocket protocol library: frame codec, payloads, metadata extensions and
//! fragmentation, with their contracts proved by Verus.

pub mod buffer;
pub mod setup;
pub mod endian;
pub mod text;
pub mod utils;
pub mod error;
pub mod extension;
pub mod frame;
pub mod payload;
pub mod transport;

pub use payload::{Payload, PayloadBuilder, SetupPayload, SetupPayloadBuilder};
pub use setup::RSocketFactory;
