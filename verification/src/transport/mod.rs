//! What a connection does with frames beyond encoding them: cutting large
//! payloads into fragments and joining them back, numbering streams, and
//! deciding how to answer each frame that arrives.

pub mod fragmentation;
pub mod misc;
pub mod codec;
pub mod duplex;
pub mod socket;
pub mod laws;
