//! Metadata extensions: MIME types, routing tags and composite metadata.

pub mod mime;
pub mod routing;
pub mod composite;

pub use composite::{CompositeMetadata, CompositeMetadataBuilder, CompositeMetadataEntry};
pub use mime::MimeType;
pub use routing::{RoutingMetadata, RoutingMetadataBuilder};
