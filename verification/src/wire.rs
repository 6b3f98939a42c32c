//! The schemas of the inter-process protocol, one module per version.

pub mod v0;
pub mod v1;
