//! Market-board listing snapshots: the binary record format, the compressed
//! storage envelope, a keyed store, the upstream feed protocol, ingestion and
//! the query service.

pub mod api_server;
pub mod importer;
pub mod listings;
pub mod listingsdb;
pub mod little_endian;
pub mod raw_document;
pub mod stored_data;
pub mod universalis;
pub mod zstd;
