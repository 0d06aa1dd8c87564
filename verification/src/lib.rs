//! Metadata-lifecycle coordination for named data streams.
//!
//! The crate decodes and encodes the structured stream settings carried in a
//! schema's metadata blob, normalizes raw stream statistics for display, builds
//! the public stream representation, and drives the multi-subsystem stream
//! deletion workflow as an explicit state machine.

pub mod stats;
pub mod types;
pub mod jsonmodel;
pub mod extern_io;
pub mod codec;
pub mod render;
pub mod builder;
pub mod service;
pub mod delete;

pub use builder::get_stream_setting_fts_fields;
pub use builder::stream_res;
pub use codec::decode;
pub use codec::encode;
pub use delete::delete_outcome;
pub use delete::delete_start;
pub use delete::delete_stream;
pub use service::get_stream;
pub use service::get_streams;
pub use service::save_stream_settings;
pub use stats::StreamStats;
pub use stats::transform_stats;
