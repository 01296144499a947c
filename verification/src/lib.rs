//! Bitwave: a compact, versioned container for audio samples, descriptive
//! metadata and optional per-channel 3D positions.
//!
//! The crate is the codec of the format: the exact byte layout, the
//! sequential reader and writer, and the errors for malformed input. All of
//! it is stated over byte sequences and proved against that statement.

pub mod audio;
pub mod endian;
pub mod error;
pub mod file;
pub mod header;
pub mod laws;
pub mod layout;
pub mod metadata;
pub mod model;
pub mod spatial;
pub mod stream;

pub use crate::error::{BitwaveError, IoFailure};
pub use crate::file::BitwaveFile;
pub use crate::model::{FileModel, Metadata, SpatialData};
pub use crate::stream::{ByteSink, ByteSource};
