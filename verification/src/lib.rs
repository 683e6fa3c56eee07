//! A demuxer that can demux Matroska and WebM container files.
//!
//! [`MatroskaFile::open`] reads the EBML header, locates the top level elements of the segment and
//! reads the segment information and the tracks. The octets come from a [`Source`].

pub mod ebml;
pub mod element_id;
pub mod enums;
pub mod error;
pub mod fields;
pub mod file;
pub mod header;
pub mod info;
pub mod laws;
pub mod number;
pub mod opening;
pub mod reading;
pub mod seek;
pub mod shift;
pub mod source;
pub mod track;
pub mod values;
pub mod vint;

pub use crate::element_id::ElementId;
pub use crate::enums::TrackType;
pub use crate::error::{DemuxError, IoFailure};
pub use crate::file::MatroskaFile;
pub use crate::header::EbmlHeader;
pub use crate::info::Info;
pub use crate::number::{Float, NonZeroU64};
pub use crate::source::{MemoryFile, Source};
pub use crate::track::{Audio, Colour, ContentEncoding, MasteringMetadata, TrackEntry, Video};
