//! Enumerations of the Matroska format.

use vstd::prelude::*;

verus! {

/// The type of a track.
#[derive(Clone, Copy, Debug, PartialEq, Eq, Structural)]
pub enum TrackType {
    /// A type that the demuxer does not know.
    Unknown,
    /// An image stream.
    Video,
    /// An audio stream.
    Audio,
    /// A mix of different other types.
    Complex,
    /// An image to be rendered over the video.
    Logo,
    /// A subtitle or closed caption.
    Subtitle,
    /// An interactive button to be rendered over the video.
    Buttons,
    /// Metadata that controls the player of the file.
    Control,
    /// Timed metadata.
    Metadata,
}

impl TrackType {
    /// The type to which files refer by `number`.
    pub open spec fn of_number(number: u64) -> TrackType {
        if number == 1 {
            TrackType::Video
        } else if number == 2 {
            TrackType::Audio
        } else if number == 3 {
            TrackType::Complex
        } else if number == 16 {
            TrackType::Logo
        } else if number == 17 {
            TrackType::Subtitle
        } else if number == 18 {
            TrackType::Buttons
        } else if number == 32 {
            TrackType::Control
        } else if number == 33 {
            TrackType::Metadata
        } else {
            TrackType::Unknown
        }
    }

    /// Returns the type to which files refer by `number`.
    pub fn from_number(number: u64) -> (track_type: TrackType)
        ensures
            track_type == TrackType::of_number(number),
    {
        match number {
            1 => TrackType::Video,
            2 => TrackType::Audio,
            3 => TrackType::Complex,
            16 => TrackType::Logo,
            17 => TrackType::Subtitle,
            18 => TrackType::Buttons,
            32 => TrackType::Control,
            33 => TrackType::Metadata,
            _ => TrackType::Unknown,
        }
    }
}

} // verus!
