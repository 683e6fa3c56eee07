//! The elements that the demuxer knows.

use vstd::prelude::*;

verus! {

/// How the data of an element is to be read.
#[derive(Clone, Copy, Debug, PartialEq, Eq, Structural)]
pub enum ElementType {
    /// The data holds further elements.
    Master,
    /// The data is an unsigned number.
    Unsigned,
    /// The data is a floating point number.
    Float,
    /// The data is a date.
    Date,
    /// The data is a string.
    Text,
    /// The data has no structure that the demuxer knows.
    Binary,
}

/// The name of an element.
#[derive(Clone, Copy, Debug, PartialEq, Eq, Hash, Structural)]
pub enum ElementId {
    /// An element that the demuxer does not know.
    Unknown,
    /// The EBML header.
    Ebml,
    /// The EBML version of the writer.
    EbmlVersion,
    /// The EBML version a reader has to support.
    EbmlReadVersion,
    /// The length of the longest element ID.
    EbmlMaxIdLength,
    /// The length of the longest element size.
    EbmlMaxSizeLength,
    /// The type of the document.
    DocType,
    /// The document type version of the writer.
    DocTypeVersion,
    /// The document type version a reader has to support.
    DocTypeReadVersion,
    /// A checksum of the parent element.
    Crc32,
    /// Everything that follows the EBML header.
    Segment,
    /// An index of top level elements.
    SeekHead,
    /// An entry of the index.
    Seek,
    /// The ID of an indexed element.
    SeekId,
    /// The position of an indexed element, counted from the segment data.
    SeekPosition,
    /// General information on the segment.
    Info,
    /// Nanoseconds per timestamp unit.
    TimestampScale,
    /// The duration of the segment.
    Duration,
    /// When the segment was created.
    DateUtc,
    /// The name of the segment.
    Title,
    /// The muxing application.
    MuxingApp,
    /// The writing application.
    WritingApp,
    /// A group of frames.
    Cluster,
    /// The descriptions of all tracks.
    Tracks,
    /// The description of a track.
    TrackEntry,
    /// The number of a track.
    TrackNumber,
    /// The unique ID of a track.
    TrackUid,
    /// The type of a track.
    TrackType,
    /// Whether a track is usable.
    FlagEnabled,
    /// Whether a track may be selected automatically.
    FlagDefault,
    /// Whether a subtitle track is forced.
    FlagForced,
    /// Whether a track may use lacing.
    FlagLacing,
    /// Nanoseconds per frame.
    DefaultDuration,
    /// The name of a track.
    Name,
    /// The language of a track.
    Language,
    /// The ID of a codec.
    CodecId,
    /// Data known to the codec only.
    CodecPrivate,
    /// The name of a codec.
    CodecName,
    /// The delay of a codec in nanoseconds.
    CodecDelay,
    /// Nanoseconds to decode after a discontinuity.
    SeekPreRoll,
    /// A temporal index.
    Cues,
    /// The chapters.
    Chapters,
    /// The tags.
    Tags,
}

impl ElementId {
    /// The number by which files refer to the element; zero, which no file uses, for
    /// [`ElementId::Unknown`].
    pub open spec fn number(self) -> u32 {
        match self {
            ElementId::Unknown => 0,
            ElementId::Ebml => 0x1A45DFA3,
            ElementId::EbmlVersion => 0x4286,
            ElementId::EbmlReadVersion => 0x42F7,
            ElementId::EbmlMaxIdLength => 0x42F2,
            ElementId::EbmlMaxSizeLength => 0x42F3,
            ElementId::DocType => 0x4282,
            ElementId::DocTypeVersion => 0x4287,
            ElementId::DocTypeReadVersion => 0x4285,
            ElementId::Crc32 => 0xBF,
            ElementId::Segment => 0x18538067,
            ElementId::SeekHead => 0x114D9B74,
            ElementId::Seek => 0x4DBB,
            ElementId::SeekId => 0x53AB,
            ElementId::SeekPosition => 0x53AC,
            ElementId::Info => 0x1549A966,
            ElementId::TimestampScale => 0x2AD7B1,
            ElementId::Duration => 0x4489,
            ElementId::DateUtc => 0x4461,
            ElementId::Title => 0x7BA9,
            ElementId::MuxingApp => 0x4D80,
            ElementId::WritingApp => 0x5741,
            ElementId::Cluster => 0x1F43B675,
            ElementId::Tracks => 0x1654AE6B,
            ElementId::TrackEntry => 0xAE,
            ElementId::TrackNumber => 0xD7,
            ElementId::TrackUid => 0x73C5,
            ElementId::TrackType => 0x83,
            ElementId::FlagEnabled => 0xB9,
            ElementId::FlagDefault => 0x88,
            ElementId::FlagForced => 0x55AA,
            ElementId::FlagLacing => 0x9C,
            ElementId::DefaultDuration => 0x23E383,
            ElementId::Name => 0x536E,
            ElementId::Language => 0x22B59C,
            ElementId::CodecId => 0x86,
            ElementId::CodecPrivate => 0x63A2,
            ElementId::CodecName => 0x258688,
            ElementId::CodecDelay => 0x56AA,
            ElementId::SeekPreRoll => 0x56BB,
            ElementId::Cues => 0x1C53BB6B,
            ElementId::Chapters => 0x1043A770,
            ElementId::Tags => 0x1254C367,
        }
    }

    /// The element to which files refer by `number`.
    pub open spec fn of_number(number: u32) -> ElementId {
        match number {
            0x1A45DFA3 => ElementId::Ebml,
            0x4286 => ElementId::EbmlVersion,
            0x42F7 => ElementId::EbmlReadVersion,
            0x42F2 => ElementId::EbmlMaxIdLength,
            0x42F3 => ElementId::EbmlMaxSizeLength,
            0x4282 => ElementId::DocType,
            0x4287 => ElementId::DocTypeVersion,
            0x4285 => ElementId::DocTypeReadVersion,
            0xBF => ElementId::Crc32,
            0x18538067 => ElementId::Segment,
            0x114D9B74 => ElementId::SeekHead,
            0x4DBB => ElementId::Seek,
            0x53AB => ElementId::SeekId,
            0x53AC => ElementId::SeekPosition,
            0x1549A966 => ElementId::Info,
            0x2AD7B1 => ElementId::TimestampScale,
            0x4489 => ElementId::Duration,
            0x4461 => ElementId::DateUtc,
            0x7BA9 => ElementId::Title,
            0x4D80 => ElementId::MuxingApp,
            0x5741 => ElementId::WritingApp,
            0x1F43B675 => ElementId::Cluster,
            0x1654AE6B => ElementId::Tracks,
            0xAE => ElementId::TrackEntry,
            0xD7 => ElementId::TrackNumber,
            0x73C5 => ElementId::TrackUid,
            0x83 => ElementId::TrackType,
            0xB9 => ElementId::FlagEnabled,
            0x88 => ElementId::FlagDefault,
            0x55AA => ElementId::FlagForced,
            0x9C => ElementId::FlagLacing,
            0x23E383 => ElementId::DefaultDuration,
            0x536E => ElementId::Name,
            0x22B59C => ElementId::Language,
            0x86 => ElementId::CodecId,
            0x63A2 => ElementId::CodecPrivate,
            0x258688 => ElementId::CodecName,
            0x56AA => ElementId::CodecDelay,
            0x56BB => ElementId::SeekPreRoll,
            0x1C53BB6B => ElementId::Cues,
            0x1043A770 => ElementId::Chapters,
            0x1254C367 => ElementId::Tags,
            _ => ElementId::Unknown,
        }
    }

    /// How the data of the element is to be read.
    pub open spec fn kind(self) -> ElementType {
        match self {
            ElementId::Ebml
            | ElementId::Segment
            | ElementId::SeekHead
            | ElementId::Seek
            | ElementId::Info
            | ElementId::Cluster
            | ElementId::Tracks
            | ElementId::TrackEntry
            | ElementId::Cues
            | ElementId::Chapters
            | ElementId::Tags => ElementType::Master,
            ElementId::EbmlVersion
            | ElementId::EbmlReadVersion
            | ElementId::EbmlMaxIdLength
            | ElementId::EbmlMaxSizeLength
            | ElementId::DocTypeVersion
            | ElementId::DocTypeReadVersion
            | ElementId::SeekId
            | ElementId::SeekPosition
            | ElementId::TimestampScale
            | ElementId::TrackNumber
            | ElementId::TrackUid
            | ElementId::TrackType
            | ElementId::FlagEnabled
            | ElementId::FlagDefault
            | ElementId::FlagForced
            | ElementId::FlagLacing
            | ElementId::DefaultDuration
            | ElementId::CodecDelay
            | ElementId::SeekPreRoll => ElementType::Unsigned,
            ElementId::Duration => ElementType::Float,
            ElementId::DateUtc => ElementType::Date,
            ElementId::DocType
            | ElementId::Title
            | ElementId::MuxingApp
            | ElementId::WritingApp
            | ElementId::Name
            | ElementId::Language
            | ElementId::CodecId
            | ElementId::CodecName => ElementType::Text,
            ElementId::Unknown | ElementId::Crc32 | ElementId::CodecPrivate => ElementType::Binary,
        }
    }

    /// Returns the number by which files refer to the element.
    pub fn to_number(self) -> (number: u32)
        ensures
            number == self.number(),
    {
        match self {
            ElementId::Unknown => 0,
            ElementId::Ebml => 0x1A45DFA3,
            ElementId::EbmlVersion => 0x4286,
            ElementId::EbmlReadVersion => 0x42F7,
            ElementId::EbmlMaxIdLength => 0x42F2,
            ElementId::EbmlMaxSizeLength => 0x42F3,
            ElementId::DocType => 0x4282,
            ElementId::DocTypeVersion => 0x4287,
            ElementId::DocTypeReadVersion => 0x4285,
            ElementId::Crc32 => 0xBF,
            ElementId::Segment => 0x18538067,
            ElementId::SeekHead => 0x114D9B74,
            ElementId::Seek => 0x4DBB,
            ElementId::SeekId => 0x53AB,
            ElementId::SeekPosition => 0x53AC,
            ElementId::Info => 0x1549A966,
            ElementId::TimestampScale => 0x2AD7B1,
            ElementId::Duration => 0x4489,
            ElementId::DateUtc => 0x4461,
            ElementId::Title => 0x7BA9,
            ElementId::MuxingApp => 0x4D80,
            ElementId::WritingApp => 0x5741,
            ElementId::Cluster => 0x1F43B675,
            ElementId::Tracks => 0x1654AE6B,
            ElementId::TrackEntry => 0xAE,
            ElementId::TrackNumber => 0xD7,
            ElementId::TrackUid => 0x73C5,
            ElementId::TrackType => 0x83,
            ElementId::FlagEnabled => 0xB9,
            ElementId::FlagDefault => 0x88,
            ElementId::FlagForced => 0x55AA,
            ElementId::FlagLacing => 0x9C,
            ElementId::DefaultDuration => 0x23E383,
            ElementId::Name => 0x536E,
            ElementId::Language => 0x22B59C,
            ElementId::CodecId => 0x86,
            ElementId::CodecPrivate => 0x63A2,
            ElementId::CodecName => 0x258688,
            ElementId::CodecDelay => 0x56AA,
            ElementId::SeekPreRoll => 0x56BB,
            ElementId::Cues => 0x1C53BB6B,
            ElementId::Chapters => 0x1043A770,
            ElementId::Tags => 0x1254C367,
        }
    }

    /// Returns the element to which files refer by `number`.
    pub fn from_number(number: u32) -> (id: ElementId)
        ensures
            id == ElementId::of_number(number),
    {
        match number {
            0x1A45DFA3 => ElementId::Ebml,
            0x4286 => ElementId::EbmlVersion,
            0x42F7 => ElementId::EbmlReadVersion,
            0x42F2 => ElementId::EbmlMaxIdLength,
            0x42F3 => ElementId::EbmlMaxSizeLength,
            0x4282 => ElementId::DocType,
            0x4287 => ElementId::DocTypeVersion,
            0x4285 => ElementId::DocTypeReadVersion,
            0xBF => ElementId::Crc32,
            0x18538067 => ElementId::Segment,
            0x114D9B74 => ElementId::SeekHead,
            0x4DBB => ElementId::Seek,
            0x53AB => ElementId::SeekId,
            0x53AC => ElementId::SeekPosition,
            0x1549A966 => ElementId::Info,
            0x2AD7B1 => ElementId::TimestampScale,
            0x4489 => ElementId::Duration,
            0x4461 => ElementId::DateUtc,
            0x7BA9 => ElementId::Title,
            0x4D80 => ElementId::MuxingApp,
            0x5741 => ElementId::WritingApp,
            0x1F43B675 => ElementId::Cluster,
            0x1654AE6B => ElementId::Tracks,
            0xAE => ElementId::TrackEntry,
            0xD7 => ElementId::TrackNumber,
            0x73C5 => ElementId::TrackUid,
            0x83 => ElementId::TrackType,
            0xB9 => ElementId::FlagEnabled,
            0x88 => ElementId::FlagDefault,
            0x55AA => ElementId::FlagForced,
            0x9C => ElementId::FlagLacing,
            0x23E383 => ElementId::DefaultDuration,
            0x536E => ElementId::Name,
            0x22B59C => ElementId::Language,
            0x86 => ElementId::CodecId,
            0x63A2 => ElementId::CodecPrivate,
            0x258688 => ElementId::CodecName,
            0x56AA => ElementId::CodecDelay,
            0x56BB => ElementId::SeekPreRoll,
            0x1C53BB6B => ElementId::Cues,
            0x1043A770 => ElementId::Chapters,
            0x1254C367 => ElementId::Tags,
            _ => ElementId::Unknown,
        }
    }

    /// Returns how the data of the element is to be read.
    pub fn element_type(self) -> (element_type: ElementType)
        ensures
            element_type == self.kind(),
    {
        match self {
            ElementId::Ebml
            | ElementId::Segment
            | ElementId::SeekHead
            | ElementId::Seek
            | ElementId::Info
            | ElementId::Cluster
            | ElementId::Tracks
            | ElementId::TrackEntry
            | ElementId::Cues
            | ElementId::Chapters
            | ElementId::Tags => ElementType::Master,
            ElementId::EbmlVersion
            | ElementId::EbmlReadVersion
            | ElementId::EbmlMaxIdLength
            | ElementId::EbmlMaxSizeLength
            | ElementId::DocTypeVersion
            | ElementId::DocTypeReadVersion
            | ElementId::SeekId
            | ElementId::SeekPosition
            | ElementId::TimestampScale
            | ElementId::TrackNumber
            | ElementId::TrackUid
            | ElementId::TrackType
            | ElementId::FlagEnabled
            | ElementId::FlagDefault
            | ElementId::FlagForced
            | ElementId::FlagLacing
            | ElementId::DefaultDuration
            | ElementId::CodecDelay
            | ElementId::SeekPreRoll => ElementType::Unsigned,
            ElementId::Duration => ElementType::Float,
            ElementId::DateUtc => ElementType::Date,
            ElementId::DocType
            | ElementId::Title
            | ElementId::MuxingApp
            | ElementId::WritingApp
            | ElementId::Name
            | ElementId::Language
            | ElementId::CodecId
            | ElementId::CodecName => ElementType::Text,
            ElementId::Unknown | ElementId::Crc32 | ElementId::CodecPrivate => ElementType::Binary,
        }
    }
}

/// The number of an element gives back the element.
pub proof fn law_number_names_element(id: ElementId)
    ensures
        ElementId::of_number(id.number()) == id,
{
}

/// No two elements have the same number.
pub proof fn law_numbers_differ(a: ElementId, b: ElementId)
    requires
        a.number() == b.number(),
    ensures
        a == b,
{
    law_number_names_element(a);
    law_number_names_element(b);
}

/// A number that names a known element is the number of that element.
pub proof fn law_element_has_number(number: u32)
    requires
        ElementId::of_number(number) != ElementId::Unknown,
    ensures
        ElementId::of_number(number).number() == number,
{
}

} // verus!
