//! The description of a track.

use vstd::prelude::*;

use crate::ebml::{fields_of, ElementData, Fields};
use crate::element_id::ElementId;
use crate::enums::TrackType;
use crate::error::DemuxError;
use crate::fields::{binary_field, bool_field, defaulted, mandatory, nonzero_field, string_field};
use crate::fields::{find_bool_or, find_nonzero, find_string, find_track_type};
use crate::fields::{track_type_field, unsigned_field};
use crate::fields::{try_find_binary, try_find_nonzero, try_find_string, try_find_unsigned};
use crate::number::{Float, NonZeroU64};
use crate::source::{Media, Source};

verus! {

/// The TrackEntry element.
#[derive(Clone, Debug)]
pub struct TrackEntry {
    track_number: NonZeroU64,
    track_uid: NonZeroU64,
    track_type: TrackType,
    flag_enabled: bool,
    flag_default: bool,
    flag_forced: bool,
    flag_lacing: bool,
    default_duration: Option<NonZeroU64>,
    name: Option<String>,
    language: Option<String>,
    codec_id: String,
    codec_private: Option<Vec<u8>>,
    codec_name: Option<String>,
    codec_delay: Option<u64>,
    seek_pre_roll: Option<u64>,
    video: Option<Video>,
    audio: Option<Audio>,
    content_encodings: Option<Vec<ContentEncoding>>,
}

/// The Audio element.
#[derive(Clone, Debug)]
pub struct Audio {
    // Default 8000.0, bigger than 0.0
    sampling_frequency: Float,
    // bigger than 0.0
    output_sampling_frequency: Option<Float>,
    // Default 1
    channels: NonZeroU64,
    bit_depth: NonZeroU64,
}

/// The Video element.
#[derive(Clone, Debug)]
pub struct Video {
    color: Option<Colour>,
}

/// The Colour element.
#[derive(Clone, Debug)]
pub struct Colour {}

/// The MasteringMetadata element.
#[derive(Clone, Debug)]
pub struct MasteringMetadata {}

/// The ContentEncoding element.
#[derive(Clone, Debug)]
pub struct ContentEncoding {}

/// What a [`TrackEntry`] stands for.
pub struct TrackEntryView {
    /// The track number as used in the block header.
    pub track_number: u64,
    /// A unique ID to identify the track.
    pub track_uid: u64,
    /// The type of the track.
    pub track_type: TrackType,
    /// Whether the track is usable.
    pub flag_enabled: bool,
    /// Whether the track may be selected automatically.
    pub flag_default: bool,
    /// Whether the track is forced.
    pub flag_forced: bool,
    /// Whether the track may contain blocks using lacing.
    pub flag_lacing: bool,
    /// Nanoseconds per frame.
    pub default_duration: Option<u64>,
    /// The name of the track.
    pub name: Option<Seq<char>>,
    /// The language of the track.
    pub language: Option<Seq<char>>,
    /// The ID of the codec.
    pub codec_id: Seq<char>,
    /// Private data only known to the codec.
    pub codec_private: Option<Seq<u8>>,
    /// The name of the codec.
    pub codec_name: Option<Seq<char>>,
    /// The built-in delay of the codec in nanoseconds.
    pub codec_delay: Option<u64>,
    /// Nanoseconds to decode after a discontinuity.
    pub seek_pre_roll: Option<u64>,
    /// Video settings.
    pub video: Option<Video>,
    /// Audio settings.
    pub audio: Option<Audio>,
    /// Encoding settings.
    pub content_encodings: Option<Seq<ContentEncoding>>,
}

/// The characters of an optional string.
pub open spec fn characters(string: Option<String>) -> Option<Seq<char>> {
    match string {
        Some(string) => Some(string@),
        None => None,
    }
}

impl View for TrackEntry {
    type V = TrackEntryView;

    closed spec fn view(&self) -> TrackEntryView {
        TrackEntryView {
            track_number: self.track_number@,
            track_uid: self.track_uid@,
            track_type: self.track_type,
            flag_enabled: self.flag_enabled,
            flag_default: self.flag_default,
            flag_forced: self.flag_forced,
            flag_lacing: self.flag_lacing,
            default_duration: match self.default_duration {
                Some(duration) => Some(duration@),
                None => None,
            },
            name: characters(self.name),
            language: characters(self.language),
            codec_id: self.codec_id@,
            codec_private: match self.codec_private {
                Some(data) => Some(data@),
                None => None,
            },
            codec_name: characters(self.codec_name),
            codec_delay: self.codec_delay,
            seek_pre_roll: self.seek_pre_roll,
            video: self.video,
            audio: self.audio,
            content_encodings: match self.content_encodings {
                Some(encodings) => Some(encodings@),
                None => None,
            },
        }
    }
}

/// The track that the children of a TrackEntry element give: the first child that is missing, has
/// the wrong type, is zero or cannot be read is the error. Video, audio and encoding settings are
/// left out.
pub open spec fn track_entry_of(media: Media, fields: Fields) -> Result<
    TrackEntryView,
    DemuxError,
> {
    let track_number = mandatory(
        nonzero_field(fields, ElementId::TrackNumber),
        ElementId::TrackNumber,
    );
    let track_uid = mandatory(nonzero_field(fields, ElementId::TrackUid), ElementId::TrackUid);
    let track_type = mandatory(
        track_type_field(fields, ElementId::TrackType),
        ElementId::TrackType,
    );
    let flag_enabled = defaulted(bool_field(fields, ElementId::FlagEnabled), true);
    let flag_default = defaulted(bool_field(fields, ElementId::FlagDefault), true);
    let flag_forced = defaulted(bool_field(fields, ElementId::FlagForced), false);
    let flag_lacing = defaulted(bool_field(fields, ElementId::FlagLacing), false);
    let default_duration = nonzero_field(fields, ElementId::DefaultDuration);
    let name = string_field(fields, ElementId::Name);
    let language = string_field(fields, ElementId::Language);
    let codec_id = mandatory(string_field(fields, ElementId::CodecId), ElementId::CodecId);
    let codec_private = binary_field(media, fields, ElementId::CodecPrivate);
    let codec_name = string_field(fields, ElementId::CodecName);
    let codec_delay = unsigned_field(fields, ElementId::CodecDelay);
    let seek_pre_roll = unsigned_field(fields, ElementId::SeekPreRoll);
    if let Err(error) = track_number {
        Err(error)
    } else if let Err(error) = track_uid {
        Err(error)
    } else if let Err(error) = track_type {
        Err(error)
    } else if let Err(error) = flag_enabled {
        Err(error)
    } else if let Err(error) = flag_default {
        Err(error)
    } else if let Err(error) = flag_forced {
        Err(error)
    } else if let Err(error) = flag_lacing {
        Err(error)
    } else if let Err(error) = default_duration {
        Err(error)
    } else if let Err(error) = name {
        Err(error)
    } else if let Err(error) = language {
        Err(error)
    } else if let Err(error) = codec_id {
        Err(error)
    } else if let Err(error) = codec_private {
        Err(error)
    } else if let Err(error) = codec_name {
        Err(error)
    } else if let Err(error) = codec_delay {
        Err(error)
    } else if let Err(error) = seek_pre_roll {
        Err(error)
    } else {
        Ok(
            TrackEntryView {
                track_number: track_number->Ok_0,
                track_uid: track_uid->Ok_0,
                track_type: track_type->Ok_0,
                flag_enabled: flag_enabled->Ok_0,
                flag_default: flag_default->Ok_0,
                flag_forced: flag_forced->Ok_0,
                flag_lacing: flag_lacing->Ok_0,
                default_duration: default_duration->Ok_0,
                name: name->Ok_0,
                language: language->Ok_0,
                codec_id: codec_id->Ok_0,
                codec_private: codec_private->Ok_0,
                codec_name: codec_name->Ok_0,
                codec_delay: codec_delay->Ok_0,
                seek_pre_roll: seek_pre_roll->Ok_0,
                video: None,
                audio: None,
                content_encodings: None,
            },
        )
    }
}

impl TrackEntry {
    /// Makes a track of the children of a TrackEntry element.
    pub fn new<R: Source>(r: &mut R, fields: &[(ElementId, ElementData)]) -> (result: Result<
        TrackEntry,
        DemuxError,
    >)
        ensures
            final(r).media() == old(r).media(),
            match (result, track_entry_of(old(r).media(), fields_of(fields@))) {
                (Ok(track), Ok(view)) => track@ == view,
                (Err(error), Err(cause)) => error == cause,
                _ => false,
            },
    {
        let track_number = find_nonzero(fields, ElementId::TrackNumber)?;
        let track_uid = find_nonzero(fields, ElementId::TrackUid)?;
        let track_type = find_track_type(fields, ElementId::TrackType)?;
        let flag_enabled = find_bool_or(fields, ElementId::FlagEnabled, true)?;
        let flag_default = find_bool_or(fields, ElementId::FlagDefault, true)?;
        let flag_forced = find_bool_or(fields, ElementId::FlagForced, false)?;
        let flag_lacing = find_bool_or(fields, ElementId::FlagLacing, false)?;
        let default_duration = try_find_nonzero(fields, ElementId::DefaultDuration)?;
        let name = try_find_string(fields, ElementId::Name)?;
        let language = try_find_string(fields, ElementId::Language)?;
        let codec_id = find_string(fields, ElementId::CodecId)?;
        let codec_private = try_find_binary(r, fields, ElementId::CodecPrivate)?;
        let codec_name = try_find_string(fields, ElementId::CodecName)?;
        let codec_delay = try_find_unsigned(fields, ElementId::CodecDelay)?;
        let seek_pre_roll = try_find_unsigned(fields, ElementId::SeekPreRoll)?;

        Ok(
            Self {
                track_number,
                track_uid,
                track_type,
                flag_enabled,
                flag_default,
                flag_forced,
                flag_lacing,
                default_duration,
                name,
                language,
                codec_id,
                codec_private,
                codec_name,
                codec_delay,
                seek_pre_roll,
                video: None,
                audio: None,
                content_encodings: None,
            },
        )
    }

    /// The track number as used in the Block Header.
    pub fn track_number(&self) -> (track_number: NonZeroU64)
        ensures
            track_number@ == self@.track_number,
    {
        self.track_number
    }

    /// A unique ID to identify the Track.
    pub fn track_uid(&self) -> (track_uid: NonZeroU64)
        ensures
            track_uid@ == self@.track_uid,
    {
        self.track_uid
    }

    /// The type of the track.
    pub fn track_type(&self) -> (track_type: TrackType)
        ensures
            track_type == self@.track_type,
    {
        self.track_type
    }

    /// Indicates if a track is usable. It is possible to turn a not usable track
    /// into a usable track using chapter codecs or control tracks.
    pub fn flag_enabled(&self) -> (flag_enabled: bool)
        ensures
            flag_enabled == self@.flag_enabled,
    {
        self.flag_enabled
    }

    /// Set if that track (audio, video or subs) should be eligible
    /// for automatic selection by the player.
    pub fn flag_default(&self) -> (flag_default: bool)
        ensures
            flag_default == self@.flag_default,
    {
        self.flag_default
    }

    /// Applies only to subtitles. Set if that track should be eligible for automatic selection
    /// by the player if it matches the user's language preference, even if the user's preferences
    /// would normally not enable subtitles with the selected audio track.
    pub fn flag_forced(&self) -> (flag_forced: bool)
        ensures
            flag_forced == self@.flag_forced,
    {
        self.flag_forced
    }

    /// Indicates if the track may contain blocks using lacing.
    pub fn flag_lacing(&self) -> (flag_lacing: bool)
        ensures
            flag_lacing == self@.flag_lacing,
    {
        self.flag_lacing
    }

    /// Number of nanoseconds (not scaled via TimestampScale) per frame (one Element put into a (Simple)Block).
    pub fn default_duration(&self) -> (default_duration: Option<NonZeroU64>)
        ensures
            match (default_duration, self@.default_duration) {
                (Some(duration), Some(view)) => duration@ == view,
                (None, None) => true,
                _ => false,
            },
    {
        self.default_duration
    }

    /// A human-readable track name.
    pub fn name(&self) -> (name: Option<&str>)
        ensures
            match (name, self@.name) {
                (Some(name), Some(view)) => name@ == view,
                (None, None) => true,
                _ => false,
            },
    {
        match &self.name {
            None => None,
            Some(name) => Some(name.as_str()),
        }
    }

    /// Specifies the language of the track.
    pub fn language(&self) -> (language: Option<&str>)
        ensures
            match (language, self@.language) {
                (Some(language), Some(view)) => language@ == view,
                (None, None) => true,
                _ => false,
            },
    {
        match &self.language {
            None => None,
            Some(language) => Some(language.as_str()),
        }
    }

    /// An ID corresponding to the codec.
    pub fn codec_id(&self) -> (codec_id: &str)
        ensures
            codec_id@ == self@.codec_id,
    {
        self.codec_id.as_str()
    }

    /// Private data only known to the codec.
    pub fn codec_private(&self) -> (codec_private: Option<&[u8]>)
        ensures
            match (codec_private, self@.codec_private) {
                (Some(data), Some(view)) => data@ == view,
                (None, None) => true,
                _ => false,
            },
    {
        match &self.codec_private {
            None => None,
            Some(data) => Some(data.as_slice()),
        }
    }

    /// A human-readable string specifying the codec.
    pub fn codec_name(&self) -> (codec_name: Option<&str>)
        ensures
            match (codec_name, self@.codec_name) {
                (Some(codec_name), Some(view)) => codec_name@ == view,
                (None, None) => true,
                _ => false,
            },
    {
        match &self.codec_name {
            None => None,
            Some(codec_name) => Some(codec_name.as_str()),
        }
    }

    /// CodecDelay is the codec-built-in delay in nanoseconds.
    /// This value must be subtracted from each block timestamp in order to get the actual timestamp.
    pub fn codec_delay(&self) -> (codec_delay: Option<u64>)
        ensures
            codec_delay == self@.codec_delay,
    {
        self.codec_delay
    }

    /// After a discontinuity, SeekPreRoll is the duration in nanoseconds of the data the decoder
    /// must decode before the decoded data is valid.
    pub fn seek_pre_roll(&self) -> (seek_pre_roll: Option<u64>)
        ensures
            seek_pre_roll == self@.seek_pre_roll,
    {
        self.seek_pre_roll
    }

    /// Video settings.
    pub fn video(&self) -> (video: Option<&Video>)
        ensures
            match (video, self@.video) {
                (Some(video), Some(view)) => *video == view,
                (None, None) => true,
                _ => false,
            },
    {
        self.video.as_ref()
    }

    /// Audio settings.
    pub fn audio(&self) -> (audio: Option<&Audio>)
        ensures
            match (audio, self@.audio) {
                (Some(audio), Some(view)) => *audio == view,
                (None, None) => true,
                _ => false,
            },
    {
        self.audio.as_ref()
    }

    /// Encoding settings.
    pub fn content_encodings(&self) -> (content_encodings: Option<&[ContentEncoding]>)
        ensures
            match (content_encodings, self@.content_encodings) {
                (Some(encodings), Some(view)) => encodings@ == view,
                (None, None) => true,
                _ => false,
            },
    {
        match &self.content_encodings {
            None => None,
            Some(content_encodings) => Some(content_encodings.as_slice()),
        }
    }
}

} // verus!
