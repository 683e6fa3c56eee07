//! What holds of the values that are made of the children of an element.

use vstd::prelude::*;

use crate::ebml::{children_at, moved, DataView, Fields};
use crate::element_id::{law_number_names_element, ElementId};
use crate::enums::TrackType;
use crate::error::DemuxError;
use crate::fields::{binary_field, bool_field, date_field, defaulted, field, float_field, mandatory};
use crate::fields::{nonzero_field, nonzero_field_or, string_field, track_type_field, unsigned_field};
use crate::file::track_views;
use crate::header::ebml_header_of;
use crate::info::info_of;
use crate::number::Float;
use crate::reading::law_other_numbers_are_unknown;
use crate::seek::{entry_of, listed_from, seek_entry_of, SeekEntry};
use crate::source::Media;
use crate::track::{track_entry_of, TrackEntry};

verus! {

/// What is wanted of a child.
pub enum Wanted {
    /// An unsigned number.
    Number,
    /// An unsigned number that is not zero.
    Positive,
    /// A floating point number.
    Float,
    /// A date.
    Date,
    /// A string.
    Text,
    /// Octets that can be read.
    Octets,
}

/// A child that is looked for.
pub struct Want {
    /// Its name.
    pub id: ElementId,
    /// What it should hold.
    pub wanted: Wanted,
    /// Whether it has to be there.
    pub needed: bool,
}

/// Makes a want.
pub open spec fn want(id: ElementId, wanted: Wanted, needed: bool) -> Want {
    Want { id, wanted, needed }
}

/// What is wrong with the child that is looked for, if anything is: it is missing although it has to
/// be there, it holds something else, it is zero although it must not, or its octets cannot be read.
pub open spec fn fault(media: Media, fields: Fields, want: Want) -> Option<DemuxError> {
    match field(fields, want.id) {
        None => if want.needed {
            Some(DemuxError::ElementNotFound(want.id))
        } else {
            None
        },
        Some(data) => match (want.wanted, data) {
            (Wanted::Number, DataView::Unsigned(_)) => None,
            (Wanted::Positive, DataView::Unsigned(value)) => if value == 0 {
                Some(DemuxError::NonZeroValueIsZero(want.id))
            } else {
                None
            },
            (Wanted::Float, DataView::Float(_)) => None,
            (Wanted::Date, DataView::Date(_)) => None,
            (Wanted::Text, DataView::Text(_)) => None,
            (Wanted::Octets, DataView::Location { offset, size }) => match moved(media, offset) {
                Err(error) => Some(error),
                Ok(_) => match media.read(offset, size) {
                    Err(failure) => Some(DemuxError::IoError(failure)),
                    Ok(_) => None,
                },
            },
            _ => Some(DemuxError::UnexpectedDataType),
        },
    }
}

/// Whether nothing is wrong with any of the children that are looked for.
pub open spec fn all_well(media: Media, fields: Fields, wants: Seq<Want>) -> bool {
    forall|i: int| 0 <= i < wants.len() ==> fault(media, fields, #[trigger] wants[i]) is None
}

/// Whether `error` is what is wrong with the first child that something is wrong with, in the order
/// in which they are looked for.
pub open spec fn is_first_fault(
    media: Media,
    fields: Fields,
    wants: Seq<Want>,
    error: DemuxError,
) -> bool {
    exists|i: int|
        {
            &&& 0 <= i < wants.len()
            &&& fault(media, fields, #[trigger] wants[i]) == Some(error)
            &&& all_well(media, fields, wants.take(i))
        }
}

proof fn lemma_first_fault(
    media: Media,
    fields: Fields,
    wants: Seq<Want>,
    index: int,
    error: DemuxError,
)
    requires
        0 <= index < wants.len(),
        fault(media, fields, wants[index]) == Some(error),
        forall|i: int| 0 <= i < index ==> fault(media, fields, #[trigger] wants[i]) is None,
    ensures
        is_first_fault(media, fields, wants, error),
        !all_well(media, fields, wants),
{
    let before = wants.take(index);
    assert forall|i: int| 0 <= i < before.len() implies fault(
        media,
        fields,
        #[trigger] before[i],
    ) is None by {
        assert(before[i] == wants[i]);
    }
}

/// The first child at or behind `index` that something is wrong with; the number of children that are
/// looked for if there is none.
spec fn first_wrong(media: Media, fields: Fields, wants: Seq<Want>, index: int) -> int
    decreases wants.len() - index,
{
    if index >= wants.len() {
        wants.len() as int
    } else if fault(media, fields, wants[index]) is Some {
        index
    } else {
        first_wrong(media, fields, wants, index + 1)
    }
}

proof fn lemma_first_wrong(media: Media, fields: Fields, wants: Seq<Want>, index: int)
    requires
        0 <= index <= wants.len(),
        forall|i: int| 0 <= i < index ==> fault(media, fields, #[trigger] wants[i]) is None,
    ensures
        ({
            let wrong = first_wrong(media, fields, wants, index);
            &&& index <= wrong <= wants.len()
            &&& forall|i: int| 0 <= i < wrong ==> fault(media, fields, #[trigger] wants[i]) is None
            &&& wrong < wants.len() ==> fault(media, fields, wants[wrong]) is Some
        }),
    decreases wants.len() - index,
{
    if index < wants.len() && fault(media, fields, wants[index]) is None {
        lemma_first_wrong(media, fields, wants, index + 1);
    }
}

/// Whether a child holds this number, or there is no such child and no number.
pub open spec fn gives_number(fields: Fields, id: ElementId, value: Option<u64>) -> bool {
    match value {
        Some(value) => field(fields, id) == Some(DataView::Unsigned(value)),
        None => field(fields, id) is None,
    }
}

/// Whether a child holds this string, or there is no such child and no string.
pub open spec fn gives_text(fields: Fields, id: ElementId, value: Option<Seq<char>>) -> bool {
    match value {
        Some(value) => field(fields, id) == Some(DataView::Text(value)),
        None => field(fields, id) is None,
    }
}

/// Whether a child holds this number, or there is no such child and the number is `default`.
pub open spec fn gives_number_or(fields: Fields, id: ElementId, value: u64, default: u64) -> bool {
    ||| field(fields, id) == Some(DataView::Unsigned(value))
    ||| field(fields, id) is None && value == default
}

/// Whether the flag is set if the child holds a number other than zero, and not set if it holds zero;
/// or there is no such child and the flag is `default`.
pub open spec fn gives_flag(fields: Fields, id: ElementId, flag: bool, default: bool) -> bool {
    match field(fields, id) {
        Some(DataView::Unsigned(value)) => flag == (value != 0),
        Some(_) => false,
        None => flag == default,
    }
}

/// The children that the header of a file is made of.
pub open spec fn header_wants() -> Seq<Want> {
    seq![
        want(ElementId::EbmlVersion, Wanted::Number, false),
        want(ElementId::EbmlReadVersion, Wanted::Number, false),
        want(ElementId::EbmlMaxIdLength, Wanted::Number, false),
        want(ElementId::EbmlMaxSizeLength, Wanted::Number, false),
        want(ElementId::DocType, Wanted::Text, true),
        want(ElementId::DocTypeVersion, Wanted::Number, true),
        want(ElementId::DocTypeReadVersion, Wanted::Number, true),
    ]
}

/// A header can be made if and only if nothing is wrong with its children; what is wrong with the
/// first wrong one is the error. Each of its values is that of the first child of its own name,
/// whatever the others are.
pub proof fn law_header_is_made_of_its_children(media: Media, fields: Fields)
    ensures
        match ebml_header_of(fields) {
            Ok(header) => {
                &&& all_well(media, fields, header_wants())
                &&& gives_number(fields, ElementId::EbmlVersion, header.version)
                &&& gives_number(fields, ElementId::EbmlReadVersion, header.read_version)
                &&& gives_number_or(fields, ElementId::EbmlMaxIdLength, header.max_id_length, 4)
                &&& gives_number_or(fields, ElementId::EbmlMaxSizeLength, header.max_size_length, 8)
                &&& gives_text(fields, ElementId::DocType, Some(header.doc_type))
                &&& gives_number(fields, ElementId::DocTypeVersion, Some(header.doc_type_version))
                &&& gives_number(
                    fields,
                    ElementId::DocTypeReadVersion,
                    Some(header.doc_type_read_version),
                )
            },
            Err(error) => {
                &&& is_first_fault(media, fields, header_wants(), error)
                &&& !all_well(media, fields, header_wants())
            },
        },
{
    let wants = header_wants();
    lemma_first_wrong(media, fields, wants, 0);
    reveal_with_fuel(first_wrong, 9);
    let wrong = first_wrong(media, fields, wants, 0);
    if wrong < wants.len() {
        let error = fault(media, fields, wants[wrong])->Some_0;
        lemma_first_fault(media, fields, wants, wrong, error);
        assert(ebml_header_of(fields) is Err && ebml_header_of(fields)->Err_0 == error);
    } else {
        assert(ebml_header_of(fields) is Ok);
    }
}

/// The children that the information on a segment is made of.
pub open spec fn info_wants() -> Seq<Want> {
    seq![
        want(ElementId::TimestampScale, Wanted::Positive, false),
        want(ElementId::Duration, Wanted::Float, false),
        want(ElementId::DateUtc, Wanted::Date, false),
        want(ElementId::Title, Wanted::Text, false),
        want(ElementId::MuxingApp, Wanted::Text, true),
        want(ElementId::WritingApp, Wanted::Text, true),
    ]
}

/// Whether the children give a duration below zero.
pub open spec fn has_negative_duration(fields: Fields) -> bool {
    field(fields, ElementId::Duration) matches Some(DataView::Float(duration))
        && duration.below_zero()
}

/// The information on a segment can be made if and only if nothing is wrong with its children and
/// the duration is not below zero; what is wrong with the first wrong one is the error, and only if
/// nothing else is wrong a duration below zero. Each value is that of the first child of its own
/// name, whatever the others are.
pub proof fn law_info_is_made_of_its_children(media: Media, fields: Fields)
    ensures
        match info_of(fields) {
            Ok(info) => {
                &&& all_well(media, fields, info_wants())
                &&& !has_negative_duration(fields)
                &&& gives_number_or(
                    fields,
                    ElementId::TimestampScale,
                    info.timestamp_scale,
                    1_000_000,
                )
                &&& match info.duration {
                    Some(duration) => field(fields, ElementId::Duration) == Some(
                        DataView::Float(duration),
                    ),
                    None => field(fields, ElementId::Duration) is None,
                }
                &&& match info.date_utc {
                    Some(date) => field(fields, ElementId::DateUtc) == Some(DataView::Date(date)),
                    None => field(fields, ElementId::DateUtc) is None,
                }
                &&& gives_text(fields, ElementId::Title, info.title)
                &&& gives_text(fields, ElementId::MuxingApp, Some(info.muxing_app))
                &&& gives_text(fields, ElementId::WritingApp, Some(info.writing_app))
            },
            Err(error) => if all_well(media, fields, info_wants()) {
                has_negative_duration(fields) && error == DemuxError::PositiveValueIsNotPositive
            } else {
                is_first_fault(media, fields, info_wants(), error)
            },
        },
{
    let wants = info_wants();
    lemma_first_wrong(media, fields, wants, 0);
    reveal_with_fuel(first_wrong, 8);
    let wrong = first_wrong(media, fields, wants, 0);
    if wrong < wants.len() {
        let error = fault(media, fields, wants[wrong])->Some_0;
        lemma_first_fault(media, fields, wants, wrong, error);
        assert(info_of(fields) is Err && info_of(fields)->Err_0 == error);
    } else {
        assert(info_of(fields) is Ok <==> !has_negative_duration(fields));
    }
}

/// The children that a track is made of.
pub open spec fn track_wants() -> Seq<Want> {
    seq![
        want(ElementId::TrackNumber, Wanted::Positive, true),
        want(ElementId::TrackUid, Wanted::Positive, true),
        want(ElementId::TrackType, Wanted::Number, true),
        want(ElementId::FlagEnabled, Wanted::Number, false),
        want(ElementId::FlagDefault, Wanted::Number, false),
        want(ElementId::FlagForced, Wanted::Number, false),
        want(ElementId::FlagLacing, Wanted::Number, false),
        want(ElementId::DefaultDuration, Wanted::Positive, false),
        want(ElementId::Name, Wanted::Text, false),
        want(ElementId::Language, Wanted::Text, false),
        want(ElementId::CodecId, Wanted::Text, true),
        want(ElementId::CodecPrivate, Wanted::Octets, false),
        want(ElementId::CodecName, Wanted::Text, false),
        want(ElementId::CodecDelay, Wanted::Number, false),
        want(ElementId::SeekPreRoll, Wanted::Number, false),
    ]
}

/// Whether a child tells where these octets lie, or there is no such child and no octets.
pub open spec fn gives_octets(
    media: Media,
    fields: Fields,
    id: ElementId,
    octets: Option<Seq<u8>>,
) -> bool {
    match (octets, field(fields, id)) {
        (Some(octets), Some(DataView::Location { offset, size })) => {
            &&& size >= 0 ==> octets.len() == size
            &&& forall|i: int| 0 <= i < size ==> #[trigger] octets[i] == media.octets[offset + i]
        },
        (None, None) => true,
        _ => false,
    }
}

/// A track can be made if and only if nothing is wrong with its children; what is wrong with the
/// first wrong one is the error. Each of its values is that of the first child of its own name,
/// whatever the others are. Its settings are left out.
pub proof fn law_track_is_made_of_its_children(media: Media, fields: Fields)
    ensures
        match track_entry_of(media, fields) {
            Ok(track) => {
                &&& all_well(media, fields, track_wants())
                &&& gives_number(fields, ElementId::TrackNumber, Some(track.track_number))
                &&& gives_number(fields, ElementId::TrackUid, Some(track.track_uid))
                &&& exists|number: u64|
                    gives_number(fields, ElementId::TrackType, Some(number)) && track.track_type
                        == #[trigger] TrackType::of_number(number)
                &&& gives_flag(fields, ElementId::FlagEnabled, track.flag_enabled, true)
                &&& gives_flag(fields, ElementId::FlagDefault, track.flag_default, true)
                &&& gives_flag(fields, ElementId::FlagForced, track.flag_forced, false)
                &&& gives_flag(fields, ElementId::FlagLacing, track.flag_lacing, false)
                &&& gives_number(fields, ElementId::DefaultDuration, track.default_duration)
                &&& gives_text(fields, ElementId::Name, track.name)
                &&& gives_text(fields, ElementId::Language, track.language)
                &&& gives_text(fields, ElementId::CodecId, Some(track.codec_id))
                &&& gives_octets(media, fields, ElementId::CodecPrivate, track.codec_private)
                &&& gives_text(fields, ElementId::CodecName, track.codec_name)
                &&& gives_number(fields, ElementId::CodecDelay, track.codec_delay)
                &&& gives_number(fields, ElementId::SeekPreRoll, track.seek_pre_roll)
                &&& track.video is None
                &&& track.audio is None
                &&& track.content_encodings is None
            },
            Err(error) => {
                &&& is_first_fault(media, fields, track_wants(), error)
                &&& !all_well(media, fields, track_wants())
            },
        },
{
    let wants = track_wants();
    lemma_first_wrong(media, fields, wants, 0);
    reveal_with_fuel(first_wrong, 17);
    let wrong = first_wrong(media, fields, wants, 0);
    if wrong < wants.len() {
        let error = fault(media, fields, wants[wrong])->Some_0;
        lemma_first_fault(media, fields, wants, wrong, error);
        assert(track_entry_of(media, fields) is Err && track_entry_of(media, fields)->Err_0
            == error);
    } else {
        assert(track_entry_of(media, fields) is Ok);
        if let Some(DataView::Unsigned(number)) = field(fields, ElementId::TrackType) {
            assert(track_entry_of(media, fields)->Ok_0.track_type == TrackType::of_number(number));
        }
    }
}

/// The types of tracks have these numbers, and all others stand for a type that is not known.
pub proof fn law_track_types(number: u64)
    ensures
        TrackType::of_number(number) == TrackType::Video <==> number == 1,
        TrackType::of_number(number) == TrackType::Audio <==> number == 2,
        TrackType::of_number(number) == TrackType::Complex <==> number == 3,
        TrackType::of_number(number) == TrackType::Logo <==> number == 16,
        TrackType::of_number(number) == TrackType::Subtitle <==> number == 17,
        TrackType::of_number(number) == TrackType::Buttons <==> number == 18,
        TrackType::of_number(number) == TrackType::Control <==> number == 32,
        TrackType::of_number(number) == TrackType::Metadata <==> number == 33,
{
}

/// A number without its sign bit is not below zero. With its sign bit it is below zero if it is
/// neither zero nor something that is not a number.
pub proof fn law_sign_bit_makes_numbers_negative(single: u32, double: u64)
    requires
        single < 0x8000_0000,
        double < 0x8000_0000_0000_0000,
    ensures
        !Float::Single(single).below_zero(),
        Float::Single((single + 0x8000_0000) as u32).below_zero() <==> {
            single != 0 && single <= 0x7F80_0000
        },
        !Float::Double(double).below_zero(),
        Float::Double((double + 0x8000_0000_0000_0000) as u64).below_zero() <==> {
            double != 0 && double <= 0x7FF0_0000_0000_0000
        },
{
}

/// Looking for a number, a string, a date or a floating point number finds that of the first child of
/// this name. Nothing is found if there is no such child, and it is an error if it holds anything
/// else.
pub proof fn law_first_child_is_found(fields: Fields, id: ElementId)
    ensures
        match unsigned_field(fields, id) {
            Ok(value) => gives_number(fields, id, value),
            Err(error) => error == DemuxError::UnexpectedDataType && field(fields, id) is Some && !(
            field(fields, id)->Some_0 is Unsigned),
        },
        match string_field(fields, id) {
            Ok(value) => gives_text(fields, id, value),
            Err(error) => error == DemuxError::UnexpectedDataType && field(fields, id) is Some && !(
            field(fields, id)->Some_0 is Text),
        },
        match float_field(fields, id) {
            Ok(Some(value)) => field(fields, id) == Some(DataView::Float(value)),
            Ok(None) => field(fields, id) is None,
            Err(error) => error == DemuxError::UnexpectedDataType && field(fields, id) is Some && !(
            field(fields, id)->Some_0 is Float),
        },
        match date_field(fields, id) {
            Ok(Some(value)) => field(fields, id) == Some(DataView::Date(value)),
            Ok(None) => field(fields, id) is None,
            Err(error) => error == DemuxError::UnexpectedDataType && field(fields, id) is Some && !(
            field(fields, id)->Some_0 is Date),
        },
{
}

/// Where a number must not be zero, zero is an error and every other number is found; a flag is set
/// unless its number is zero; and a track type is the one that its number stands for.
pub proof fn law_numbers_are_found_for_what_they_stand_for(
    fields: Fields,
    id: ElementId,
    default: u64,
)
    ensures
        match field(fields, id) {
            None => {
                &&& nonzero_field(fields, id) == Ok::<Option<u64>, DemuxError>(None)
                &&& bool_field(fields, id) == Ok::<Option<bool>, DemuxError>(None)
                &&& track_type_field(fields, id) == Ok::<Option<TrackType>, DemuxError>(None)
                &&& nonzero_field_or(fields, id, default) == if default == 0 {
                    Err::<u64, DemuxError>(DemuxError::NonZeroValueIsZero(id))
                } else {
                    Ok(default)
                }
            },
            Some(DataView::Unsigned(value)) => {
                &&& bool_field(fields, id) == Ok::<Option<bool>, DemuxError>(Some(value != 0))
                &&& track_type_field(fields, id) == Ok::<Option<TrackType>, DemuxError>(
                    Some(TrackType::of_number(value)),
                )
                &&& value != 0 ==> {
                    &&& nonzero_field(fields, id) == Ok::<Option<u64>, DemuxError>(Some(value))
                    &&& nonzero_field_or(fields, id, default) == Ok::<u64, DemuxError>(value)
                }
                &&& value == 0 ==> {
                    &&& nonzero_field(fields, id) == Err::<Option<u64>, DemuxError>(
                        DemuxError::NonZeroValueIsZero(id),
                    )
                    &&& nonzero_field_or(fields, id, default) == Err::<u64, DemuxError>(
                        DemuxError::NonZeroValueIsZero(id),
                    )
                }
            },
            Some(_) => {
                &&& nonzero_field(fields, id) == Err::<Option<u64>, DemuxError>(
                    DemuxError::UnexpectedDataType,
                )
                &&& bool_field(fields, id) == Err::<Option<bool>, DemuxError>(
                    DemuxError::UnexpectedDataType,
                )
                &&& track_type_field(fields, id) == Err::<Option<TrackType>, DemuxError>(
                    DemuxError::UnexpectedDataType,
                )
                &&& nonzero_field_or(fields, id, default) == Err::<u64, DemuxError>(
                    DemuxError::UnexpectedDataType,
                )
            },
        },
{
}

/// The octets that a child tells are found if and only if the source moves there and holds them.
pub proof fn law_octets_are_found(media: Media, fields: Fields, id: ElementId)
    ensures
        match binary_field(media, fields, id) {
            Ok(octets) => {
                &&& gives_octets(media, fields, id, octets)
                &&& fault(media, fields, want(id, Wanted::Octets, false)) is None
            },
            Err(error) => fault(media, fields, want(id, Wanted::Octets, false)) == Some(error),
        },
{
}

/// What has to be there is an error if it is not there; what stands for something if it is not there
/// stands for that and nothing else.
pub proof fn law_absence<T>(
    value: Result<Option<T>, DemuxError>,
    id: ElementId,
    default: T,
    found: T,
    error: DemuxError,
)
    ensures
        value == Ok::<Option<T>, DemuxError>(Some(found)) ==> {
            &&& mandatory(value, id) == Ok::<T, DemuxError>(found)
            &&& defaulted(value, default) == Ok::<T, DemuxError>(found)
        },
        value == Ok::<Option<T>, DemuxError>(None) ==> {
            &&& mandatory(value, id) == Err::<T, DemuxError>(DemuxError::ElementNotFound(id))
            &&& defaulted(value, default) == Ok::<T, DemuxError>(default)
        },
        value == Err::<Option<T>, DemuxError>(error) ==> {
            &&& mandatory(value, id) == Err::<T, DemuxError>(error)
            &&& defaulted(value, default) == Err::<T, DemuxError>(error)
        },
{
}

/// What a list of tracks stands for has the same length and the same tracks in the same order.
pub proof fn law_lists_stand_for_their_tracks(tracks: Seq<TrackEntry>)
    ensures
        track_views(tracks).len() == tracks.len(),
        forall|i: int|
            0 <= i < tracks.len() ==> track_views(tracks)[i] == (#[trigger] tracks[i])@,
{
}

/// An entry can be made if and only if there is an ID of at most 32 bits and a position; the ID comes
/// first if something is wrong with both. It is the entry of the element that has this ID as its
/// number, or of an unknown one if none has; and its position is the one that was given.
pub proof fn law_seek_entry_is_made_of_its_children(media: Media, fields: Fields)
    ensures
        match seek_entry_of(fields) {
            Ok(entry) => {
                &&& gives_number(fields, ElementId::SeekPosition, Some(entry.offset))
                &&& exists|number: u32|
                    gives_number(fields, ElementId::SeekId, Some(number as u64)) && entry.id
                        == #[trigger] ElementId::of_number(number)
            },
            Err(error) => match fault(
                media,
                fields,
                want(ElementId::SeekId, Wanted::Number, true),
            ) {
                Some(cause) => error == cause,
                None => if field(fields, ElementId::SeekId)->Some_0->Unsigned_0 > u32::MAX {
                    error == DemuxError::TryFromIntError
                } else {
                    fault(media, fields, want(ElementId::SeekPosition, Wanted::Number, true))
                        == Some(error)
                },
            },
        },
{
    if let Ok(entry) = seek_entry_of(fields) {
        let id = field(fields, ElementId::SeekId)->Some_0->Unsigned_0;
        assert(entry.id == ElementId::of_number(id as u32));
    }
}

/// A Seek element whose children can be read, and hold an ID of at most 32 bits and a position, gives
/// an entry with that position: for the element that has this ID as its number, and for an unknown
/// element if none has. Every other Seek element whose children can be read gives no entry, and is
/// no error.
pub proof fn law_complete_seek_elements_give_entries(
    media: Media,
    offset: int,
    size: int,
    fields: Fields,
    number: u64,
    position: u64,
)
    requires
        children_at(media, offset, size) matches Ok((children, _)) && children == fields,
    ensures
        ({
            let child = (ElementId::Seek, DataView::Location { offset, size });
            let complete = {
                &&& gives_number(fields, ElementId::SeekId, Some(number))
                &&& gives_number(fields, ElementId::SeekPosition, Some(position))
                &&& number <= u32::MAX
            };
            &&& complete ==> {
                &&& entry_of(media, child) matches Ok(Some(entry))
                &&& entry.offset == position
                &&& forall|id: ElementId| #[trigger] id.number() == number ==> entry.id == id
                &&& (forall|id: ElementId| #[trigger] id.number() != number) ==> entry.id
                    == ElementId::Unknown
            }
            &&& match entry_of(media, child) {
                Ok(Some(entry)) => seek_entry_of(fields) == Ok::<SeekEntry, DemuxError>(entry),
                Ok(None) => seek_entry_of(fields) is Err,
                Err(_) => false,
            }
        }),
{
    if number <= u32::MAX {
        assert forall|id: ElementId| #[trigger] id.number() == number implies ElementId::of_number(
            number as u32,
        ) == id by {
            law_number_names_element(id);
        }
        if forall|id: ElementId| #[trigger] id.number() != number {
            law_other_numbers_are_unknown(number as u32);
        }
    }
}

/// A Seek element whose children cannot be read is an error. Anything that is no Seek element gives
/// no entry, whatever it holds.
pub proof fn law_other_children_give_no_entries(media: Media, id: ElementId, data: DataView)
    ensures
        id != ElementId::Seek || !(data is Location) ==> entry_of(media, (id, data)) == Ok::<
            Option<SeekEntry>,
            DemuxError,
        >(None),
        data matches DataView::Location { offset, size } ==> (id == ElementId::Seek ==> (
        children_at(media, offset, size) matches Err(error) ==> entry_of(media, (id, data)) == Err::<
            Option<SeekEntry>,
            DemuxError,
        >(error))),
{
}

/// What is wrong with a child of a SeekHead element: its children cannot be read, or the position
/// that it lists does not fit into 64 bits.
pub open spec fn listing_fault(
    media: Media,
    segment_data_offset: int,
    child: (ElementId, DataView),
) -> Option<DemuxError> {
    match entry_of(media, child) {
        Err(error) => Some(error),
        Ok(None) => None,
        Ok(Some(entry)) => if segment_data_offset + entry.offset > 0xFFFF_FFFF_FFFF_FFFF {
            Some(DemuxError::OffsetOverflow)
        } else {
            None
        },
    }
}

/// The children of a SeekHead element can be read if and only if nothing is wrong with any of them,
/// and what is wrong with the first wrong one is the error.
pub proof fn law_listing_fails_only_for_a_fault(
    media: Media,
    segment_data_offset: int,
    entries: Fields,
    index: int,
    known: Map<ElementId, int>,
)
    requires
        0 <= index,
    ensures
        match listed_from(media, segment_data_offset, entries, index, known).1 {
            Ok(()) => forall|i: int|
                index <= i < entries.len() ==> listing_fault(
                    media,
                    segment_data_offset,
                    #[trigger] entries[i],
                ) is None,
            Err(error) => exists|i: int|
                {
                    &&& index <= i < entries.len()
                    &&& listing_fault(media, segment_data_offset, #[trigger] entries[i]) == Some(
                        error,
                    )
                    &&& forall|j: int|
                        index <= j < i ==> listing_fault(
                            media,
                            segment_data_offset,
                            #[trigger] entries[j],
                        ) is None
                },
        },
    decreases entries.len() - index,
{
    if index < entries.len() {
        if listing_fault(media, segment_data_offset, entries[index]) is None {
            let known_too = match entry_of(media, entries[index]) {
                Ok(Some(entry)) => known.insert(entry.id, segment_data_offset + entry.offset),
                _ => known,
            };
            law_listing_fails_only_for_a_fault(
                media,
                segment_data_offset,
                entries,
                index + 1,
                known_too,
            );
        }
    }
}

/// What was listed before a fault stays known.
pub proof fn law_listing_keeps_what_came_before_a_fault(
    media: Media,
    segment_data_offset: int,
    entries: Fields,
    index: int,
    known: Map<ElementId, int>,
    fault: int,
)
    requires
        0 <= index <= fault < entries.len(),
        listing_fault(media, segment_data_offset, entries[fault]) is Some,
        forall|j: int|
            index <= j < fault ==> listing_fault(
                media,
                segment_data_offset,
                #[trigger] entries[j],
            ) is None,
    ensures
        listed_from(media, segment_data_offset, entries, index, known).0 == listed_from(
            media,
            segment_data_offset,
            entries.take(fault),
            index,
            known,
        ).0,
    decreases fault - index,
{
    if index < fault {
        assert(entries.take(fault)[index] == entries[index]);
        assert(listing_fault(media, segment_data_offset, entries[index]) is None);
        let known_too = match entry_of(media, entries[index]) {
            Ok(Some(entry)) => known.insert(entry.id, segment_data_offset + entry.offset),
            _ => known,
        };
        law_listing_keeps_what_came_before_a_fault(
            media,
            segment_data_offset,
            entries,
            index + 1,
            known_too,
            fault,
        );
    }
}

} // verus!
