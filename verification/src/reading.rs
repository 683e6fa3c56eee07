//! What holds of the reading of octets, numbers and elements.

use vstd::arithmetic::power::{lemma_pow0, lemma_pow1, lemma_pow_adds, pow};
use vstd::arithmetic::power2::{lemma2_to64, lemma_pow2_adds, pow2};
use vstd::prelude::*;
use vstd::utf8::{decode_utf8, valid_utf8};

use crate::ebml::{children_at, children_from, element_at, fields_of, following, header_at};
use crate::ebml::{lemma_element_advances, lemma_header_inside, master_at, moved, signed_value};
use crate::ebml::{start_at, DataView, Element, ElementData, Fields};
use crate::element_id::{law_element_has_number, ElementId};
use crate::error::{DemuxError, IoFailure};
use crate::laws::{law_header_is_read_back, number_width};
use crate::number::{be_value, lemma_be_counts, lemma_be_value_bound, Float};
use crate::shift::is_intact;
use crate::source::Media;
use crate::vint::{id_at, lemma_vint_range, size_at, vint_count, vint_width, UNKNOWN_SIZE};

verus! {

/// Reading gives as many octets as were asked for, those that lie at the position. It fails if the
/// source refuses it, and otherwise if and only if not all of these octets lie inside the file.
/// Nothing can always be read.
pub proof fn law_read_gives_what_lies_there(media: Media, position: int, length: int)
    requires
        0 <= length,
    ensures
        match media.read(position, length) {
            Ok(octets) => {
                &&& octets.len() == length
                &&& length > 0 ==> 0 <= position && position + length <= media.octets.len()
                &&& length > 0 ==> !(media.read_refused)(position, length)
                &&& forall|i: int|
                    0 <= i < length ==> #[trigger] octets[i] == media.octets[position + i]
            },
            Err(IoFailure::Refused) => length > 0 && (media.read_refused)(position, length),
            Err(IoFailure::UnexpectedEof) => {
                &&& length > 0
                &&& !(media.read_refused)(position, length)
                &&& position < 0 || position + length > media.octets.len()
            },
        },
{
}

/// No octets give zero, and one octet gives itself.
pub proof fn law_number_of_one_octet(octet: u8)
    ensures
        be_value(Seq::empty()) == 0,
        be_value(seq![octet]) == octet,
{
    assert(seq![octet].drop_last() =~= Seq::empty());
    reveal_with_fuel(be_value, 2);
}

/// Octets that are put in front of others count for as much more as the others have places.
pub proof fn law_numbers_are_put_together(front: Seq<u8>, back: Seq<u8>)
    ensures
        be_value(front + back) == be_value(front) * pow(256, back.len()) + be_value(back),
    decreases back.len(),
{
    if back.len() == 0 {
        assert(front + back =~= front);
        lemma_pow0(256);
        assert(be_value(front) * 1 == be_value(front)) by (nonlinear_arith);
    } else {
        let shorter = back.drop_last();
        law_numbers_are_put_together(front, shorter);
        assert((front + back).drop_last() =~= front + shorter);
        lemma_pow_adds(256, shorter.len(), 1);
        lemma_pow1(256);
        let value = be_value(front) as int;
        let place = pow(256, shorter.len());
        assert((value * place) * 256 == value * (place * 256)) by (nonlinear_arith);
    }
}

/// A date is the two's complement of its octets: of the 64 bit numbers it is the one that differs
/// from their unsigned value by a multiple of all that 64 bits can count.
pub proof fn law_dates_are_twos_complement(octets: Seq<u8>, date: i64)
    requires
        octets.len() <= 8,
        (date - be_value(octets)) % 0x1_0000_0000_0000_0000 == 0,
    ensures
        signed_value(octets) == date,
{
    lemma_be_value_bound(octets);
    lemma_be_counts(octets.len());
}

/// Whether an octet is the first one of a variable length number of this length: its highest bit
/// that is set is the one in this place.
pub open spec fn announces(first: u8, width: int) -> bool {
    &&& 1 <= width <= 8
    &&& pow2((8 - width) as nat) <= first < pow2((9 - width) as nat)
}

proof fn lemma_announced_width(first: u8, width: int)
    requires
        announces(first, width),
    ensures
        vint_width(first) == width,
{
    lemma2_to64();
}

/// An octet announces one length, unless it is zero.
pub proof fn law_every_octet_announces_a_length(first: u8)
    ensures
        first != 0 ==> announces(first, vint_width(first)),
        forall|a: int, b: int| #[trigger]
            announces(first, a) && #[trigger] announces(first, b) ==> a == b,
{
    lemma2_to64();
}

/// An element ID is the number that all its octets give, one to four as the first one announces.
pub proof fn law_ids_are_read(media: Media, position: int, width: int)
    requires
        width <= 4,
        0 <= position < media.octets.len(),
        announces(media.octets[position], width),
        position + width <= media.octets.len(),
        !(media.read_refused)(position, 1),
        width > 1 ==> !(media.read_refused)(position + 1, width - 1),
    ensures
        id_at(media, position) matches Ok((number, next)) && next == position + width && number
            == be_value(media.octets.subrange(position, position + width)),
{
    lemma_announced_width(media.octets[position], width);
    let first = media.read(position, 1)->Ok_0;
    let rest = media.read(position + 1, width - 1)->Ok_0;
    let octets = media.octets.subrange(position, position + width);
    assert(first + rest =~= octets);
    lemma_be_value_bound(octets);
    lemma_be_counts(octets.len());
}

/// An element size is the number that its octets give without the marking bit, one to eight as the
/// first one announces. If all bits behind the marking bit are set, the size is not known.
pub proof fn law_sizes_are_read(media: Media, position: int, width: int)
    requires
        0 <= position < media.octets.len(),
        announces(media.octets[position], width),
        position + width <= media.octets.len(),
        !(media.read_refused)(position, 1),
        width > 1 ==> !(media.read_refused)(position + 1, width - 1),
    ensures
        size_at(media, position) matches Ok((size, next)) && {
            let value = be_value(media.octets.subrange(position, position + width));
            let marker = pow2((7 * width) as nat);
            &&& next == position + width
            &&& marker <= value < 2 * marker
            &&& size == if value == 2 * marker - 1 {
                0xFFFF_FFFF_FFFF_FFFF
            } else {
                value - marker
            }
        },
{
    lemma_announced_width(media.octets[position], width);
    let first = media.read(position, 1)->Ok_0;
    let rest = media.read(position + 1, width - 1)->Ok_0;
    let octets = media.octets.subrange(position, position + width);
    assert(first + rest =~= octets);
    lemma_vint_range(octets);
    lemma_marker(width);
}

proof fn lemma_marker(width: int)
    requires
        0 <= width <= 8,
    ensures
        vint_count(width) == pow2((7 * width) as nat),
    decreases width,
{
    lemma2_to64();
    if width > 0 {
        lemma_marker(width - 1);
        lemma_pow2_adds((7 * (width - 1)) as nat, 7);
    }
}

/// An ID that announces more than four octets is an error, and a size that announces more than eight.
/// What cannot be read because the source fails is that failure.
pub proof fn law_numbers_that_cannot_be_read(media: Media, position: int, width: int)
    ensures
        media.read(position, 1) matches Err(failure) ==> {
            &&& id_at(media, position) == Err::<(u32, int), DemuxError>(
                DemuxError::IoError(failure),
            )
            &&& size_at(media, position) == Err::<(int, int), DemuxError>(
                DemuxError::IoError(failure),
            )
        },
        media.read(position, 1) matches Ok(first) ==> {
            &&& first[0] < 0x10 ==> id_at(media, position) == Err::<(u32, int), DemuxError>(
                DemuxError::InvalidEbmlElementId,
            )
            &&& first[0] == 0 ==> size_at(media, position) == Err::<(int, int), DemuxError>(
                DemuxError::InvalidEbmlDataSize,
            )
            &&& announces(first[0], width) ==> (media.read(position + 1, width - 1) matches Err(
                failure,
            ) ==> {
                &&& width <= 4 ==> id_at(media, position) == Err::<(u32, int), DemuxError>(
                    DemuxError::IoError(failure),
                )
                &&& size_at(media, position) == Err::<(int, int), DemuxError>(
                    DemuxError::IoError(failure),
                )
            })
        },
{
    if let Ok(first) = media.read(position, 1) {
        if announces(first[0], width) {
            lemma_announced_width(first[0], width);
        }
    }
}

/// The elements of the Matroska format have these numbers.
pub proof fn law_element_numbers()
    ensures
        ElementId::Unknown.number() == 0,
        ElementId::Ebml.number() == 0x1A45_DFA3,
        ElementId::EbmlVersion.number() == 0x4286,
        ElementId::EbmlReadVersion.number() == 0x42F7,
        ElementId::EbmlMaxIdLength.number() == 0x42F2,
        ElementId::EbmlMaxSizeLength.number() == 0x42F3,
        ElementId::DocType.number() == 0x4282,
        ElementId::DocTypeVersion.number() == 0x4287,
        ElementId::DocTypeReadVersion.number() == 0x4285,
        ElementId::Crc32.number() == 0xBF,
        ElementId::Segment.number() == 0x1853_8067,
        ElementId::SeekHead.number() == 0x114D_9B74,
        ElementId::Seek.number() == 0x4DBB,
        ElementId::SeekId.number() == 0x53AB,
        ElementId::SeekPosition.number() == 0x53AC,
        ElementId::Info.number() == 0x1549_A966,
        ElementId::TimestampScale.number() == 0x2A_D7B1,
        ElementId::Duration.number() == 0x4489,
        ElementId::DateUtc.number() == 0x4461,
        ElementId::Title.number() == 0x7BA9,
        ElementId::MuxingApp.number() == 0x4D80,
        ElementId::WritingApp.number() == 0x5741,
        ElementId::Cluster.number() == 0x1F43_B675,
        ElementId::Tracks.number() == 0x1654_AE6B,
        ElementId::TrackEntry.number() == 0xAE,
        ElementId::TrackNumber.number() == 0xD7,
        ElementId::TrackUid.number() == 0x73C5,
        ElementId::TrackType.number() == 0x83,
        ElementId::FlagEnabled.number() == 0xB9,
        ElementId::FlagDefault.number() == 0x88,
        ElementId::FlagForced.number() == 0x55AA,
        ElementId::FlagLacing.number() == 0x9C,
        ElementId::DefaultDuration.number() == 0x23_E383,
        ElementId::Name.number() == 0x536E,
        ElementId::Language.number() == 0x22_B59C,
        ElementId::CodecId.number() == 0x86,
        ElementId::CodecPrivate.number() == 0x63A2,
        ElementId::CodecName.number() == 0x25_8688,
        ElementId::CodecDelay.number() == 0x56AA,
        ElementId::SeekPreRoll.number() == 0x56BB,
        ElementId::Cues.number() == 0x1C53_BB6B,
        ElementId::Chapters.number() == 0x1043_A770,
        ElementId::Tags.number() == 0x1254_C367,
{
}

/// A number that no element has is that of an element which the demuxer does not know.
pub proof fn law_other_numbers_are_unknown(number: u32)
    requires
        forall|id: ElementId| #[trigger] id.number() != number,
    ensures
        ElementId::of_number(number) == ElementId::Unknown,
{
    if ElementId::of_number(number) != ElementId::Unknown {
        law_element_has_number(number);
    }
}

/// A header is an ID and behind it a size. If the ID cannot be read that is the error, otherwise if
/// the size cannot be read. The data lies behind the size, and the ID names the element.
pub proof fn law_a_header_is_an_id_and_a_size(media: Media, position: int)
    ensures
        match header_at(media, position) {
            Ok(header) => exists|behind: int|
                {
                    &&& id_at(media, position) matches Ok((number, next)) && next == behind
                        && header.id == ElementId::of_number(number)
                    &&& #[trigger] size_at(media, behind) == Ok::<(int, int), DemuxError>(
                        (header.size, header.data),
                    )
                },
            Err(error) => match id_at(media, position) {
                Err(cause) => error == cause,
                Ok((_, behind)) => size_at(media, behind) == Err::<(int, int), DemuxError>(error),
            },
        },
{
    reveal(header_at);
}

/// A master element is found if its header can be read and names it. If the header names another
/// element, the error tells both.
pub proof fn law_masters_are_expected(media: Media, position: int, expected: ElementId)
    ensures
        match master_at(media, position, expected) {
            Ok((offset, size)) => header_at(media, position) matches Ok(header) && header.id
                == expected && header.data == offset && header.size == size,
            Err(error) => match header_at(media, position) {
                Ok(header) => header.id != expected && error == (DemuxError::UnexpectedElement {
                    expected,
                    found: header.id,
                }),
                Err(cause) => error == cause,
            },
        },
{
}

/// A move leads where it should, unless no position of 64 bits does or the source refuses it.
pub proof fn law_moves_lead_there(media: Media, position: int)
    ensures
        moved(media, position) matches Ok(reached) ==> reached == position,
        moved(media, position) is Ok <==> position <= u64::MAX && !(media.seek_refused)(position),
        moved(media, position) matches Err(error) ==> error == if position > u64::MAX {
            DemuxError::OffsetOverflow
        } else {
            DemuxError::IoError(IoFailure::Refused)
        },
{
}

/// Reading starts at the place that is asked for, or where the source stands.
pub proof fn law_reading_starts_where_asked(media: Media, position: int, offset: u64)
    ensures
        start_at(media, position, None) == Ok::<int, DemuxError>(position),
        start_at(media, position, Some(offset)) == moved(media, offset as int),
{
}

/// Whether these elements hold an unsigned number.
pub open spec fn holds_number(id: ElementId) -> bool {
    ||| id == ElementId::EbmlVersion
    ||| id == ElementId::EbmlReadVersion
    ||| id == ElementId::EbmlMaxIdLength
    ||| id == ElementId::EbmlMaxSizeLength
    ||| id == ElementId::DocTypeVersion
    ||| id == ElementId::DocTypeReadVersion
    ||| id == ElementId::SeekId
    ||| id == ElementId::SeekPosition
    ||| id == ElementId::TimestampScale
    ||| id == ElementId::TrackNumber
    ||| id == ElementId::TrackUid
    ||| id == ElementId::TrackType
    ||| id == ElementId::FlagEnabled
    ||| id == ElementId::FlagDefault
    ||| id == ElementId::FlagForced
    ||| id == ElementId::FlagLacing
    ||| id == ElementId::DefaultDuration
    ||| id == ElementId::CodecDelay
    ||| id == ElementId::SeekPreRoll
}

/// Whether these elements hold a string.
pub open spec fn holds_string(id: ElementId) -> bool {
    ||| id == ElementId::DocType
    ||| id == ElementId::Title
    ||| id == ElementId::MuxingApp
    ||| id == ElementId::WritingApp
    ||| id == ElementId::Name
    ||| id == ElementId::Language
    ||| id == ElementId::CodecId
    ||| id == ElementId::CodecName
}

/// The data of a version, a length, a flag or any other number is the unsigned number that its octets
/// give, and at most eight of them.
pub proof fn law_numbers_are_read(media: Media, position: int)
    ensures
        header_at(media, position) matches Ok(header) ==> (holds_number(header.id) ==> {
            if header.size > 8 {
                element_at(media, position) == Err::<Element, DemuxError>(
                    DemuxError::InvalidEbmlDataSize,
                )
            } else {
                match media.read(header.data, header.size) {
                    Err(failure) => element_at(media, position) == Err::<Element, DemuxError>(
                        DemuxError::IoError(failure),
                    ),
                    Ok(octets) => {
                        &&& element_at(media, position) matches Ok(element)
                        &&& element.id == header.id
                        &&& element.data matches DataView::Unsigned(value)
                        &&& value == be_value(octets)
                        &&& element.next == header.data + header.size
                    },
                }
            }
        }),
{
    reveal(element_at);
    lemma_header_inside(media, position);
    if let Ok(header) = header_at(media, position) {
        if let Ok(octets) = media.read(header.data, header.size) {
            if header.size <= 8 {
                lemma_be_value_bound(octets);
                lemma_be_counts(octets.len());
            }
        }
    }
}

/// The data of a type, a name, a title, a language, a codec or an application is the string that its
/// octets encode in UTF-8.
pub proof fn law_strings_are_read(media: Media, position: int)
    ensures
        header_at(media, position) matches Ok(header) ==> (holds_string(header.id) ==> {
            match media.read(header.data, header.size) {
                Err(failure) => element_at(media, position) == Err::<Element, DemuxError>(
                    DemuxError::IoError(failure),
                ),
                Ok(octets) => if valid_utf8(octets) {
                    &&& element_at(media, position) matches Ok(element)
                    &&& element.id == header.id
                    &&& element.data == DataView::Text(decode_utf8(octets))
                    &&& element.next == header.data + header.size
                } else {
                    element_at(media, position) == Err::<Element, DemuxError>(
                        DemuxError::FromUtf8Error,
                    )
                },
            }
        }),
{
    reveal(element_at);
}

/// The duration is a floating point number of four or eight octets, or zero if there are none.
pub proof fn law_durations_are_read(media: Media, position: int)
    ensures
        header_at(media, position) matches Ok(header) ==> (header.id == ElementId::Duration ==> {
            if header.size != 0 && header.size != 4 && header.size != 8 {
                element_at(media, position) == Err::<Element, DemuxError>(
                    DemuxError::InvalidEbmlDataSize,
                )
            } else {
                match media.read(header.data, header.size) {
                    Err(failure) => element_at(media, position) == Err::<Element, DemuxError>(
                        DemuxError::IoError(failure),
                    ),
                    Ok(octets) => {
                        &&& element_at(media, position) matches Ok(element)
                        &&& element.id == header.id
                        &&& element.next == header.data + header.size
                        &&& match element.data {
                            DataView::Float(Float::Single(bits)) => header.size == 4 && bits
                                == be_value(octets),
                            DataView::Float(Float::Double(bits)) => header.size != 4 && bits
                                == be_value(octets),
                            _ => false,
                        }
                    },
                }
            }
        }),
{
    reveal(element_at);
    lemma_header_inside(media, position);
    if let Ok(header) = header_at(media, position) {
        if let Ok(octets) = media.read(header.data, header.size) {
            if header.size <= 8 {
                lemma_be_value_bound(octets);
                lemma_be_counts(octets.len());
            }
        }
    }
}

/// The date is a signed number of eight octets in two's complement, or zero if there are none: a
/// date that was written as the unsigned number that differs from it by a multiple of all that 64
/// bits can count is read back.
pub proof fn law_dates_are_read(media: Media, position: int, date: i64)
    ensures
        header_at(media, position) matches Ok(header) ==> (header.id == ElementId::DateUtc ==> {
            if header.size != 0 && header.size != 8 {
                element_at(media, position) == Err::<Element, DemuxError>(
                    DemuxError::InvalidEbmlDataSize,
                )
            } else {
                match media.read(header.data, header.size) {
                    Err(failure) => element_at(media, position) == Err::<Element, DemuxError>(
                        DemuxError::IoError(failure),
                    ),
                    Ok(octets) => (date - be_value(octets)) % 0x1_0000_0000_0000_0000 == 0 ==> {
                        &&& element_at(media, position) matches Ok(element)
                        &&& element.id == header.id
                        &&& element.data == DataView::Date(date)
                        &&& element.next == header.data + header.size
                    },
                }
            }
        }),
{
    reveal(element_at);
    lemma_header_inside(media, position);
    if let Ok(header) = header_at(media, position) {
        if let Ok(octets) = media.read(header.data, header.size) {
            if header.size <= 8 && (date - be_value(octets)) % 0x1_0000_0000_0000_0000 == 0 {
                law_dates_are_twos_complement(octets, date);
            }
        }
    }
}

/// The data of all other elements is not read: it is told where it lies. These are the elements that
/// hold elements, checksums, private data, and what the demuxer does not know.
pub proof fn law_other_data_is_located(media: Media, position: int)
    ensures
        header_at(media, position) matches Ok(header) ==> ({
            &&& !holds_number(header.id)
            &&& !holds_string(header.id)
            &&& header.id != ElementId::Duration
            &&& header.id != ElementId::DateUtc
        } ==> element_at(media, position) == Ok::<Element, DemuxError>(
            (Element {
                id: header.id,
                data: DataView::Location { offset: header.data, size: header.size },
                next: header.data,
            }),
        )),
        header_at(media, position) matches Err(error) ==> element_at(media, position) == Err::<
            Element,
            DemuxError,
        >(error),
{
    reveal(element_at);
}

/// An element that was written as its number, the size of its data and the data is read back, in a
/// source that refuses nothing: as the unsigned number, the string or the date that was written, or
/// by the place of its data.
pub proof fn law_written_elements_are_read_back(
    media: Media,
    position: int,
    id: ElementId,
    width: int,
    size: int,
    date: i64,
)
    requires
        is_intact(media),
        id != ElementId::Unknown,
        1 <= width <= 8,
        0 <= size < vint_count(width) - 1,
        0 <= position,
        position + number_width(id.number()) + width + size <= media.octets.len(),
        be_value(
            media.octets.subrange(position, position + number_width(id.number())),
        ) == id.number(),
        be_value(
            media.octets.subrange(
                position + number_width(id.number()),
                position + number_width(id.number()) + width,
            ),
        ) == vint_count(width) + size,
    ensures
        ({
            let place = position + number_width(id.number()) + width;
            let data = media.octets.subrange(place, place + size);
            &&& holds_number(id) && size <= 8 ==> {
                &&& element_at(media, position) matches Ok(element)
                &&& element.id == id
                &&& element.data matches DataView::Unsigned(value)
                &&& value == be_value(data)
            }
            &&& holds_string(id) && valid_utf8(data) ==> {
                &&& element_at(media, position) matches Ok(element)
                &&& element.id == id
                &&& element.data == DataView::Text(decode_utf8(data))
            }
            &&& id == ElementId::DateUtc && size == 8 && (date - be_value(data))
                % 0x1_0000_0000_0000_0000 == 0 ==> {
                &&& element_at(media, position) matches Ok(element)
                &&& element.id == id
                &&& element.data == DataView::Date(date)
            }
            &&& !holds_number(id) && !holds_string(id) && id != ElementId::DateUtc && id
                != ElementId::Duration ==> {
                &&& element_at(media, position) matches Ok(element)
                &&& element.id == id
                &&& element.data == DataView::Location { offset: place, size }
            }
        }),
{
    let place = position + number_width(id.number()) + width;
    law_header_is_read_back(media, position, id, width, size);
    law_numbers_are_read(media, position);
    law_strings_are_read(media, position);
    law_dates_are_read(media, position, date);
    law_other_data_is_located(media, position);
    assert(media.octets.subrange(place, place) =~= Seq::empty());
}

/// What follows an element lies behind its data. If only the place of the data is known, that needs
/// a move; and nothing follows data of unknown size.
pub proof fn law_elements_follow_each_other(media: Media, position: int)
    ensures
        element_at(media, position) matches Ok(element) ==> (header_at(media, position) matches Ok(
            header,
        ) && (if element.data is Location {
            if header.size == 0xFFFF_FFFF_FFFF_FFFF {
                following(media, element) == Ok::<Option<int>, DemuxError>(None)
            } else {
                match moved(media, header.data + header.size) {
                    Ok(next) => following(media, element) == Ok::<Option<int>, DemuxError>(
                        Some(next),
                    ),
                    Err(error) => following(media, element) == Err::<Option<int>, DemuxError>(error),
                }
            }
        } else {
            following(media, element) == Ok::<Option<int>, DemuxError>(
                Some(header.data + header.size),
            )
        })),
{
    reveal(element_at);
}

/// What a list of elements stands for has the same length, and the same elements in the same order.
pub proof fn law_lists_stand_for_their_elements(children: Seq<(ElementId, ElementData)>)
    ensures
        fields_of(children).len() == children.len(),
        forall|i: int|
            #![trigger children[i]]
            0 <= i < children.len() ==> fields_of(children)[i].0 == children[i].0 && match (
                children[i].1,
                fields_of(children)[i].1,
            ) {
                (ElementData::Unsigned(value), DataView::Unsigned(view)) => value == view,
                (ElementData::Float(value), DataView::Float(view)) => value == view,
                (ElementData::Date(value), DataView::Date(view)) => value == view,
                (ElementData::Text(value), DataView::Text(view)) => value@ == view,
                (
                    ElementData::Location { offset, size },
                    DataView::Location { offset: place, size: length },
                ) => offset == place && size == length,
                _ => false,
            },
{
}

/// Whether an element that can be read stands at `place`, and `next` follows it.
pub open spec fn leads_to(media: Media, place: int, next: int) -> bool {
    &&& element_at(media, place) matches Ok(element)
    &&& following(media, element) == Ok::<Option<int>, DemuxError>(Some(next))
}

/// Whether elements that can be read stand at these places, and each place follows the one before it.
pub open spec fn stand_in_line(media: Media, places: Seq<int>) -> bool {
    forall|i: int|
        0 <= i < places.len() - 1 ==> leads_to(media, #[trigger] places[i], places[i + 1])
}

/// The elements at these places.
pub open spec fn elements_in_line(media: Media, places: Seq<int>) -> Fields {
    places.map_values(
        |place: int|
            {
                let element = element_at(media, place)->Ok_0;
                (element.id, element.data)
            },
    )
}

proof fn lemma_children_in_line(media: Media, end: int, places: Seq<int>)
    requires
        places.len() > 0,
        stand_in_line(media, places),
        forall|i: int| 0 <= i < places.len() - 1 ==> #[trigger] places[i] < end,
    ensures
        match children_from(media, places.last(), end) {
            Err(error) => children_from(media, places[0], end) == Err::<(Fields, int), DemuxError>(
                error,
            ),
            Ok((others, behind)) => children_from(media, places[0], end) == Ok::<
                (Fields, int),
                DemuxError,
            >((elements_in_line(media, places.drop_last()) + others, behind)),
        },
    decreases places.len(),
{
    if places.len() == 1 {
        assert(elements_in_line(media, places.drop_last()) =~= Seq::empty());
        if let Ok((others, _)) = children_from(media, places[0], end) {
            assert(Seq::<(ElementId, DataView)>::empty() + others =~= others);
        }
    } else {
        let rest = places.drop_first();
        assert forall|i: int| 0 <= i < rest.len() - 1 implies leads_to(
            media,
            #[trigger] rest[i],
            rest[i + 1],
        ) by {
            assert(rest[i] == places[i + 1]);
        }
        assert forall|i: int| 0 <= i < rest.len() - 1 implies #[trigger] rest[i] < end by {
            assert(rest[i] == places[i + 1]);
        }
        lemma_children_in_line(media, end, rest);
        lemma_element_advances(media, places[0]);
        let element = element_at(media, places[0])->Ok_0;
        let child = seq![(element.id, element.data)];
        assert(rest.last() == places.last());
        if let Ok((others, _)) = children_from(media, places.last(), end) {
            assert(child + (elements_in_line(media, rest.drop_last()) + others)
                =~= elements_in_line(media, places.drop_last()) + others);
        }
    }
}

/// Elements that stand in line from the start of the data of a master element to its end, or over it,
/// are its children, in this order. Reading them ends behind the last one.
pub proof fn law_children_are_read(media: Media, offset: int, size: int, places: Seq<int>)
    requires
        moved(media, offset) is Ok,
        offset + size <= u64::MAX,
        places.len() > 0,
        places[0] == offset,
        stand_in_line(media, places),
        forall|i: int| 0 <= i < places.len() - 1 ==> #[trigger] places[i] < offset + size,
        places.last() >= offset + size,
    ensures
        children_at(media, offset, size) == Ok::<(Fields, int), DemuxError>(
            (elements_in_line(media, places.drop_last()), places.last()),
        ),
{
    lemma_children_in_line(media, offset + size, places);
    let children = elements_in_line(media, places.drop_last());
    assert(children + Seq::empty() =~= children);
}

/// A child of unknown size is the last one.
pub proof fn law_child_of_unknown_size_is_the_last(
    media: Media,
    offset: int,
    size: int,
    places: Seq<int>,
)
    requires
        moved(media, offset) is Ok,
        offset + size <= u64::MAX,
        places.len() > 0,
        places[0] == offset,
        stand_in_line(media, places),
        forall|i: int| 0 <= i < places.len() ==> #[trigger] places[i] < offset + size,
        element_at(media, places.last()) matches Ok(element) && following(media, element) == Ok::<
            Option<int>,
            DemuxError,
        >(None),
    ensures
        children_at(media, offset, size) == Ok::<(Fields, int), DemuxError>(
            (elements_in_line(media, places), element_at(media, places.last())->Ok_0.next),
        ),
{
    lemma_children_in_line(media, offset + size, places);
    let element = element_at(media, places.last())->Ok_0;
    assert(elements_in_line(media, places.drop_last()) + seq![(element.id, element.data)]
        =~= elements_in_line(media, places));
}

/// If one of the children cannot be read, or nothing can be read behind it, that is the error, however
/// many could be read before it. Data that ends behind all positions, or to which the source refuses
/// to move, has no children that can be read.
pub proof fn law_children_that_cannot_be_read(
    media: Media,
    offset: int,
    size: int,
    places: Seq<int>,
)
    ensures
        offset + size > u64::MAX ==> children_at(media, offset, size) == Err::<
            (Fields, int),
            DemuxError,
        >(DemuxError::OffsetOverflow),
        offset + size <= u64::MAX ==> (moved(media, offset) matches Err(error) ==> children_at(
            media,
            offset,
            size,
        ) == Err::<(Fields, int), DemuxError>(error)),
        ({
            &&& moved(media, offset) is Ok
            &&& offset + size <= u64::MAX
            &&& places.len() > 0
            &&& places[0] == offset
            &&& stand_in_line(media, places)
            &&& forall|i: int| 0 <= i < places.len() ==> #[trigger] places[i] < offset + size
        }) ==> match element_at(media, places.last()) {
            Err(error) => children_at(media, offset, size) == Err::<(Fields, int), DemuxError>(
                error,
            ),
            Ok(element) => following(media, element) matches Err(error) ==> children_at(
                media,
                offset,
                size,
            ) == Err::<(Fields, int), DemuxError>(error),
        },
{
    if {
        &&& moved(media, offset) is Ok
        &&& offset + size <= u64::MAX
        &&& places.len() > 0
        &&& places[0] == offset
        &&& stand_in_line(media, places)
        &&& forall|i: int| 0 <= i < places.len() ==> #[trigger] places[i] < offset + size
    } {
        lemma_children_in_line(media, offset + size, places);
    }
}

/// A size that is not known is the largest number of 64 bits.
pub proof fn law_unknown_size()
    ensures
        UNKNOWN_SIZE == u64::MAX,
{
}

} // verus!
