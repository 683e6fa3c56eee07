//! A basic EBML parser: elements, their data and their children.

use vstd::prelude::*;
use vstd::utf8::{decode_utf8, valid_utf8};

use crate::element_id::{ElementId, ElementType};
use crate::error::{DemuxError, IoFailure};
use crate::number::{be_number, be_value, Float};
use crate::number::{lemma_be_counts, lemma_be_value_bound};
use crate::source::{Media, Source};
use crate::vint::{id_at, parse_id, parse_size, size_at, UNKNOWN_SIZE};
use crate::vint::{lemma_vint_range, vint_width};

verus! {

/// The data of an element.
#[derive(Clone, Debug)]
pub enum ElementData {
    /// An unsigned number.
    Unsigned(u64),
    /// A floating point number.
    Float(Float),
    /// A date, in nanoseconds since the start of the third millennium.
    Date(i64),
    /// A string.
    Text(String),
    /// Where the data of a master or binary element lies.
    Location {
        /// The position of the data in the file.
        offset: u64,
        /// The size of the data.
        size: u64,
    },
}

/// What [`ElementData`] stands for.
pub enum DataView {
    /// An unsigned number.
    Unsigned(u64),
    /// A floating point number.
    Float(Float),
    /// A date.
    Date(i64),
    /// The characters of a string.
    Text(Seq<char>),
    /// Where the data lies.
    Location {
        /// The position of the data in the file.
        offset: int,
        /// The size of the data.
        size: int,
    },
}

impl View for ElementData {
    type V = DataView;

    open spec fn view(&self) -> DataView {
        match *self {
            ElementData::Unsigned(value) => DataView::Unsigned(value),
            ElementData::Float(value) => DataView::Float(value),
            ElementData::Date(value) => DataView::Date(value),
            ElementData::Text(value) => DataView::Text(value@),
            ElementData::Location { offset, size } => DataView::Location {
                offset: offset as int,
                size: size as int,
            },
        }
    }
}

/// Elements with what their data stands for.
pub type Fields = Seq<(ElementId, DataView)>;

/// What a list of elements stands for.
pub open spec fn fields_of(children: Seq<(ElementId, ElementData)>) -> Fields {
    children.map_values(|child: (ElementId, ElementData)| (child.0, child.1@))
}

/// The ID and the size of an element, and where its data starts.
pub struct Header {
    /// The element.
    pub id: ElementId,
    /// The size of its data.
    pub size: int,
    /// The position of its data.
    pub data: int,
}

/// An element, and the position behind what was read of it.
pub struct Element {
    /// The element.
    pub id: ElementId,
    /// Its data.
    pub data: DataView,
    /// The position behind its data, or behind its size if the data was only located.
    pub next: int,
}

/// The position to which a move to `position` leads.
pub open spec fn moved(media: Media, position: int) -> Result<int, DemuxError> {
    if position > u64::MAX {
        Err(DemuxError::OffsetOverflow)
    } else if (media.seek_refused)(position) {
        Err(DemuxError::IoError(IoFailure::Refused))
    } else {
        Ok(position)
    }
}

/// The header of the element at `position`.
#[verifier::opaque]
pub open spec fn header_at(media: Media, position: int) -> Result<Header, DemuxError> {
    match id_at(media, position) {
        Err(error) => Err(error),
        Ok((number, behind_id)) => match size_at(media, behind_id) {
            Err(error) => Err(error),
            Ok((size, data)) => Ok(Header { id: ElementId::of_number(number), size, data }),
        },
    }
}

/// Where to start: at `offset`, or at `position` if there is no `offset`.
pub open spec fn start_at(media: Media, position: int, offset: Option<u64>) -> Result<
    int,
    DemuxError,
> {
    match offset {
        None => Ok(position),
        Some(offset) => moved(media, offset as int),
    }
}

/// Where the data of the master element `expected` lies, and its size, if that is the element at
/// `position`.
pub open spec fn master_at(media: Media, position: int, expected: ElementId) -> Result<
    (int, int),
    DemuxError,
> {
    match header_at(media, position) {
        Err(error) => Err(error),
        Ok(header) => if header.id == expected {
            Ok((header.data, header.size))
        } else {
            Err(DemuxError::UnexpectedElement { expected, found: header.id })
        },
    }
}

/// The signed number that eight octets give as two's complement.
pub open spec fn signed_value(octets: Seq<u8>) -> int {
    if be_value(octets) < 0x8000_0000_0000_0000 {
        be_value(octets) as int
    } else {
        be_value(octets) - 0x1_0000_0000_0000_0000
    }
}

/// The data that `octets` stand for, if the data of an element of this type is read at all.
pub open spec fn decoded(kind: ElementType, octets: Seq<u8>) -> Result<DataView, DemuxError> {
    match kind {
        ElementType::Unsigned => Ok(DataView::Unsigned(be_value(octets) as u64)),
        ElementType::Float => if octets.len() == 4 {
            Ok(DataView::Float(Float::Single(be_value(octets) as u32)))
        } else {
            Ok(DataView::Float(Float::Double(be_value(octets) as u64)))
        },
        ElementType::Date => Ok(DataView::Date(signed_value(octets) as i64)),
        _ => if valid_utf8(octets) {
            Ok(DataView::Text(decode_utf8(octets)))
        } else {
            Err(DemuxError::FromUtf8Error)
        },
    }
}

/// Whether data of this size can be data of this type.
pub open spec fn size_fits(kind: ElementType, size: int) -> bool {
    match kind {
        ElementType::Unsigned => size <= 8,
        ElementType::Float => size == 0 || size == 4 || size == 8,
        ElementType::Date => size == 0 || size == 8,
        _ => true,
    }
}

/// The element at `position`. The data of master and binary elements is located, other data is
/// read.
#[verifier::opaque]
pub open spec fn element_at(media: Media, position: int) -> Result<Element, DemuxError> {
    match header_at(media, position) {
        Err(error) => Err(error),
        Ok(header) => {
            let kind = header.id.kind();
            if kind == ElementType::Master || kind == ElementType::Binary {
                Ok(
                    Element {
                        id: header.id,
                        data: DataView::Location { offset: header.data, size: header.size },
                        next: header.data,
                    },
                )
            } else if !size_fits(kind, header.size) {
                Err(DemuxError::InvalidEbmlDataSize)
            } else {
                match media.read(header.data, header.size) {
                    Err(failure) => Err(DemuxError::IoError(failure)),
                    Ok(octets) => match decoded(kind, octets) {
                        Err(error) => Err(error),
                        Ok(data) => Ok(
                            Element { id: header.id, data, next: header.data + header.size },
                        ),
                    },
                }
            }
        },
    }
}

/// The position of the element that follows `element`, which is behind the data if the data was
/// only located; none if the size of the data is not known.
pub open spec fn following(media: Media, element: Element) -> Result<Option<int>, DemuxError> {
    match element.data {
        DataView::Location { offset, size } => if size == UNKNOWN_SIZE {
            Ok(None)
        } else {
            match moved(media, offset + size) {
                Err(error) => Err(error),
                Ok(position) => Ok(Some(position)),
            }
        },
        _ => Ok(Some(element.next)),
    }
}

/// A header lies inside the file, takes at least two octets, and announces a size of 64 bits.
pub proof fn lemma_header_inside(media: Media, position: int)
    ensures
        header_at(media, position) matches Ok(header) ==> {
            &&& 0 <= position
            &&& position + 2 <= header.data <= media.octets.len()
            &&& 0 <= header.size <= u64::MAX
        },
{
    reveal(header_at);
    if let Ok((number, behind_id)) = id_at(media, position) {
        if let Ok((size, data)) = size_at(media, behind_id) {
            let first = media.read(behind_id, 1)->Ok_0;
            let width = vint_width(first[0]);
            let rest = media.read(behind_id + 1, width - 1)->Ok_0;
            assert((first + rest)[0] == first[0]);
            assert((first + rest).len() == width);
            lemma_vint_range(first + rest);
        }
    }
}

/// What is read of an element lies inside the file, and whatever follows an element lies behind it.
pub proof fn lemma_element_advances(media: Media, position: int)
    ensures
        element_at(media, position) matches Ok(element) ==> {
            &&& 0 <= position
            &&& position + 2 <= element.next <= media.octets.len()
            &&& element.data matches DataView::Location { offset, size } ==> offset == element.next
                && 0 <= size <= u64::MAX
            &&& following(media, element) matches Ok(Some(next)) ==> next >= position + 2
        },
{
    reveal(element_at);
    lemma_header_inside(media, position);
}

/// The elements from `position` on, up to the first one that starts at `end` or behind it, or that
/// follows an element of unknown size; and the position behind what was read.
pub open spec fn children_from(media: Media, position: int, end: int) -> Result<
    (Fields, int),
    DemuxError,
>
    decreases media.remaining(position),
{
    if position >= end {
        Ok((Seq::empty(), position))
    } else {
        match element_at(media, position) {
            Err(error) => Err(error),
            Ok(element) => {
                let child = seq![(element.id, element.data)];
                match following(media, element) {
                    Err(error) => Err(error),
                    Ok(None) => Ok((child, element.next)),
                    Ok(Some(next)) => {
                        proof {
                            lemma_element_advances(media, position);
                        }
                        match children_from(media, next, end) {
                            Err(error) => Err(error),
                            Ok((others, behind)) => Ok((child + others, behind)),
                        }
                    },
                }
            },
        }
    }
}

/// The children of a master element whose data has the given place and size, and the position
/// behind what was read.
pub open spec fn children_at(media: Media, offset: int, size: int) -> Result<
    (Fields, int),
    DemuxError,
> {
    if offset + size > u64::MAX {
        Err(DemuxError::OffsetOverflow)
    } else {
        match moved(media, offset) {
            Err(error) => Err(error),
            Ok(position) => children_from(media, position, offset + size),
        }
    }
}

/// Moves to `position`.
pub(crate) fn seek_to<R: Source>(r: &mut R, position: u64) -> (result: Result<(), DemuxError>)
    ensures
        final(r).media() == old(r).media(),
        match (result, moved(old(r).media(), position as int)) {
            (Ok(()), Ok(reached)) => final(r).position() == reached,
            (Err(error), Err(cause)) => error == cause,
            _ => false,
        },
{
    match r.seek(position) {
        Ok(()) => Ok(()),
        Err(failure) => Err(DemuxError::IoError(failure)),
    }
}

/// Reads the ID and the size of the element at `offset`, or at the current position if there is no
/// `offset`.
pub fn parse_element_header<R: Source>(r: &mut R, offset: Option<u64>) -> (result: Result<
    (ElementId, u64),
    DemuxError,
>)
    ensures
        final(r).media() == old(r).media(),
        match start_at(old(r).media(), old(r).position() as int, offset) {
            Err(cause) => result == Err::<(ElementId, u64), DemuxError>(cause),
            Ok(start) => match (result, header_at(old(r).media(), start)) {
                (Ok((id, size)), Ok(header)) => {
                    &&& id == header.id
                    &&& size == header.size
                    &&& final(r).position() == header.data
                },
                (Err(error), Err(cause)) => error == cause,
                _ => false,
            },
        },
{
    proof {
        reveal(header_at);
    }
    if let Some(offset) = offset {
        seek_to(r, offset)?;
    }
    let number: u32 = parse_id(r)?;
    let size: u64 = parse_size(r)?;
    Ok((ElementId::from_number(number), size))
}

/// Expects a master element at `offset`, or at the current position if there is no `offset`.
/// Returns the position and the size of its data.
pub fn expect_master<R: Source>(
    r: &mut R,
    expected_id: ElementId,
    offset: Option<u64>,
) -> (result: Result<(u64, u64), DemuxError>)
    ensures
        final(r).media() == old(r).media(),
        match start_at(old(r).media(), old(r).position() as int, offset) {
            Err(cause) => result == Err::<(u64, u64), DemuxError>(cause),
            Ok(start) => match (result, master_at(old(r).media(), start, expected_id)) {
                (Ok((data, size)), Ok((place, length))) => {
                    &&& data == place
                    &&& size == length
                    &&& final(r).position() == place
                },
                (Err(error), Err(cause)) => error == cause,
                _ => false,
            },
        },
{
    let (element_id, size): (ElementId, u64) = parse_element_header(r, offset)?;
    if element_id != expected_id {
        return Err(DemuxError::UnexpectedElement { expected: expected_id, found: element_id });
    }
    Ok((r.stream_position(), size))
}

/// `String::from_utf8`: gives the string that the octets encode, and fails if and only if they are
/// not valid UTF-8.
#[verifier::external_body]
fn string_from_utf8(octets: Vec<u8>) -> (result: Option<String>)
    ensures
        match result {
            Some(string) => valid_utf8(octets@) && string@ == decode_utf8(octets@),
            None => !valid_utf8(octets@),
        },
{
    String::from_utf8(octets).ok()
}

/// Reads eight octets as a signed number in two's complement.
fn signed_number(octets: &Vec<u8>) -> (number: i64)
    requires
        octets@.len() <= 8,
    ensures
        number == signed_value(octets@),
{
    let number: u64 = be_number(octets);
    if number < 0x8000_0000_0000_0000 {
        number as i64
    } else {
        (number - 0x8000_0000_0000_0000) as i64 - 0x7FFF_FFFF_FFFF_FFFF - 1
    }
}

/// Turns the data of an element that is neither a master nor a binary element into a value.
fn decode(element_type: ElementType, octets: Vec<u8>) -> (result: Result<
    ElementData,
    DemuxError,
>)
    requires
        size_fits(element_type, octets@.len() as int),
    ensures
        match (result, decoded(element_type, octets@)) {
            (Ok(data), Ok(view)) => data@ == view,
            (Err(error), Err(cause)) => error == cause,
            _ => false,
        },
{
    match element_type {
        ElementType::Unsigned => Ok(ElementData::Unsigned(be_number(&octets))),
        ElementType::Float => {
            let bits: u64 = be_number(&octets);
            if octets.len() == 4 {
                proof {
                    lemma_be_value_bound(octets@);
                    lemma_be_counts(octets@.len());
                }
                Ok(ElementData::Float(Float::Single(bits as u32)))
            } else {
                Ok(ElementData::Float(Float::Double(bits)))
            }
        },
        ElementType::Date => Ok(ElementData::Date(signed_number(&octets))),
        _ => match string_from_utf8(octets) {
            Some(string) => Ok(ElementData::Text(string)),
            None => Err(DemuxError::FromUtf8Error),
        },
    }
}

/// Tells whether data of this size can be data of this type.
fn fits(element_type: ElementType, size: u64) -> (fits: bool)
    ensures
        fits == size_fits(element_type, size as int),
{
    match element_type {
        ElementType::Unsigned => size <= 8,
        ElementType::Float => size == 0 || size == 4 || size == 8,
        ElementType::Date => size == 0 || size == 8,
        _ => true,
    }
}

/// Reads the element at the current position. The data of master and binary elements is located,
/// other data is read.
pub fn next_element<R: Source>(r: &mut R) -> (result: Result<(ElementId, ElementData), DemuxError>)
    ensures
        final(r).media() == old(r).media(),
        match (result, element_at(old(r).media(), old(r).position() as int)) {
            (Ok((id, data)), Ok(element)) => {
                &&& id == element.id
                &&& data@ == element.data
                &&& final(r).position() == element.next
            },
            (Err(error), Err(cause)) => error == cause,
            _ => false,
        },
{
    proof {
        reveal(element_at);
    }
    let (id, size): (ElementId, u64) = parse_element_header(r, None)?;
    let element_type = id.element_type();
    if element_type == ElementType::Master || element_type == ElementType::Binary {
        return Ok((id, ElementData::Location { offset: r.stream_position(), size }));
    }
    if !fits(element_type, size) {
        return Err(DemuxError::InvalidEbmlDataSize);
    }
    match r.read_exact(size) {
        Ok(octets) => {
            let data = decode(element_type, octets)?;
            Ok((id, data))
        },
        Err(failure) => Err(DemuxError::IoError(failure)),
    }
}

/// Moves behind the data of the element that was just read. Returns whether there is a way: there
/// is none if the size of the data is not known.
pub(crate) fn walk_past<R: Source>(
    r: &mut R,
    data: &ElementData,
    Ghost(element): Ghost<Element>,
) -> (result: Result<bool, DemuxError>)
    requires
        data@ == element.data,
        old(r).position() == element.next,
    ensures
        final(r).media() == old(r).media(),
        match (result, following(old(r).media(), element)) {
            (Ok(true), Ok(Some(next))) => final(r).position() == next,
            (Ok(false), Ok(None)) => final(r).position() == element.next,
            (Err(error), Err(cause)) => error == cause,
            _ => false,
        },
{
    if let ElementData::Location { offset, size } = data {
        if *size == UNKNOWN_SIZE {
            return Ok(false);
        }
        match offset.checked_add(*size) {
            Some(end) => seek_to(r, end)?,
            None => return Err(DemuxError::OffsetOverflow),
        }
    }
    Ok(true)
}

/// Reads the children of the master element whose data has the given place and size.
pub fn collect_children<R: Source>(r: &mut R, offset: u64, size: u64) -> (result: Result<
    Vec<(ElementId, ElementData)>,
    DemuxError,
>)
    ensures
        final(r).media() == old(r).media(),
        match (result, children_at(old(r).media(), offset as int, size as int)) {
            (Ok(children), Ok((fields, next))) => {
                &&& fields_of(children@) == fields
                &&& final(r).position() == next
            },
            (Err(error), Err(cause)) => error == cause,
            _ => false,
        },
{
    let end: u64 = match offset.checked_add(size) {
        Some(end) => end,
        None => return Err(DemuxError::OffsetOverflow),
    };
    seek_to(r, offset)?;
    let mut children: Vec<(ElementId, ElementData)> = Vec::new();
    let ghost media = r.media();
    let ghost all = children_at(media, offset as int, size as int);
    assert(fields_of(children@) =~= Seq::empty());
    while r.stream_position() < end
        invariant
            r.media() == media,
            media == old(r).media(),
            all == children_at(media, offset as int, size as int),
            match children_from(media, r.position() as int, end as int) {
                Ok((others, behind)) => all == Ok::<(Fields, int), DemuxError>(
                    (fields_of(children@) + others, behind),
                ),
                Err(error) => all == Err::<(Fields, int), DemuxError>(error),
            },
        decreases media.remaining(r.position() as int),
    {
        let ghost position = r.position() as int;
        let ghost known = fields_of(children@);
        proof {
            lemma_element_advances(media, position);
        }
        let (id, data): (ElementId, ElementData) = next_element(r)?;
        let ghost element = element_at(media, position)->Ok_0;
        let more: bool = walk_past(r, &data, Ghost(element))?;
        children.push((id, data));
        assert(fields_of(children@) =~= known.push((element.id, element.data)));
        proof {
            let child = seq![(element.id, element.data)];
            if more {
                let next = r.position() as int;
                if let Ok((others, behind)) = children_from(media, next, end as int) {
                    assert(known + (child + others) =~= fields_of(children@) + others);
                }
            } else {
                assert(known + child =~= fields_of(children@));
            }
        }
        if !more {
            return Ok(children);
        }
    }
    assert(fields_of(children@) + Seq::empty() =~= fields_of(children@));
    Ok(children)
}

} // verus!
