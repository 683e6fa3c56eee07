//! Looking up the children of a master element.

use vstd::prelude::*;

use crate::ebml::{fields_of, moved, DataView, ElementData, Fields};
use crate::element_id::ElementId;
use crate::enums::TrackType;
use crate::error::DemuxError;
use crate::number::{Float, NonZeroU64};
use crate::source::{Media, Source};

verus! {

/// The data of the first element `id` of `fields`.
pub open spec fn field(fields: Fields, id: ElementId) -> Option<DataView>
    decreases fields.len(),
{
    if fields.len() == 0 {
        None
    } else if fields[0].0 == id {
        Some(fields[0].1)
    } else {
        field(fields.drop_first(), id)
    }
}

/// The value of an element that has to be there.
pub open spec fn mandatory<T>(value: Result<Option<T>, DemuxError>, id: ElementId) -> Result<
    T,
    DemuxError,
> {
    match value {
        Ok(Some(value)) => Ok(value),
        Ok(None) => Err(DemuxError::ElementNotFound(id)),
        Err(error) => Err(error),
    }
}

/// The value of an element that stands for `default` if it is not there.
pub open spec fn defaulted<T>(value: Result<Option<T>, DemuxError>, default: T) -> Result<
    T,
    DemuxError,
> {
    match value {
        Ok(Some(value)) => Ok(value),
        Ok(None) => Ok(default),
        Err(error) => Err(error),
    }
}

/// The number of an optional element.
pub open spec fn unsigned_field(fields: Fields, id: ElementId) -> Result<Option<u64>, DemuxError> {
    match field(fields, id) {
        None => Ok(None),
        Some(DataView::Unsigned(value)) => Ok(Some(value)),
        Some(_) => Err(DemuxError::UnexpectedDataType),
    }
}

/// The number of an optional element that must not be zero.
pub open spec fn nonzero_field(fields: Fields, id: ElementId) -> Result<Option<u64>, DemuxError> {
    match unsigned_field(fields, id) {
        Ok(Some(value)) if value == 0 => Err(DemuxError::NonZeroValueIsZero(id)),
        other => other,
    }
}

/// The number of an element that must not be zero, and that stands for `default` if it is not there.
pub open spec fn nonzero_field_or(fields: Fields, id: ElementId, default: u64) -> Result<
    u64,
    DemuxError,
> {
    match defaulted(unsigned_field(fields, id), default) {
        Ok(value) if value == 0 => Err(DemuxError::NonZeroValueIsZero(id)),
        other => other,
    }
}

/// The flag that an optional element holds: set unless its number is zero.
pub open spec fn bool_field(fields: Fields, id: ElementId) -> Result<Option<bool>, DemuxError> {
    match unsigned_field(fields, id) {
        Ok(Some(value)) => Ok(Some(value != 0)),
        Ok(None) => Ok(None),
        Err(error) => Err(error),
    }
}

/// The track type that an optional element holds.
pub open spec fn track_type_field(fields: Fields, id: ElementId) -> Result<
    Option<TrackType>,
    DemuxError,
> {
    match unsigned_field(fields, id) {
        Ok(Some(value)) => Ok(Some(TrackType::of_number(value))),
        Ok(None) => Ok(None),
        Err(error) => Err(error),
    }
}

/// The floating point number of an optional element.
pub open spec fn float_field(fields: Fields, id: ElementId) -> Result<Option<Float>, DemuxError> {
    match field(fields, id) {
        None => Ok(None),
        Some(DataView::Float(value)) => Ok(Some(value)),
        Some(_) => Err(DemuxError::UnexpectedDataType),
    }
}

/// The date of an optional element.
pub open spec fn date_field(fields: Fields, id: ElementId) -> Result<Option<i64>, DemuxError> {
    match field(fields, id) {
        None => Ok(None),
        Some(DataView::Date(value)) => Ok(Some(value)),
        Some(_) => Err(DemuxError::UnexpectedDataType),
    }
}

/// The characters of an optional element.
pub open spec fn string_field(fields: Fields, id: ElementId) -> Result<
    Option<Seq<char>>,
    DemuxError,
> {
    match field(fields, id) {
        None => Ok(None),
        Some(DataView::Text(value)) => Ok(Some(value)),
        Some(_) => Err(DemuxError::UnexpectedDataType),
    }
}

/// The octets of an optional element whose data was only located.
pub open spec fn binary_field(media: Media, fields: Fields, id: ElementId) -> Result<
    Option<Seq<u8>>,
    DemuxError,
> {
    match field(fields, id) {
        None => Ok(None),
        Some(DataView::Location { offset, size }) => match moved(media, offset) {
            Err(error) => Err(error),
            Ok(position) => match media.read(position, size) {
                Err(failure) => Err(DemuxError::IoError(failure)),
                Ok(octets) => Ok(Some(octets)),
            },
        },
        Some(_) => Err(DemuxError::UnexpectedDataType),
    }
}

fn find_field(fields: &[(ElementId, ElementData)], id: ElementId) -> (data: Option<&ElementData>)
    ensures
        match (data, field(fields_of(fields@), id)) {
            (Some(data), Some(view)) => data@ == view,
            (None, None) => true,
            _ => false,
        },
{
    let mut next: usize = 0;
    assert(fields_of(fields@).skip(0) =~= fields_of(fields@));
    while next < fields.len()
        invariant
            next <= fields@.len(),
            field(fields_of(fields@), id) == field(fields_of(fields@).skip(next as int), id),
        decreases fields@.len() - next,
    {
        assert(fields_of(fields@).skip(next as int)[0] == (
            fields@[next as int].0,
            fields@[next as int].1@,
        ));
        if fields[next].0 == id {
            return Some(&fields[next].1);
        }
        assert(fields_of(fields@).skip(next as int).drop_first() =~= fields_of(fields@).skip(
            next + 1,
        ));
        next = next + 1;
    }
    None
}

/// Finds the number of an optional element.
pub fn try_find_unsigned(fields: &[(ElementId, ElementData)], id: ElementId) -> (result: Result<
    Option<u64>,
    DemuxError,
>)
    ensures
        result == unsigned_field(fields_of(fields@), id),
{
    match find_field(fields, id) {
        None => Ok(None),
        Some(ElementData::Unsigned(value)) => Ok(Some(*value)),
        Some(_) => Err(DemuxError::UnexpectedDataType),
    }
}

/// Finds the number of a mandatory element.
pub fn find_unsigned(fields: &[(ElementId, ElementData)], id: ElementId) -> (result: Result<
    u64,
    DemuxError,
>)
    ensures
        result == mandatory(unsigned_field(fields_of(fields@), id), id),
{
    match try_find_unsigned(fields, id)? {
        Some(value) => Ok(value),
        None => Err(DemuxError::ElementNotFound(id)),
    }
}

/// Finds the number of an optional element that must not be zero.
pub fn try_find_nonzero(fields: &[(ElementId, ElementData)], id: ElementId) -> (result: Result<
    Option<NonZeroU64>,
    DemuxError,
>)
    ensures
        match (result, nonzero_field(fields_of(fields@), id)) {
            (Ok(Some(value)), Ok(Some(found))) => value@ == found,
            (Ok(None), Ok(None)) => true,
            (Err(error), Err(cause)) => error == cause,
            _ => false,
        },
{
    match try_find_unsigned(fields, id)? {
        Some(value) => match NonZeroU64::new(value) {
            Some(value) => Ok(Some(value)),
            None => Err(DemuxError::NonZeroValueIsZero(id)),
        },
        None => Ok(None),
    }
}

/// Finds the number of a mandatory element that must not be zero.
pub fn find_nonzero(fields: &[(ElementId, ElementData)], id: ElementId) -> (result: Result<
    NonZeroU64,
    DemuxError,
>)
    ensures
        match (result, mandatory(nonzero_field(fields_of(fields@), id), id)) {
            (Ok(value), Ok(found)) => value@ == found,
            (Err(error), Err(cause)) => error == cause,
            _ => false,
        },
{
    match try_find_nonzero(fields, id)? {
        Some(value) => Ok(value),
        None => Err(DemuxError::ElementNotFound(id)),
    }
}

/// Finds the number of an element that must not be zero, and that stands for `default` if it is not
/// there.
pub fn find_nonzero_or(
    fields: &[(ElementId, ElementData)],
    id: ElementId,
    default: u64,
) -> (result: Result<NonZeroU64, DemuxError>)
    ensures
        match (result, nonzero_field_or(fields_of(fields@), id, default)) {
            (Ok(value), Ok(found)) => value@ == found,
            (Err(error), Err(cause)) => error == cause,
            _ => false,
        },
{
    let value: u64 = match try_find_unsigned(fields, id)? {
        Some(value) => value,
        None => default,
    };
    match NonZeroU64::new(value) {
        Some(value) => Ok(value),
        None => Err(DemuxError::NonZeroValueIsZero(id)),
    }
}

/// Finds a flag, which is `default` if its element is not there.
pub fn find_bool_or(
    fields: &[(ElementId, ElementData)],
    id: ElementId,
    default: bool,
) -> (result: Result<bool, DemuxError>)
    ensures
        result == defaulted(bool_field(fields_of(fields@), id), default),
{
    match try_find_unsigned(fields, id)? {
        Some(value) => Ok(value != 0),
        None => Ok(default),
    }
}

/// Finds the track type that a mandatory element holds.
pub fn find_track_type(fields: &[(ElementId, ElementData)], id: ElementId) -> (result: Result<
    TrackType,
    DemuxError,
>)
    ensures
        result == mandatory(track_type_field(fields_of(fields@), id), id),
{
    let value: u64 = find_unsigned(fields, id)?;
    Ok(TrackType::from_number(value))
}

/// Finds the floating point number of an optional element.
pub fn try_find_float(fields: &[(ElementId, ElementData)], id: ElementId) -> (result: Result<
    Option<Float>,
    DemuxError,
>)
    ensures
        result == float_field(fields_of(fields@), id),
{
    match find_field(fields, id) {
        None => Ok(None),
        Some(ElementData::Float(value)) => Ok(Some(*value)),
        Some(_) => Err(DemuxError::UnexpectedDataType),
    }
}

/// Finds the date of an optional element.
pub fn try_find_date(fields: &[(ElementId, ElementData)], id: ElementId) -> (result: Result<
    Option<i64>,
    DemuxError,
>)
    ensures
        result == date_field(fields_of(fields@), id),
{
    match find_field(fields, id) {
        None => Ok(None),
        Some(ElementData::Date(value)) => Ok(Some(*value)),
        Some(_) => Err(DemuxError::UnexpectedDataType),
    }
}

/// Finds the string of an optional element.
pub fn try_find_string(fields: &[(ElementId, ElementData)], id: ElementId) -> (result: Result<
    Option<String>,
    DemuxError,
>)
    ensures
        match (result, string_field(fields_of(fields@), id)) {
            (Ok(Some(value)), Ok(Some(found))) => value@ == found,
            (Ok(None), Ok(None)) => true,
            (Err(error), Err(cause)) => error == cause,
            _ => false,
        },
{
    match find_field(fields, id) {
        None => Ok(None),
        Some(ElementData::Text(value)) => Ok(Some(value.clone())),
        Some(_) => Err(DemuxError::UnexpectedDataType),
    }
}

/// Finds the string of a mandatory element.
pub fn find_string(fields: &[(ElementId, ElementData)], id: ElementId) -> (result: Result<
    String,
    DemuxError,
>)
    ensures
        match (result, mandatory(string_field(fields_of(fields@), id), id)) {
            (Ok(value), Ok(found)) => value@ == found,
            (Err(error), Err(cause)) => error == cause,
            _ => false,
        },
{
    match try_find_string(fields, id)? {
        Some(value) => Ok(value),
        None => Err(DemuxError::ElementNotFound(id)),
    }
}

/// Finds an optional element whose data was only located, and reads its data.
pub fn try_find_binary<R: Source>(
    r: &mut R,
    fields: &[(ElementId, ElementData)],
    id: ElementId,
) -> (result: Result<Option<Vec<u8>>, DemuxError>)
    ensures
        final(r).media() == old(r).media(),
        match (result, binary_field(old(r).media(), fields_of(fields@), id)) {
            (Ok(Some(octets)), Ok(Some(found))) => octets@ == found,
            (Ok(None), Ok(None)) => true,
            (Err(error), Err(cause)) => error == cause,
            _ => false,
        },
{
    match find_field(fields, id) {
        None => Ok(None),
        Some(ElementData::Location { offset, size }) => {
            match r.seek(*offset) {
                Ok(()) => {},
                Err(failure) => return Err(DemuxError::IoError(failure)),
            }
            match r.read_exact(*size) {
                Ok(octets) => Ok(Some(octets)),
                Err(failure) => Err(DemuxError::IoError(failure)),
            }
        },
        Some(_) => Err(DemuxError::UnexpectedDataType),
    }
}

} // verus!
