//! Where the top level elements of a segment lie.

use std::collections::HashMap;

use vstd::prelude::*;

use crate::ebml::{children_at, element_at, fields_of, following, header_at, master_at, moved};
use crate::ebml::{collect_children, expect_master, next_element, parse_element_header};
use crate::ebml::{lemma_element_advances, lemma_header_inside, seek_to, walk_past};
use crate::ebml::{DataView, ElementData, Fields};
use crate::element_id::{law_number_names_element, ElementId};
use crate::error::DemuxError;
use crate::fields::{find_unsigned, mandatory, unsigned_field};
use crate::source::{Media, Source};
use crate::vint::UNKNOWN_SIZE;

verus! {

/// An entry in the seek head.
#[derive(Clone, Copy, Debug)]
pub struct SeekEntry {
    /// The element.
    pub id: ElementId,
    /// Its position, counted from the segment data.
    pub offset: u64,
}

/// The entry that the children of a Seek element give.
pub open spec fn seek_entry_of(fields: Fields) -> Result<SeekEntry, DemuxError> {
    match mandatory(unsigned_field(fields, ElementId::SeekId), ElementId::SeekId) {
        Err(error) => Err(error),
        Ok(id) => if id > u32::MAX {
            Err(DemuxError::TryFromIntError)
        } else {
            match mandatory(
                unsigned_field(fields, ElementId::SeekPosition),
                ElementId::SeekPosition,
            ) {
                Err(error) => Err(error),
                Ok(offset) => Ok(SeekEntry { id: ElementId::of_number(id as u32), offset }),
            }
        },
    }
}

impl SeekEntry {
    /// Makes an entry of the children of a Seek element.
    pub fn new(fields: &[(ElementId, ElementData)]) -> (result: Result<SeekEntry, DemuxError>)
        ensures
            result == seek_entry_of(fields_of(fields@)),
    {
        let id: u64 = find_unsigned(fields, ElementId::SeekId)?;
        if id > 0xFFFF_FFFF {
            return Err(DemuxError::TryFromIntError);
        }
        let id = ElementId::from_number(id as u32);
        let offset: u64 = find_unsigned(fields, ElementId::SeekPosition)?;
        Ok(Self { id, offset })
    }
}

/// The positions of elements in the file.
#[derive(Debug)]
pub struct SeekHead {
    positions: HashMap<u32, u64>,
}

impl View for SeekHead {
    type V = Map<ElementId, int>;

    closed spec fn view(&self) -> Map<ElementId, int> {
        Map::new(
            |id: ElementId| self.positions@.contains_key(id.number()),
            |id: ElementId| self.positions@[id.number()] as int,
        )
    }
}

impl Clone for SeekHead {
    fn clone(&self) -> (copy: SeekHead)
        ensures
            copy@ == self@,
    {
        proof {
            use_type_invariant(self);
        }
        SeekHead { positions: self.positions.clone() }
    }
}

impl SeekHead {
    #[verifier::type_invariant]
    spec fn keyed_by_element(self) -> bool {
        forall|number: u32| #[trigger]
            self.positions@.contains_key(number) ==> ElementId::of_number(number).number()
                == number
    }

    /// Makes a seek head without entries.
    pub fn new() -> (seek_head: SeekHead)
        ensures
            seek_head@ == Map::<ElementId, int>::empty(),
    {
        let seek_head = SeekHead { positions: HashMap::new() };
        assert(seek_head@ =~= Map::<ElementId, int>::empty());
        seek_head
    }

    /// Tells whether there is no entry.
    pub fn is_empty(&self) -> (empty: bool)
        ensures
            empty == self@.is_empty(),
    {
        proof {
            use_type_invariant(self);
            if !self.positions@.is_empty() {
                let number = self.positions@.dom().choose();
                assert(self.positions@.contains_key(number));
                assert(self@.contains_key(ElementId::of_number(number)));
            }
            if !self@.is_empty() {
                let id = self@.dom().choose();
                assert(self@.contains_key(id));
                assert(self.positions@.contains_key(id.number()));
            }
        }
        self.positions.is_empty()
    }

    /// Returns the position of an element.
    pub fn get(&self, id: ElementId) -> (position: Option<u64>)
        ensures
            match position {
                Some(position) => self@.contains_key(id) && self@[id] == position,
                None => !self@.contains_key(id),
            },
    {
        broadcast use vstd::std_specs::hash::group_hash_axioms;

        match self.positions.get(&id.to_number()) {
            Some(position) => Some(*position),
            None => None,
        }
    }

    /// Sets the position of an element.
    pub fn insert(&mut self, id: ElementId, position: u64)
        ensures
            final(self)@ == old(self)@.insert(id, position as int),
    {
        broadcast use vstd::std_specs::hash::group_hash_axioms;

        proof {
            use_type_invariant(&*self);
        }
        let mut positions: HashMap<u32, u64> = HashMap::new();
        std::mem::swap(&mut positions, &mut self.positions);
        positions.insert(id.to_number(), position);
        proof {
            law_number_names_element(id);
        }
        self.positions = positions;
        proof {
            assert forall|other: ElementId| other.number() == id.number() implies other == id by {
                law_number_names_element(other);
                law_number_names_element(id);
            }
            assert(self@ =~= old(self)@.insert(id, position as int));
        }
    }
}

/// The data of the SeekHead element, if that is the first element from `offset` on that is not a
/// checksum.
pub open spec fn seek_head_from(media: Media, offset: int) -> Result<
    Option<(int, int)>,
    DemuxError,
>
    decreases media.remaining(offset),
{
    match moved(media, offset) {
        Err(error) => Err(error),
        Ok(position) => match header_at(media, position) {
            Err(error) => Err(error),
            Ok(header) => if header.id == ElementId::SeekHead {
                Ok(Some((header.data, header.size)))
            } else if header.id == ElementId::Crc32 && header.size != UNKNOWN_SIZE {
                proof {
                    lemma_header_inside(media, position);
                }
                seek_head_from(media, header.data + header.size)
            } else {
                Ok(None)
            },
        },
    }
}

/// Seeks the SeekHead element and returns the position and the size of its data when present.
///
/// The first element that is not a CRC-32 element is the SeekHead element if there is one.
pub fn search_seek_head<R: Source>(r: &mut R, segment_data_offset: u64) -> (result: Result<
    Option<(u64, u64)>,
    DemuxError,
>)
    ensures
        final(r).media() == old(r).media(),
        match (result, seek_head_from(old(r).media(), segment_data_offset as int)) {
            (Ok(Some((offset, size))), Ok(Some((place, length)))) => {
                &&& offset == place
                &&& size == length
                &&& final(r).position() == place
            },
            (Ok(None), Ok(None)) => true,
            (Err(error), Err(cause)) => error == cause,
            _ => false,
        },
{
    let ghost media = r.media();
    let mut offset: u64 = segment_data_offset;
    loop
        invariant
            r.media() == media,
            media == old(r).media(),
            seek_head_from(media, offset as int) == seek_head_from(
                media,
                segment_data_offset as int,
            ),
        decreases media.remaining(offset as int),
    {
        proof {
            lemma_header_inside(media, offset as int);
            reveal_with_fuel(seek_head_from, 2);
        }
        let (element_id, size): (ElementId, u64) = parse_element_header(r, Some(offset))?;
        match element_id {
            ElementId::SeekHead => {
                let current_pos: u64 = r.stream_position();
                return Ok(Some((current_pos, size)));
            },
            ElementId::Crc32 => {
                if size == UNKNOWN_SIZE {
                    return Ok(None);
                }
                match r.stream_position().checked_add(size) {
                    Some(next) => offset = next,
                    None => return Err(DemuxError::OffsetOverflow),
                }
            },
            _ => return Ok(None),
        }
    }
}

/// Whether the position of this element is worth knowing.
pub open spec fn is_indexed(id: ElementId) -> bool {
    ||| id == ElementId::Info
    ||| id == ElementId::Tracks
    ||| id == ElementId::Chapters
    ||| id == ElementId::Cues
    ||| id == ElementId::Tags
    ||| id == ElementId::Cluster
}

/// The positions that are known after the element `id` was met at `position`. Of the clusters only
/// the first one counts, of other elements the last one.
pub open spec fn noted(known: Map<ElementId, int>, id: ElementId, position: int) -> Map<
    ElementId,
    int,
> {
    if is_indexed(id) && (id != ElementId::Cluster || !known.contains_key(ElementId::Cluster)) {
        known.insert(id, position)
    } else {
        known
    }
}

/// The positions that are known after a walk along the top level elements from `position` on, and
/// how the walk ended. It ends well at the first element that cannot be read, and behind the first
/// element of unknown size.
pub open spec fn walked_from(media: Media, position: int, known: Map<ElementId, int>) -> (
    Map<ElementId, int>,
    Result<(), DemuxError>,
)
    decreases media.remaining(position),
{
    match element_at(media, position) {
        Err(_) => (known, Ok(())),
        Ok(element) => {
            let known = noted(known, element.id, position);
            match following(media, element) {
                Err(error) => (known, Err(error)),
                Ok(None) => (known, Ok(())),
                Ok(Some(next)) => {
                    proof {
                        lemma_element_advances(media, position);
                    }
                    walked_from(media, next, known)
                },
            }
        },
    }
}

/// Build a SeekHead by parsing the top level entries.
pub fn build_seek_head<R: Source>(
    r: &mut R,
    segment_data_offset: u64,
    seek_head: &mut SeekHead,
) -> (result: Result<(), DemuxError>)
    ensures
        final(r).media() == old(r).media(),
        match moved(old(r).media(), segment_data_offset as int) {
            Err(error) => result == Err::<(), DemuxError>(error) && final(seek_head)@ == old(
                seek_head,
            )@,
            Ok(position) => (final(seek_head)@, result) == walked_from(
                old(r).media(),
                position,
                old(seek_head)@,
            ),
        },
{
    seek_to(r, segment_data_offset)?;
    let ghost media = r.media();
    let ghost walk = walked_from(media, segment_data_offset as int, seek_head@);
    loop
        invariant_except_break
            walk == walked_from(media, r.position() as int, seek_head@),
        invariant
            r.media() == media,
            media == old(r).media(),
            moved(media, segment_data_offset as int) == Ok::<int, DemuxError>(
                segment_data_offset as int,
            ),
            walk == walked_from(media, segment_data_offset as int, old(seek_head)@),
        ensures
            walk == (seek_head@, Ok::<(), DemuxError>(())),
        decreases media.remaining(r.position() as int),
    {
        let position: u64 = r.stream_position();
        proof {
            lemma_element_advances(media, position as int);
        }
        match next_element(r) {
            Ok((element_id, element_data)) => {
                let ghost element = element_at(media, position as int)->Ok_0;
                if element_id == ElementId::Info || element_id == ElementId::Tracks || element_id
                    == ElementId::Chapters || element_id == ElementId::Cues || element_id
                    == ElementId::Tags || element_id == ElementId::Cluster {
                    // We only need the first cluster entry.
                    if element_id != ElementId::Cluster || seek_head.get(
                        ElementId::Cluster,
                    ).is_none() {
                        seek_head.insert(element_id, position);
                    }
                }
                if !walk_past(r, &element_data, Ghost(element))? {
                    // No path left to walk on this level.
                    break ;
                }
            },
            Err(_) => {
                // EOF or damaged file. We will stop looking for top level entries.
                break ;
            },
        }
    }
    Ok(())
}

/// The position of the first cluster among the elements from `position` on.
pub open spec fn cluster_from(media: Media, position: int) -> Result<int, DemuxError>
    decreases media.remaining(position),
{
    match element_at(media, position) {
        Err(_) => Err(DemuxError::CantFindCluster),
        Ok(element) => if element.id == ElementId::Cluster {
            match element.data {
                DataView::Location { .. } => Ok(position),
                _ => Err(DemuxError::UnexpectedDataType),
            }
        } else {
            match following(media, element) {
                Err(error) => Err(error),
                Ok(None) => Err(DemuxError::CantFindCluster),
                Ok(Some(next)) => {
                    proof {
                        lemma_element_advances(media, position);
                    }
                    cluster_from(media, next)
                },
            }
        },
    }
}

/// The position of the first cluster behind the tracks.
pub open spec fn first_cluster(media: Media, known: Map<ElementId, int>) -> Result<
    int,
    DemuxError,
> {
    if !known.contains_key(ElementId::Tracks) {
        Err(DemuxError::CantFindCluster)
    } else {
        match moved(media, known[ElementId::Tracks]) {
            Err(error) => Err(error),
            Ok(tracks) => match master_at(media, tracks, ElementId::Tracks) {
                Err(error) => Err(error),
                Ok((offset, size)) => match moved(media, offset + size) {
                    Err(error) => Err(error),
                    Ok(position) => cluster_from(media, position),
                },
            },
        }
    }
}

/// Tries to find the offset of the first cluster and save it in the SeekHead.
pub fn find_first_cluster_offset<R: Source>(
    r: &mut R,
    _segment_offset: u64,
    seek_head: &mut SeekHead,
) -> (result: Result<(), DemuxError>)
    ensures
        final(r).media() == old(r).media(),
        match (result, first_cluster(old(r).media(), old(seek_head)@)) {
            (Ok(()), Ok(position)) => final(seek_head)@ == old(seek_head)@.insert(
                ElementId::Cluster,
                position,
            ),
            (Err(error), Err(cause)) => error == cause && final(seek_head)@ == old(seek_head)@,
            _ => false,
        },
{
    let (tracks_offset, tracks_size): (u64, u64) = if let Some(offset) = seek_head.get(
        ElementId::Tracks,
    ) {
        expect_master(r, ElementId::Tracks, Some(offset))?
    } else {
        return Err(DemuxError::CantFindCluster);
    };
    match tracks_offset.checked_add(tracks_size) {
        Some(end) => seek_to(r, end)?,
        None => return Err(DemuxError::OffsetOverflow),
    }
    let ghost media = r.media();
    let ghost start = r.position() as int;
    loop
        invariant
            r.media() == media,
            media == old(r).media(),
            seek_head@ == old(seek_head)@,
            cluster_from(media, r.position() as int) == cluster_from(media, start),
            first_cluster(media, old(seek_head)@) == cluster_from(media, start),
        decreases media.remaining(r.position() as int),
    {
        let position: u64 = r.stream_position();
        proof {
            lemma_element_advances(media, position as int);
        }
        match next_element(r) {
            Ok((element_id, element_data)) => {
                let ghost element = element_at(media, position as int)->Ok_0;
                if let ElementId::Cluster = element_id {
                    if let ElementData::Location { .. } = element_data {
                        seek_head.insert(ElementId::Cluster, position);
                        return Ok(());
                    } else {
                        return Err(DemuxError::UnexpectedDataType);
                    }
                }
                if !walk_past(r, &element_data, Ghost(element))? {
                    // No path left to walk on this level.
                    return Err(DemuxError::CantFindCluster);
                }
            },
            Err(_) => {
                // EOF or damaged file. We will stop looking for top level entries.
                return Err(DemuxError::CantFindCluster);
            },
        }
    }
}

/// The entry that a child of a SeekHead element gives. A child that is no Seek element, or that is
/// incomplete, gives none.
pub open spec fn entry_of(media: Media, child: (ElementId, DataView)) -> Result<
    Option<SeekEntry>,
    DemuxError,
> {
    match child {
        (ElementId::Seek, DataView::Location { offset, size }) => match children_at(
            media,
            offset,
            size,
        ) {
            Err(error) => Err(error),
            Ok((fields, _)) => match seek_entry_of(fields) {
                Err(_) => Ok(None),
                Ok(entry) => Ok(Some(entry)),
            },
        },
        _ => Ok(None),
    }
}

/// The positions that are known after the children of a SeekHead element, from the one at `index`
/// on, were read, and how that ended.
pub open spec fn listed_from(
    media: Media,
    segment_data_offset: int,
    entries: Fields,
    index: int,
    known: Map<ElementId, int>,
) -> (Map<ElementId, int>, Result<(), DemuxError>)
    decreases entries.len() - index,
{
    if index >= entries.len() {
        (known, Ok(()))
    } else {
        match entry_of(media, entries[index]) {
            Err(error) => (known, Err(error)),
            Ok(None) => listed_from(media, segment_data_offset, entries, index + 1, known),
            Ok(Some(entry)) => if segment_data_offset + entry.offset > u64::MAX {
                (known, Err(DemuxError::OffsetOverflow))
            } else {
                listed_from(
                    media,
                    segment_data_offset,
                    entries,
                    index + 1,
                    known.insert(entry.id, segment_data_offset + entry.offset),
                )
            },
        }
    }
}

/// Enters what the children of a SeekHead element list.
pub fn read_seek_entries<R: Source>(
    r: &mut R,
    segment_data_offset: u64,
    entries: &[(ElementId, ElementData)],
    seek_head: &mut SeekHead,
) -> (result: Result<(), DemuxError>)
    ensures
        final(r).media() == old(r).media(),
        (final(seek_head)@, result) == listed_from(
            old(r).media(),
            segment_data_offset as int,
            fields_of(entries@),
            0,
            old(seek_head)@,
        ),
{
    let ghost media = r.media();
    let ghost fields = fields_of(entries@);
    let mut index: usize = 0;
    while index < entries.len()
        invariant
            index <= entries@.len(),
            r.media() == media,
            media == old(r).media(),
            fields == fields_of(entries@),
            listed_from(media, segment_data_offset as int, fields, index as int, seek_head@)
                == listed_from(media, segment_data_offset as int, fields, 0, old(seek_head)@),
        decreases entries@.len() - index,
    {
        assert(fields[index as int] == (entries@[index as int].0, entries@[index as int].1@));
        let entry = &entries[index];
        if let ElementId::Seek = entry.0 {
            if let ElementData::Location { offset, size } = &entry.1 {
                let seek_fields = collect_children(r, *offset, *size)?;
                if let Ok(seek_entry) = SeekEntry::new(seek_fields.as_slice()) {
                    match segment_data_offset.checked_add(seek_entry.offset) {
                        Some(position) => seek_head.insert(seek_entry.id, position),
                        None => return Err(DemuxError::OffsetOverflow),
                    }
                }
            }
        }
        index = index + 1;
    }
    Ok(())
}

} // verus!
