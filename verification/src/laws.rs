//! What holds of the demuxer as a whole.

use vstd::prelude::*;

use crate::ebml::{element_at, following, header_at, lemma_element_advances, lemma_header_inside};
use crate::ebml::{children_at, master_at, DataView, Fields, Header};
use crate::element_id::{law_number_names_element, ElementId};
use crate::error::{DemuxError, IoFailure};
use crate::fields::field;
use crate::file::{indexed_positions, known_children, known_positions, listed_positions};
use crate::file::{opened, tracks_from, MatroskaFileView};
use crate::header::{ebml_header_at, ebml_header_of, EbmlHeaderView};
use crate::info::info_of;
use crate::number::{be_count, be_value, lemma_be_value_bound, lemma_be_value_first};
use crate::seek::{cluster_from, entry_of, first_cluster, is_indexed, listed_from, noted};
use crate::seek::{seek_head_from, walked_from, SeekEntry};
use crate::shift::{all_within, continues, fields_moved, is_intact};
use crate::shift::{lemma_children_moved, lemma_cluster_moved, lemma_element_moved};
use crate::shift::{lemma_info_moved, lemma_master_moved, lemma_tracks_moved};
use crate::source::Media;
use crate::track::{track_entry_of, TrackEntryView};
use crate::vint::{id_at, lemma_vint_range, size_at, vint_count, vint_width, UNKNOWN_SIZE};

verus! {

/// An element ID takes one to four octets and is not zero.
pub proof fn law_id_length(media: Media, position: int)
    ensures
        id_at(media, position) matches Ok((number, next)) ==> {
            &&& 1 <= next - position <= 4
            &&& number != 0
        },
{
    if let Ok((number, next)) = id_at(media, position) {
        let first = media.read(position, 1)->Ok_0;
        let width = vint_width(first[0]);
        let rest = media.read(position + 1, width - 1)->Ok_0;
        assert((first + rest)[0] == first[0]);
        lemma_vint_range(first + rest);
        reveal_with_fuel(vint_count, 5);
    }
}

/// An element size takes one to eight octets. It is below the number of values that seven bits per
/// octet can give, or it is not known.
pub proof fn law_size_length(media: Media, position: int)
    ensures
        size_at(media, position) matches Ok((size, next)) ==> {
            &&& 1 <= next - position <= 8
            &&& size == UNKNOWN_SIZE || 0 <= size < vint_count(next - position) - 1
        },
{
    if let Ok((size, next)) = size_at(media, position) {
        let first = media.read(position, 1)->Ok_0;
        let width = vint_width(first[0]);
        let rest = media.read(position + 1, width - 1)->Ok_0;
        assert((first + rest)[0] == first[0]);
        lemma_vint_range(first + rest);
    }
}

/// What is looked up among the children of an element is the first child of that name, and nothing
/// is found only if no child has the name.
pub proof fn law_first_child_counts(fields: Fields, id: ElementId)
    ensures
        match field(fields, id) {
            Some(data) => exists|i: int|
                {
                    &&& 0 <= i < fields.len()
                    &&& #[trigger] fields[i] == (id, data)
                    &&& forall|j: int| 0 <= j < i ==> (#[trigger] fields[j]).0 != id
                },
            None => forall|j: int| 0 <= j < fields.len() ==> (#[trigger] fields[j]).0 != id,
        },
    decreases fields.len(),
{
    if fields.len() > 0 && fields[0].0 != id {
        let rest = fields.drop_first();
        law_first_child_counts(rest, id);
        match field(rest, id) {
            Some(data) => {
                let i = choose|i: int|
                    {
                        &&& 0 <= i < rest.len()
                        &&& #[trigger] rest[i] == (id, data)
                        &&& forall|j: int| 0 <= j < i ==> (#[trigger] rest[j]).0 != id
                    };
                assert(fields[i + 1] == (id, data));
                assert forall|j: int| 0 <= j < i + 1 implies (#[trigger] fields[j]).0 != id by {
                    if j > 0 {
                        assert(fields[j] == rest[j - 1]);
                    }
                }
            },
            None => {
                assert forall|j: int| 0 <= j < fields.len() implies (#[trigger] fields[j]).0
                    != id by {
                    if j > 0 {
                        assert(fields[j] == rest[j - 1]);
                    }
                }
            },
        }
    } else if fields.len() > 0 {
        assert(fields[0] == (id, fields[0].1));
    }
}

/// A header that does not give the longest lengths means four octets for IDs and eight for sizes.
pub proof fn law_header_lengths_default(fields: Fields)
    ensures
        ebml_header_of(fields) matches Ok(header) ==> {
            &&& field(fields, ElementId::EbmlMaxIdLength) is None ==> header.max_id_length == 4
            &&& field(fields, ElementId::EbmlMaxSizeLength) is None ==> header.max_size_length == 8
        },
{
}

/// The timestamp scale is never zero, and is a million nanoseconds if the file does not give it. The
/// duration is never below zero.
pub proof fn law_info_is_sound(fields: Fields)
    ensures
        info_of(fields) matches Ok(info) ==> {
            &&& info.timestamp_scale != 0
            &&& field(fields, ElementId::TimestampScale) is None ==> info.timestamp_scale
                == 1_000_000
            &&& info.duration matches Some(duration) ==> !duration.below_zero()
        },
{
}

/// The number, the unique ID and the frame duration of a track are never zero. A track is enabled
/// and eligible by default, and neither forced nor laced. Its settings are left out.
pub proof fn law_track_is_sound(media: Media, fields: Fields)
    ensures
        track_entry_of(media, fields) matches Ok(track) ==> {
            &&& is_sound(track)
            &&& field(fields, ElementId::FlagEnabled) is None ==> track.flag_enabled
            &&& field(fields, ElementId::FlagDefault) is None ==> track.flag_default
            &&& field(fields, ElementId::FlagForced) is None ==> !track.flag_forced
            &&& field(fields, ElementId::FlagLacing) is None ==> !track.flag_lacing
        },
{
}

/// What holds of every track that was read.
pub open spec fn is_sound(track: TrackEntryView) -> bool {
    &&& track.track_number != 0
    &&& track.track_uid != 0
    &&& track.default_duration != Some(0u64)
    &&& track.video is None
    &&& track.audio is None
    &&& track.content_encodings is None
}

/// How many of the elements, from the one at `index` on, describe a track.
pub open spec fn track_count(children: Fields, index: int) -> int
    decreases children.len() - index,
{
    if index >= children.len() {
        0
    } else {
        track_count(children, index + 1) + match children[index] {
            (ElementId::TrackEntry, DataView::Location { .. }) => 1int,
            _ => 0int,
        }
    }
}

/// The place among the elements, from the one at `index` on, of the one that describes the track
/// number `nth`, counted from zero.
pub open spec fn track_place(children: Fields, index: int, nth: int) -> int
    decreases children.len() - index,
{
    if index >= children.len() {
        index
    } else {
        match children[index] {
            (ElementId::TrackEntry, DataView::Location { .. }) => if nth == 0 {
                index
            } else {
                track_place(children, index + 1, nth - 1)
            },
            _ => track_place(children, index + 1, nth),
        }
    }
}

/// Whether `track` is what the children of the element `child` give.
pub open spec fn describes(media: Media, child: (ElementId, DataView), track: TrackEntryView) -> bool {
    &&& child matches (ElementId::TrackEntry, DataView::Location { offset, size })
    &&& children_at(media, offset, size) matches Ok((fields, _))
    &&& track_entry_of(media, fields) == Ok::<TrackEntryView, DemuxError>(track)
}

/// Every element that describes a track gives one track, in the order of the elements, and every
/// track is sound.
pub proof fn law_every_track_is_read(media: Media, children: Fields, index: int)
    requires
        0 <= index,
    ensures
        tracks_from(media, children, index) matches Ok(tracks) ==> {
            &&& tracks.len() == track_count(children, index)
            &&& forall|nth: int|
                #![trigger tracks[nth]]
                #![trigger track_place(children, index, nth)]
                0 <= nth < tracks.len() ==> {
                    &&& index <= track_place(children, index, nth) < children.len()
                    &&& describes(media, children[track_place(children, index, nth)], tracks[nth])
                    &&& is_sound(tracks[nth])
                }
        },
    decreases children.len() - index,
{
    if index < children.len() {
        law_every_track_is_read(media, children, index + 1);
        if let Ok(tracks) = tracks_from(media, children, index) {
            if let Ok(others) = tracks_from(media, children, index + 1) {
                assert forall|nth: int|
                    #![trigger tracks[nth]]
                    #![trigger track_place(children, index, nth)]
                    0 <= nth < tracks.len() implies {
                    &&& index <= track_place(children, index, nth) < children.len()
                    &&& describes(media, children[track_place(children, index, nth)], tracks[nth])
                    &&& is_sound(tracks[nth])
                } by {
                    if tracks.len() == others.len() {
                        assert(tracks[nth] == others[nth]);
                    } else if nth > 0 {
                        assert(tracks[nth] == others[nth - 1]);
                    }
                }
            }
        }
    }
}

/// A file that could be opened has an Info element, a Tracks element and a cluster whose positions
/// are known, a timestamp scale that is not zero, a duration that is not below zero, and sound
/// tracks.
pub proof fn law_opened_file_is_complete(media: Media, position: int)
    ensures
        opened(media, position) matches Ok(file) ==> {
            &&& file.seek_head.contains_key(ElementId::Info)
            &&& file.seek_head.contains_key(ElementId::Tracks)
            &&& file.seek_head.contains_key(ElementId::Cluster)
            &&& file.info.timestamp_scale != 0
            &&& file.info.duration matches Some(duration) ==> !duration.below_zero()
            &&& forall|i: int| 0 <= i < file.tracks.len() ==> is_sound(#[trigger] file.tracks[i])
        },
{
    if let Ok(file) = opened(media, position) {
        if let Ok(fields) = known_children(media, file.seek_head, ElementId::Info) {
            law_info_is_sound(fields);
        }
        if let Ok(fields) = known_children(media, file.seek_head, ElementId::Tracks) {
            law_every_track_is_read(media, fields, 0);
        }
    }
}

/// Whether a walk along the elements from `position` on meets an element at `at`.
pub open spec fn meets(media: Media, position: int, at: int) -> bool
    decreases media.remaining(position),
{
    match element_at(media, position) {
        Err(_) => false,
        Ok(element) => {
            ||| at == position
            ||| match following(media, element) {
                Ok(Some(next)) => {
                    proof {
                        lemma_element_advances(media, position);
                    }
                    meets(media, next, at)
                },
                _ => false,
            }
        },
    }
}

/// Whether there is an element `id` at `at`.
pub open spec fn stands_at(media: Media, id: ElementId, at: int) -> bool {
    element_at(media, at) matches Ok(element) && element.id == id
}

/// A walk meets nothing before its start, and only elements that can be read.
pub(crate) proof fn lemma_meets(media: Media, position: int, at: int)
    requires
        meets(media, position, at),
    ensures
        position <= at,
        element_at(media, at) is Ok,
    decreases media.remaining(position),
{
    lemma_element_advances(media, position);
    let element = element_at(media, position)->Ok_0;
    if at != position {
        lemma_meets(media, following(media, element)->Ok_0->Some_0, at);
    }
}

/// A walk along the top level elements forgets no element that was known before it, and finds every
/// element worth knowing that it meets. What it adds is the position of an element of that name
/// which it met.
pub proof fn law_walk_finds_what_it_meets(media: Media, position: int, known: Map<ElementId, int>)
    ensures
        ({
            let (found, _) = walked_from(media, position, known);
            &&& forall|id: ElementId| #[trigger]
                known.contains_key(id) ==> found.contains_key(id)
            &&& forall|id: ElementId, at: int|
                #![trigger stands_at(media, id, at), meets(media, position, at)]
                is_indexed(id) && stands_at(media, id, at) && meets(media, position, at)
                    ==> found.contains_key(id)
            &&& forall|id: ElementId| #[trigger]
                found.contains_key(id) ==> {
                    ||| known.contains_key(id) && found[id] == known[id]
                    ||| is_indexed(id) && meets(media, position, found[id]) && stands_at(
                        media,
                        id,
                        found[id],
                    )
                }
        }),
    decreases media.remaining(position),
{
    if let Ok(element) = element_at(media, position) {
        let noted_too = noted(known, element.id, position);
        let (found, _) = walked_from(media, position, known);
        if let Ok(Some(next)) = following(media, element) {
            lemma_element_advances(media, position);
            law_walk_finds_what_it_meets(media, next, noted_too);
            assert(walked_from(media, position, known) == walked_from(media, next, noted_too));
            assert forall|id: ElementId| #[trigger] known.contains_key(id) implies found.contains_key(
                id,
            ) by {
                assert(noted_too.contains_key(id));
            }
            assert forall|id: ElementId, at: int|
                #![trigger stands_at(media, id, at), meets(media, position, at)]
                is_indexed(id) && stands_at(media, id, at) && meets(
                    media,
                    position,
                    at,
                ) implies found.contains_key(id) by {
                if at == position {
                    assert(noted_too.contains_key(id));
                } else {
                    assert(meets(media, next, at));
                }
            }
            assert forall|id: ElementId| #[trigger] found.contains_key(id) implies {
                ||| known.contains_key(id) && found[id] == known[id]
                ||| is_indexed(id) && meets(media, position, found[id]) && stands_at(
                    media,
                    id,
                    found[id],
                )
            } by {
                if noted_too.contains_key(id) && found[id] == noted_too[id] {
                    assert(meets(media, position, position));
                    assert(stands_at(media, element.id, position));
                } else {
                    assert(meets(media, next, found[id]));
                }
            }
        } else {
            assert(found == noted_too);
            assert(meets(media, position, position));
            assert(stands_at(media, element.id, position));
            assert forall|id: ElementId, at: int|
                #![trigger stands_at(media, id, at), meets(media, position, at)]
                is_indexed(id) && stands_at(media, id, at) && meets(
                    media,
                    position,
                    at,
                ) implies found.contains_key(id) by {
                assert(at == position);
            }
        }
    }
}

/// Of the clusters that a walk meets, the first one is kept; and a cluster that was known before
/// the walk is not replaced. Of other elements the last one is kept.
pub proof fn law_walk_keeps_first_cluster(media: Media, position: int, known: Map<ElementId, int>)
    ensures
        ({
            let (found, _) = walked_from(media, position, known);
            &&& known.contains_key(ElementId::Cluster) ==> found[ElementId::Cluster]
                == known[ElementId::Cluster]
            &&& !known.contains_key(ElementId::Cluster) ==> forall|at: int|
                stands_at(media, ElementId::Cluster, at) && #[trigger] meets(media, position, at)
                    ==> found[ElementId::Cluster] <= at
            &&& forall|id: ElementId, at: int|
                #![trigger stands_at(media, id, at), meets(media, position, at)]
                is_indexed(id) && id != ElementId::Cluster && stands_at(media, id, at) && meets(
                    media,
                    position,
                    at,
                ) ==> at <= found[id]
        }),
    decreases media.remaining(position),
{
    if let Ok(element) = element_at(media, position) {
        let noted_too = noted(known, element.id, position);
        let (found, _) = walked_from(media, position, known);
        if let Ok(Some(next)) = following(media, element) {
            lemma_element_advances(media, position);
            law_walk_keeps_first_cluster(media, next, noted_too);
            law_walk_finds_what_it_meets(media, next, noted_too);
            if !known.contains_key(ElementId::Cluster) {
                assert forall|at: int|
                    stands_at(media, ElementId::Cluster, at) && #[trigger] meets(
                        media,
                        position,
                        at,
                    ) implies found[ElementId::Cluster] <= at by {
                    lemma_meets(media, position, at);
                    if at == position {
                        assert(noted_too[ElementId::Cluster] == position);
                    } else {
                        assert(meets(media, next, at));
                    }
                }
            }
            assert forall|id: ElementId, at: int|
                #![trigger stands_at(media, id, at), meets(media, position, at)]
                is_indexed(id) && id != ElementId::Cluster && stands_at(media, id, at) && meets(
                    media,
                    position,
                    at,
                ) implies at <= found[id] by {
                if at == position {
                    assert(noted_too.contains_key(id));
                    assert(found.contains_key(id));
                    if found[id] != position {
                        lemma_meets(media, next, found[id]);
                    }
                } else {
                    assert(meets(media, next, at));
                }
            }
        }
    }
}

/// A damaged file does not make a walk fail. It fails only if the source refuses to move behind an
/// element, or if no position lies behind it.
pub proof fn law_damage_does_not_fail_a_walk(
    media: Media,
    position: int,
    known: Map<ElementId, int>,
)
    ensures
        walked_from(media, position, known).1 matches Err(error) ==> {
            ||| error == DemuxError::OffsetOverflow
            ||| error == DemuxError::IoError(IoFailure::Refused)
        },
    decreases media.remaining(position),
{
    if let Ok(element) = element_at(media, position) {
        if let Ok(Some(next)) = following(media, element) {
            lemma_element_advances(media, position);
            law_damage_does_not_fail_a_walk(media, next, noted(known, element.id, position));
        }
    }
}

/// Every entry that a walk from scratch makes is the position of an element of that name.
pub proof fn law_built_entries_are_right(media: Media, position: int)
    ensures
        ({
            let (found, _) = walked_from(media, position, Map::empty());
            forall|id: ElementId| #[trigger]
                found.contains_key(id) ==> stands_at(media, id, found[id]) && position <= found[id]
        }),
{
    law_walk_finds_what_it_meets(media, position, Map::empty());
    let (found, _) = walked_from(media, position, Map::empty());
    assert forall|id: ElementId| #[trigger] found.contains_key(id) implies stands_at(
        media,
        id,
        found[id],
    ) && position <= found[id] by {
        lemma_meets(media, position, found[id]);
    }
}

/// What a search for a cluster finds is the first cluster that a walk from there meets.
pub proof fn law_search_finds_first_cluster(media: Media, position: int)
    ensures
        cluster_from(media, position) matches Ok(at) ==> {
            &&& stands_at(media, ElementId::Cluster, at)
            &&& meets(media, position, at)
            &&& forall|other: int|
                stands_at(media, ElementId::Cluster, other) && #[trigger] meets(
                    media,
                    position,
                    other,
                ) ==> at <= other
        },
    decreases media.remaining(position),
{
    if let Ok(element) = element_at(media, position) {
        if element.id == ElementId::Cluster {
            assert forall|other: int|
                stands_at(media, ElementId::Cluster, other) && #[trigger] meets(
                    media,
                    position,
                    other,
                ) implies position <= other by {
                lemma_meets(media, position, other);
            }
        } else if let Ok(Some(next)) = following(media, element) {
            lemma_element_advances(media, position);
            law_search_finds_first_cluster(media, next);
            if let Ok(at) = cluster_from(media, position) {
                assert forall|other: int|
                    stands_at(media, ElementId::Cluster, other) && #[trigger] meets(
                        media,
                        position,
                        other,
                    ) implies at <= other by {
                    assert(meets(media, next, other));
                }
            }
        }
    }
}

/// The position that is noted for the first cluster is that of a cluster, as every entry that a walk
/// makes is that of an element of its name.
pub proof fn law_first_cluster_is_right(media: Media, known: Map<ElementId, int>)
    ensures
        first_cluster(media, known) matches Ok(at) ==> stands_at(media, ElementId::Cluster, at),
{
    if let Ok((offset, size)) = master_at(media, known[ElementId::Tracks], ElementId::Tracks) {
        law_search_finds_first_cluster(media, offset + size);
    }
}

/// The position of the first element from `offset` on that is not a checksum of known size.
pub open spec fn behind_checksums(media: Media, offset: int) -> int
    decreases media.remaining(offset),
{
    match header_at(media, offset) {
        Ok(header) if header.id == ElementId::Crc32 && header.size != UNKNOWN_SIZE => {
            proof {
                lemma_header_inside(media, offset);
            }
            behind_checksums(media, header.data + header.size)
        },
        _ => offset,
    }
}

/// Wherever a search for the SeekHead element ends well, the first element that is not a checksum
/// has decided.
pub proof fn law_search_stops_behind_checksums(media: Media, offset: int)
    ensures
        seek_head_from(media, offset) matches Ok(found) ==> {
            &&& header_at(media, behind_checksums(media, offset)) matches Ok(header)
            &&& found == if header.id == ElementId::SeekHead {
                Some((header.data, header.size))
            } else {
                None
            }
        },
    decreases media.remaining(offset),
{
    lemma_header_inside(media, offset);
    if let Ok(header) = header_at(media, offset) {
        if header.id == ElementId::Crc32 && header.size != UNKNOWN_SIZE {
            law_search_stops_behind_checksums(media, header.data + header.size);
        }
    }
}

/// Whether a segment has a SeekHead element is decided by the first element that is not a checksum,
/// however many checksums precede it, unless the source refuses to move there.
pub proof fn law_first_element_decides(media: Media, offset: int)
    requires
        forall|position: int|
            offset <= position <= behind_checksums(media, offset) ==> !#[trigger] (
            media.seek_refused)(position),
        behind_checksums(media, offset) <= u64::MAX,
    ensures
        seek_head_from(media, offset) == (match header_at(
            media,
            behind_checksums(media, offset),
        ) {
            Err(error) => Err(error),
            Ok(header) => if header.id == ElementId::SeekHead {
                Ok(Some((header.data, header.size)))
            } else {
                Ok::<Option<(int, int)>, DemuxError>(None)
            },
        }),
    decreases media.remaining(offset),
{
    lemma_header_inside(media, offset);
    lemma_behind_checksums(media, offset);
    if let Ok(header) = header_at(media, offset) {
        if header.id == ElementId::Crc32 && header.size != UNKNOWN_SIZE {
            law_first_element_decides(media, header.data + header.size);
        }
    }
}

proof fn lemma_behind_checksums(media: Media, offset: int)
    ensures
        offset <= behind_checksums(media, offset),
    decreases media.remaining(offset),
{
    lemma_header_inside(media, offset);
    if let Ok(header) = header_at(media, offset) {
        if header.id == ElementId::Crc32 && header.size != UNKNOWN_SIZE {
            lemma_behind_checksums(media, header.data + header.size);
        }
    }
}

/// What a SeekHead element lists is believed: the top level elements are walked along only if it
/// lists nothing.
pub proof fn law_listed_positions_are_believed(media: Media, segment_data_offset: int)
    ensures
        listed_positions(media, segment_data_offset) matches Ok(listed) ==> {
            &&& !listed.is_empty() ==> indexed_positions(media, segment_data_offset) == Ok::<
                Map<ElementId, int>,
                DemuxError,
            >(listed)
            &&& known_positions(media, segment_data_offset) matches Ok(known) ==> forall|
                id: ElementId,
            |
                #[trigger] listed.contains_key(id) ==> known.contains_key(id) && known[id]
                    == listed[id]
        },
{
}

/// Whether the child at `index` of a SeekHead element gives an entry for the element `id`.
pub open spec fn lists(media: Media, entries: Fields, index: int, id: ElementId) -> bool {
    entry_of(media, entries[index]) matches Ok(Some(entry)) && entry.id == id
}

/// The elements whose positions are known after a SeekHead element was read are those that were
/// known before, and those that its children list.
pub proof fn law_listed_elements(
    media: Media,
    segment_data_offset: int,
    entries: Fields,
    index: int,
    known: Map<ElementId, int>,
)
    requires
        0 <= index,
        listed_from(media, segment_data_offset, entries, index, known).1 is Ok,
    ensures
        ({
            let (found, _) = listed_from(media, segment_data_offset, entries, index, known);
            forall|id: ElementId|
                #![trigger found.contains_key(id)]
                found.contains_key(id) <==> {
                    ||| known.contains_key(id)
                    ||| exists|i: int|
                        index <= i < entries.len() && #[trigger] lists(media, entries, i, id)
                }
        }),
    decreases entries.len() - index,
{
    if index < entries.len() {
        let (found, _) = listed_from(media, segment_data_offset, entries, index, known);
        let known_too = match entry_of(media, entries[index]) {
            Ok(Some(entry)) => known.insert(entry.id, segment_data_offset + entry.offset),
            _ => known,
        };
        law_listed_elements(media, segment_data_offset, entries, index + 1, known_too);
        assert forall|id: ElementId|
            #![trigger found.contains_key(id)]
            found.contains_key(id) <==> {
                ||| known.contains_key(id)
                ||| exists|i: int|
                    index <= i < entries.len() && #[trigger] lists(media, entries, i, id)
            } by {
            if known_too.contains_key(id) && !known.contains_key(id) {
                assert(lists(media, entries, index, id));
            }
            if exists|i: int|
                index <= i < entries.len() && #[trigger] lists(media, entries, i, id) {
                let i = choose|i: int|
                    index <= i < entries.len() && #[trigger] lists(media, entries, i, id);
                if i == index {
                    assert(known_too.contains_key(id));
                }
            }
        }
    }
}

/// The position of a listed element is the position of the segment data plus what its last entry
/// gives. The position of an element that is not listed stays as it was.
pub proof fn law_listed_positions(
    media: Media,
    segment_data_offset: int,
    entries: Fields,
    index: int,
    known: Map<ElementId, int>,
)
    requires
        0 <= index,
        listed_from(media, segment_data_offset, entries, index, known).1 is Ok,
    ensures
        ({
            let (found, _) = listed_from(media, segment_data_offset, entries, index, known);
            &&& forall|i: int, id: ElementId|
                #![trigger lists(media, entries, i, id)]
                {
                    &&& index <= i < entries.len()
                    &&& lists(media, entries, i, id)
                    &&& forall|j: int| i < j < entries.len() ==> !#[trigger] lists(
                        media,
                        entries,
                        j,
                        id,
                    )
                } ==> found[id] == segment_data_offset + entry_of(
                    media,
                    entries[i],
                )->Ok_0->Some_0.offset
            &&& forall|id: ElementId|
                (forall|j: int|
                    index <= j < entries.len() ==> !#[trigger] lists(media, entries, j, id))
                    ==> #[trigger] found[id] == known[id]
        }),
    decreases entries.len() - index,
{
    if index < entries.len() {
        let (found, _) = listed_from(media, segment_data_offset, entries, index, known);
        let known_too = match entry_of(media, entries[index]) {
            Ok(Some(entry)) => known.insert(entry.id, segment_data_offset + entry.offset),
            _ => known,
        };
        law_listed_positions(media, segment_data_offset, entries, index + 1, known_too);
        assert forall|i: int, id: ElementId|
            #![trigger lists(media, entries, i, id)]
            {
                &&& index <= i < entries.len()
                &&& lists(media, entries, i, id)
                &&& forall|j: int| i < j < entries.len() ==> !#[trigger] lists(
                    media,
                    entries,
                    j,
                    id,
                )
            } implies found[id] == segment_data_offset + entry_of(
            media,
            entries[i],
        )->Ok_0->Some_0.offset by {
            if i == index {
                assert(found[id] == known_too[id]);
            }
        }
        assert forall|id: ElementId|
            (forall|j: int|
                index <= j < entries.len() ==> !#[trigger] lists(
                    media,
                    entries,
                    j,
                    id,
                )) implies #[trigger] found[id] == known[id] by {
            assert(!lists(media, entries, index, id));
            assert(found[id] == known_too[id]);
        }
    }
}

/// An incomplete entry of a SeekHead element does no harm to the others: it is as if it were not
/// there.
pub proof fn law_incomplete_entry_is_skipped(
    media: Media,
    segment_data_offset: int,
    entries: Fields,
    index: int,
    known: Map<ElementId, int>,
)
    requires
        0 <= index < entries.len(),
        entry_of(media, entries[index]) == Ok::<Option<SeekEntry>, DemuxError>(None),
    ensures
        listed_from(media, segment_data_offset, entries, index, known) == listed_from(
            media,
            segment_data_offset,
            entries,
            index + 1,
            known,
        ),
{
}

proof fn lemma_width_from_value(first: int, place: int, count: int, value: int)
    by (nonlinear_arith)
    requires
        count <= value < 2 * count,
        first * place <= value < first * place + place,
        ({
            ||| place == 1 && count == 0x80
            ||| place == 0x100 && count == 0x4000
            ||| place == 0x1_0000 && count == 0x20_0000
            ||| place == 0x100_0000 && count == 0x1000_0000
            ||| place == 0x1_0000_0000 && count == 0x8_0000_0000
            ||| place == 0x100_0000_0000 && count == 0x400_0000_0000
            ||| place == 0x1_0000_0000_0000 && count == 0x2_0000_0000_0000
            ||| place == 0x100_0000_0000_0000 && count == 0x100_0000_0000_0000
        }),
    ensures
        place == 1 ==> 0x80 <= first < 0x100,
        place == 0x100 ==> 0x40 <= first < 0x80,
        place == 0x1_0000 ==> 0x20 <= first < 0x40,
        place == 0x100_0000 ==> 0x10 <= first < 0x20,
        place == 0x1_0000_0000 ==> 0x08 <= first < 0x10,
        place == 0x100_0000_0000 ==> 0x04 <= first < 0x08,
        place == 0x1_0000_0000_0000 ==> 0x02 <= first < 0x04,
        place == 0x100_0000_0000_0000 ==> 0x01 <= first < 0x02,
{
}

/// Octets that give a value with a marking bit as its highest announce their own number.
proof fn lemma_width_of_value(octets: Seq<u8>)
    requires
        1 <= octets.len() <= 8,
        vint_count(octets.len() as int) <= be_value(octets) < 2 * vint_count(octets.len() as int),
    ensures
        vint_width(octets[0]) == octets.len(),
{
    lemma_be_value_first(octets);
    lemma_be_value_bound(octets.drop_first());
    reveal_with_fuel(be_count, 9);
    reveal_with_fuel(vint_count, 9);
    lemma_width_from_value(
        octets[0] as int,
        be_count((octets.len() - 1) as nat) as int,
        vint_count(octets.len() as int),
        be_value(octets) as int,
    );
}

/// Whether so many octets lie at `position`, and the source lets them be read as a number.
pub open spec fn readable(media: Media, position: int, width: int) -> bool {
    &&& 0 <= position
    &&& position + width <= media.octets.len()
    &&& !(media.read_refused)(position, 1)
    &&& width > 1 ==> !(media.read_refused)(position + 1, width - 1)
}

/// A size that was written with the marking bit of its length is read back, whatever the length it
/// was written with.
pub proof fn law_size_is_read_back(media: Media, position: int, width: int, size: int)
    requires
        1 <= width <= 8,
        0 <= size < vint_count(width) - 1,
        readable(media, position, width),
        be_value(media.octets.subrange(position, position + width)) == vint_count(width) + size,
    ensures
        size_at(media, position) == Ok::<(int, int), DemuxError>((size, position + width)),
{
    let octets = media.octets.subrange(position, position + width);
    lemma_width_of_value(octets);
    let first = media.read(position, 1)->Ok_0;
    assert(first[0] == octets[0]);
    let rest = media.read(position + 1, width - 1)->Ok_0;
    assert(first + rest =~= octets);
}

/// A size whose bits are all set is read as one that is not known, whatever its length.
pub proof fn law_unknown_size_is_read_back(media: Media, position: int, width: int)
    requires
        1 <= width <= 8,
        readable(media, position, width),
        be_value(media.octets.subrange(position, position + width)) == 2 * vint_count(width) - 1,
    ensures
        size_at(media, position) == Ok::<(int, int), DemuxError>(
            (UNKNOWN_SIZE as int, position + width),
        ),
{
    let octets = media.octets.subrange(position, position + width);
    reveal_with_fuel(vint_count, 9);
    lemma_width_of_value(octets);
    let first = media.read(position, 1)->Ok_0;
    assert(first[0] == octets[0]);
    let rest = media.read(position + 1, width - 1)->Ok_0;
    assert(first + rest =~= octets);
}

/// How many octets the number of an element takes.
pub open spec fn number_width(number: u32) -> int {
    if number < 0x100 {
        1
    } else if number < 0x1_0000 {
        2
    } else if number < 0x100_0000 {
        3
    } else {
        4
    }
}

/// The number of a known element announces its own length, as every element ID has to.
pub proof fn law_numbers_announce_their_length(id: ElementId)
    requires
        id != ElementId::Unknown,
    ensures
        ({
            let count = vint_count(number_width(id.number()));
            count <= id.number() < 2 * count
        }),
{
    reveal_with_fuel(vint_count, 5);
}

/// The header of a known element, written as its number and a size, is read back.
pub proof fn law_header_is_read_back(
    media: Media,
    position: int,
    id: ElementId,
    width: int,
    size: int,
)
    requires
        id != ElementId::Unknown,
        1 <= width <= 8,
        0 <= size < vint_count(width) - 1,
        readable(media, position, number_width(id.number())),
        readable(media, position + number_width(id.number()), width),
        be_value(
            media.octets.subrange(position, position + number_width(id.number())),
        ) == id.number(),
        be_value(
            media.octets.subrange(
                position + number_width(id.number()),
                position + number_width(id.number()) + width,
            ),
        ) == vint_count(width) + size,
    ensures
        header_at(media, position) == Ok::<Header, DemuxError>(
            (Header { id, size, data: position + number_width(id.number()) + width }),
        ),
{
    reveal(header_at);
    let behind = position + number_width(id.number());
    let octets = media.octets.subrange(position, behind);
    law_numbers_announce_their_length(id);
    lemma_width_of_value(octets);
    let first = media.read(position, 1)->Ok_0;
    assert(first[0] == octets[0]);
    let rest = media.read(position + 1, behind - position - 1)->Ok_0;
    assert(first + rest =~= octets);
    law_number_names_element(id);
    law_size_is_read_back(media, behind, width, size);
}

/// The header of a file, and the position of its segment data.
pub open spec fn segment_of(media: Media, position: int) -> Option<(EbmlHeaderView, int)> {
    match ebml_header_at(media, position) {
        Err(_) => None,
        Ok((header, next)) => match master_at(media, next, ElementId::Segment) {
            Err(_) => None,
            Ok((segment_data_offset, _)) => Some((header, segment_data_offset)),
        },
    }
}

/// Whether two files open alike: with the same header, segment information and tracks, or with the
/// same error.
pub open spec fn open_alike(
    a: Result<MatroskaFileView, DemuxError>,
    b: Result<MatroskaFileView, DemuxError>,
) -> bool {
    match (a, b) {
        (Ok(a), Ok(b)) => {
            &&& a.ebml_header == b.ebml_header
            &&& a.info == b.info
            &&& a.tracks == b.tracks
        },
        (Err(error), Err(cause)) => error == cause,
        _ => false,
    }
}

/// Whether the element `id` is known in both of two files or in none, and lies in `a` behind `from`
/// and in `b` as much later as the files are apart.
pub open spec fn same_place(
    a: Map<ElementId, int>,
    b: Map<ElementId, int>,
    from: int,
    by: int,
    id: ElementId,
) -> bool {
    &&& a.contains_key(id) == b.contains_key(id)
    &&& a.contains_key(id) ==> {
        &&& from <= a[id] <= u64::MAX
        &&& b[id] == a[id] + by
        &&& b[id] <= u64::MAX
    }
}

proof fn lemma_known_children_moved(
    a: Media,
    b: Media,
    from: int,
    by: int,
    known_a: Map<ElementId, int>,
    known_b: Map<ElementId, int>,
    id: ElementId,
)
    requires
        continues(a, b, from, by),
        same_place(known_a, known_b, from, by, id),
        known_a.contains_key(id),
    ensures
        match (known_children(a, known_a, id), known_children(b, known_b, id)) {
            (Ok(fields), Ok(moved)) => {
                &&& moved == fields_moved(fields, by)
                &&& all_within(a, from, fields)
            },
            (Err(error), Err(cause)) => error == cause,
            _ => false,
        },
{
    lemma_master_moved(a, b, from, by, known_a[id], id);
    if let Ok((offset, size)) = master_at(a, known_a[id], id) {
        lemma_children_moved(a, b, from, by, offset, size);
    }
}

proof fn lemma_first_cluster_moved(
    a: Media,
    b: Media,
    from: int,
    by: int,
    known_a: Map<ElementId, int>,
    known_b: Map<ElementId, int>,
)
    requires
        continues(a, b, from, by),
        same_place(known_a, known_b, from, by, ElementId::Tracks),
    ensures
        match (first_cluster(a, known_a), first_cluster(b, known_b)) {
            (Ok(_), Ok(_)) => true,
            (Err(error), Err(cause)) => error == cause,
            _ => false,
        },
{
    if known_a.contains_key(ElementId::Tracks) {
        let tracks = known_a[ElementId::Tracks];
        lemma_master_moved(a, b, from, by, tracks, ElementId::Tracks);
        if let Ok((offset, size)) = master_at(a, tracks, ElementId::Tracks) {
            if size != UNKNOWN_SIZE {
                lemma_cluster_moved(a, b, from, by, offset + size);
                assert(offset + size + by == offset + by + size);
            }
        }
    }
}

/// Whether the positions that are known in two files are such that both files open alike.
spec fn known_alike(
    a: Result<Map<ElementId, int>, DemuxError>,
    b: Result<Map<ElementId, int>, DemuxError>,
    from: int,
    by: int,
) -> bool {
    match (a, b) {
        (Ok(a), Ok(b)) => {
            &&& same_place(a, b, from, by, ElementId::Info)
            &&& same_place(a, b, from, by, ElementId::Tracks)
        },
        (Err(error), Err(cause)) => error == cause,
        _ => false,
    }
}

proof fn lemma_known_alike_opens_alike(
    a: Media,
    b: Media,
    start_a: int,
    start_b: int,
    header: EbmlHeaderView,
    segment_a: int,
    segment_b: int,
    from: int,
    by: int,
)
    requires
        segment_of(a, start_a) == Some((header, segment_a)),
        segment_of(b, start_b) == Some((header, segment_b)),
        continues(a, b, from, by),
        known_alike(known_positions(a, segment_a), known_positions(b, segment_b), from, by),
    ensures
        open_alike(opened(a, start_a), opened(b, start_b)),
{
    if let Ok(known_a) = known_positions(a, segment_a) {
        let known_b = known_positions(b, segment_b)->Ok_0;
        if known_a.contains_key(ElementId::Info) {
            lemma_known_children_moved(a, b, from, by, known_a, known_b, ElementId::Info);
            if let Ok(fields) = known_children(a, known_a, ElementId::Info) {
                lemma_info_moved(fields, by);
            }
        }
        if known_a.contains_key(ElementId::Tracks) {
            lemma_known_children_moved(a, b, from, by, known_a, known_b, ElementId::Tracks);
            if let Ok(fields) = known_children(a, known_a, ElementId::Tracks) {
                lemma_tracks_moved(a, b, from, by, fields, 0);
            }
        }
    }
}

proof fn lemma_indexed_alike_is_known_alike(
    a: Media,
    b: Media,
    segment_a: int,
    segment_b: int,
    from: int,
    by: int,
    known_a: Map<ElementId, int>,
    known_b: Map<ElementId, int>,
)
    requires
        continues(a, b, from, by),
        indexed_positions(a, segment_a) == Ok::<Map<ElementId, int>, DemuxError>(known_a),
        indexed_positions(b, segment_b) == Ok::<Map<ElementId, int>, DemuxError>(known_b),
        same_place(known_a, known_b, from, by, ElementId::Info),
        same_place(known_a, known_b, from, by, ElementId::Tracks),
        known_a.contains_key(ElementId::Cluster) == known_b.contains_key(ElementId::Cluster),
    ensures
        known_alike(known_positions(a, segment_a), known_positions(b, segment_b), from, by),
{
    lemma_first_cluster_moved(a, b, from, by, known_a, known_b);
}

pub(crate) proof fn lemma_segment_inside(media: Media, position: int)
    ensures
        segment_of(media, position) matches Some((_, segment_data_offset)) ==> 2
            <= segment_data_offset <= media.octets.len(),
{
    if let Ok((_, next)) = ebml_header_at(media, position) {
        lemma_header_inside(media, next);
    }
}

pub(crate) proof fn lemma_intact_walk_ends_well(media: Media, position: int, known: Map<ElementId, int>)
    requires
        is_intact(media),
        1 <= position,
    ensures
        walked_from(media, position, known).1 is Ok,
    decreases media.remaining(position),
{
    lemma_element_moved(media, media, 1, 0, position);
    if let Ok(element) = element_at(media, position) {
        if let Ok(Some(next)) = following(media, element) {
            lemma_element_advances(media, position);
            lemma_intact_walk_ends_well(media, next, noted(known, element.id, position));
        }
    }
}

/// Whether the same elements are known in two files, `by` octets later in `b`, and all positions fit
/// into 64 bits.
pub open spec fn all_moved(a: Map<ElementId, int>, b: Map<ElementId, int>, by: int) -> bool {
    &&& forall|id: ElementId| #[trigger] a.contains_key(id) == b.contains_key(id)
    &&& forall|id: ElementId| #[trigger]
        a.contains_key(id) ==> {
            &&& b[id] == a[id] + by
            &&& a[id] <= u64::MAX
            &&& b[id] <= u64::MAX
        }
}

proof fn lemma_insert_moved(
    a: Map<ElementId, int>,
    b: Map<ElementId, int>,
    by: int,
    id: ElementId,
    position: int,
)
    requires
        all_moved(a, b, by),
        position <= u64::MAX,
        position + by <= u64::MAX,
    ensures
        all_moved(a.insert(id, position), b.insert(id, position + by), by),
{
    let more_a = a.insert(id, position);
    let more_b = b.insert(id, position + by);
    assert forall|other: ElementId| #[trigger]
        more_a.contains_key(other) == more_b.contains_key(other) by {
        assert(a.contains_key(other) == b.contains_key(other));
    }
    assert forall|other: ElementId| #[trigger] more_a.contains_key(other) implies {
        &&& more_b[other] == more_a[other] + by
        &&& more_a[other] <= u64::MAX
        &&& more_b[other] <= u64::MAX
    } by {
        assert(a.contains_key(other) == b.contains_key(other));
    }
}

proof fn lemma_walk_moved(
    a: Media,
    b: Media,
    from: int,
    by: int,
    position: int,
    known_a: Map<ElementId, int>,
    known_b: Map<ElementId, int>,
)
    requires
        continues(a, b, from, by),
        from <= position,
        all_moved(known_a, known_b, by),
    ensures
        all_moved(
            walked_from(a, position, known_a).0,
            walked_from(b, position + by, known_b).0,
            by,
        ),
    decreases a.remaining(position),
{
    lemma_element_moved(a, b, from, by, position);
    lemma_element_advances(a, position);
    lemma_element_advances(b, position + by);
    if let Ok(element) = element_at(a, position) {
        let noted_a = noted(known_a, element.id, position);
        let noted_b = noted(known_b, element.id, position + by);
        lemma_insert_moved(known_a, known_b, by, element.id, position);
        assert(known_a.contains_key(ElementId::Cluster) == known_b.contains_key(
            ElementId::Cluster,
        ));
        if let Ok(Some(next)) = following(a, element) {
            lemma_walk_moved(a, b, from, by, next, noted_a, noted_b);
        }
    }
}

/// A walk passes the checksums and the SeekHead element at the start of a segment and notes nothing.
proof fn lemma_walk_behind_seek_head(media: Media, offset: int, known: Map<ElementId, int>)
    requires
        is_intact(media),
        1 <= offset,
    ensures
        seek_head_from(media, offset) matches Ok(Some((place, size))) ==> {
            &&& 2 <= place
            &&& size != UNKNOWN_SIZE ==> walked_from(media, offset, known) == walked_from(
                media,
                place + size,
                known,
            )
        },
    decreases media.remaining(offset),
{
    reveal(element_at);
    lemma_header_inside(media, offset);
    lemma_element_moved(media, media, 1, 0, offset);
    if let Ok(header) = header_at(media, offset) {
        if header.id == ElementId::Crc32 && header.size != UNKNOWN_SIZE {
            lemma_walk_behind_seek_head(media, header.data + header.size, known);
        }
    }
}

/// Whether there are only checksums between `position` and `from`.
pub open spec fn only_checksums(media: Media, position: int, from: int) -> bool
    decreases media.remaining(position),
{
    ||| position == from
    ||| match header_at(media, position) {
        Ok(header) if header.id == ElementId::Crc32 && header.size != UNKNOWN_SIZE => {
            proof {
                lemma_header_inside(media, position);
            }
            only_checksums(media, header.data + header.size, from)
        },
        _ => false,
    }
}

proof fn lemma_only_checksums(
    media: Media,
    position: int,
    from: int,
    known: Map<ElementId, int>,
)
    requires
        is_intact(media),
        1 <= position,
        only_checksums(media, position, from),
    ensures
        walked_from(media, position, known) == walked_from(media, from, known),
    decreases media.remaining(position),
{
    if position != from {
        reveal(element_at);
        lemma_header_inside(media, position);
        lemma_element_moved(media, media, 1, 0, position);
        let header = header_at(media, position)->Ok_0;
        lemma_only_checksums(media, header.data + header.size, from, known);
    }
}

/// Whether a walk from `position` on meets an element `id`, the last one at `at`.
pub open spec fn stands_last_at(media: Media, position: int, id: ElementId, at: int) -> bool {
    &&& stands_at(media, id, at)
    &&& meets(media, position, at)
    &&& forall|other: int|
        stands_at(media, id, other) && #[trigger] meets(media, position, other) ==> other <= at
}

/// Whether positions `listed` in a file are right for the element `id` of another file in which
/// everything lies `by` octets earlier: the last such element that a walk there from `position` on
/// meets is listed, or there is none and none is listed.
pub open spec fn lists_rightly(
    listed: Map<ElementId, int>,
    media: Media,
    position: int,
    by: int,
    id: ElementId,
) -> bool {
    if listed.contains_key(id) {
        stands_last_at(media, position, id, listed[id] - by)
    } else {
        forall|at: int| #[trigger] meets(media, position, at) ==> !stands_at(media, id, at)
    }
}

/// Whether a walk from `position` on meets a cluster at `from` or behind it.
pub open spec fn meets_cluster(media: Media, position: int, from: int) -> bool {
    exists|at: int|
        from <= at && stands_at(media, ElementId::Cluster, at) && #[trigger] meets(
            media,
            position,
            at,
        )
}

proof fn lemma_listed_rightly(
    a: Media,
    b: Media,
    from: int,
    by: int,
    listed: Map<ElementId, int>,
    id: ElementId,
)
    requires
        continues(a, b, from, by),
        is_indexed(id),
        id != ElementId::Cluster,
        lists_rightly(listed, a, from, by, id),
    ensures
        same_place(walked_from(a, from, Map::empty()).0, listed, from, by, id),
{
    let (found, _) = walked_from(a, from, Map::empty());
    law_walk_finds_what_it_meets(a, from, Map::empty());
    law_walk_keeps_first_cluster(a, from, Map::empty());
    if listed.contains_key(id) {
        let at = listed[id] - by;
        lemma_meets(a, from, at);
        lemma_element_advances(a, at);
        assert(found.contains_key(id));
        assert(meets(a, from, found[id]));
    } else if found.contains_key(id) {
        assert(meets(a, from, found[id]));
    }
}

pub(crate) proof fn lemma_walk_notes_cluster(media: Media, position: int)
    ensures
        walked_from(media, position, Map::empty()).0.contains_key(ElementId::Cluster)
            == meets_cluster(media, position, position),
{
    let (found, _) = walked_from(media, position, Map::empty());
    law_walk_finds_what_it_meets(media, position, Map::empty());
    if found.contains_key(ElementId::Cluster) {
        lemma_meets(media, position, found[ElementId::Cluster]);
    }
}

/// A walk that goes on behind one of the elements that it meets meets the later ones.
proof fn lemma_meets_onward(media: Media, position: int, at: int, later: int)
    requires
        meets(media, position, at),
        meets(media, position, later),
        at < later,
    ensures
        element_at(media, at) matches Ok(element) && following(media, element) matches Ok(Some(next))
            && meets(media, next, later),
    decreases media.remaining(position),
{
    lemma_meets(media, position, at);
    lemma_element_advances(media, position);
    if at != position {
        let element = element_at(media, position)->Ok_0;
        lemma_meets_onward(media, following(media, element)->Ok_0->Some_0, at, later);
    }
}

proof fn lemma_cluster_is_found(media: Media, position: int, at: int)
    requires
        is_intact(media),
        1 <= position,
        meets(media, position, at),
        stands_at(media, ElementId::Cluster, at),
    ensures
        cluster_from(media, position) is Ok,
    decreases media.remaining(position),
{
    lemma_element_moved(media, media, 1, 0, position);
    lemma_element_advances(media, position);
    let element = element_at(media, position)->Ok_0;
    if element.id == ElementId::Cluster {
        reveal(element_at);
    } else {
        lemma_cluster_is_found(media, following(media, element)->Ok_0->Some_0, at);
    }
}

proof fn lemma_cluster_behind_tracks(media: Media, position: int, known: Map<ElementId, int>)
    requires
        is_intact(media),
        1 <= position,
        known.contains_key(ElementId::Tracks),
        stands_at(media, ElementId::Tracks, known[ElementId::Tracks]),
        meets(media, position, known[ElementId::Tracks]),
        meets_cluster(media, position, known[ElementId::Tracks]),
    ensures
        first_cluster(media, known) is Ok,
{
    let tracks = known[ElementId::Tracks];
    let at = choose|at: int|
        tracks <= at && stands_at(media, ElementId::Cluster, at) && #[trigger] meets(
            media,
            position,
            at,
        );
    lemma_meets(media, position, tracks);
    lemma_meets_onward(media, position, tracks, at);
    lemma_element_advances(media, tracks);
    reveal(element_at);
    let element = element_at(media, tracks)->Ok_0;
    lemma_cluster_is_found(media, following(media, element)->Ok_0->Some_0, at);
}

/// An accurate SeekHead element changes only how elements are found. Let `a` be a file whose segment
/// does not start with one. Let `b` be a file with the same header, whose segment starts with a
/// SeekHead element and goes on behind it as that of `a` does from `from` on; only checksums come
/// before that in the segment of `a`. If the SeekHead element lists something, let it list the last
/// Info and the last Tracks element where they lie, and a cluster only if there is one. Then both
/// files open alike, unless there are clusters that are not listed and none of them lies behind the
/// tracks, where they are looked for.
pub proof fn law_accurate_seek_head_changes_nothing(
    a: Media,
    b: Media,
    start_a: int,
    start_b: int,
    header: EbmlHeaderView,
    segment_a: int,
    segment_b: int,
    from: int,
    offset: int,
    size: int,
    listed: Map<ElementId, int>,
)
    requires
        segment_of(a, start_a) == Some((header, segment_a)),
        segment_of(b, start_b) == Some((header, segment_b)),
        seek_head_from(a, segment_a) == Ok::<Option<(int, int)>, DemuxError>(None),
        only_checksums(a, segment_a, from),
        seek_head_from(b, segment_b) == Ok::<Option<(int, int)>, DemuxError>(Some((offset, size))),
        listed_positions(b, segment_b) == Ok::<Map<ElementId, int>, DemuxError>(listed),
        continues(a, b, from, offset + size - from),
        !listed.is_empty() ==> {
            let by = offset + size - from;
            &&& lists_rightly(listed, a, from, by, ElementId::Info)
            &&& lists_rightly(listed, a, from, by, ElementId::Tracks)
            &&& listed.contains_key(ElementId::Cluster) ==> meets_cluster(a, from, from)
            &&& !listed.contains_key(ElementId::Cluster) && meets_cluster(a, from, from) ==> {
                &&& listed.contains_key(ElementId::Tracks)
                &&& meets_cluster(a, from, listed[ElementId::Tracks] - by)
            }
        },
    ensures
        open_alike(opened(a, start_a), opened(b, start_b)),
{
    let by = offset + size - from;
    let empty = Map::<ElementId, int>::empty();
    let (found, _) = walked_from(a, from, empty);
    lemma_segment_inside(a, start_a);
    lemma_segment_inside(b, start_b);
    lemma_only_checksums(a, segment_a, from, empty);
    lemma_intact_walk_ends_well(a, from, empty);
    assert(empty.is_empty());
    assert(indexed_positions(a, segment_a) == Ok::<Map<ElementId, int>, DemuxError>(found));
    if listed.is_empty() {
        assert(listed =~= empty);
        lemma_walk_behind_seek_head(b, segment_b, empty);
        lemma_intact_walk_ends_well(b, segment_b, empty);
        lemma_walk_moved(a, b, from, by, from, empty, empty);
        law_built_entries_are_right(a, from);
        let (moved, _) = walked_from(b, segment_b, empty);
        assert(found.contains_key(ElementId::Info) == moved.contains_key(ElementId::Info));
        assert(found.contains_key(ElementId::Tracks) == moved.contains_key(ElementId::Tracks));
        assert(found.contains_key(ElementId::Cluster) == moved.contains_key(ElementId::Cluster));
        lemma_indexed_alike_is_known_alike(a, b, segment_a, segment_b, from, by, found, moved);
    } else {
        lemma_listed_rightly(a, b, from, by, listed, ElementId::Info);
        lemma_listed_rightly(a, b, from, by, listed, ElementId::Tracks);
        lemma_walk_notes_cluster(a, from);
        if !listed.contains_key(ElementId::Cluster) && meets_cluster(a, from, from) {
            lemma_cluster_behind_tracks(a, from, found);
            lemma_first_cluster_moved(a, b, from, by, found, listed);
        } else {
            lemma_indexed_alike_is_known_alike(
                a,
                b,
                segment_a,
                segment_b,
                from,
                by,
                found,
                listed,
            );
        }
    }
    lemma_known_alike_opens_alike(
        a,
        b,
        start_a,
        start_b,
        header,
        segment_a,
        segment_b,
        from,
        by,
    );
}

/// Whether a child of one SeekHead element gives the entry that a child of another one gives, for a
/// position that is `by` octets later in the file; and both positions fit into 64 bits, or none does.
pub open spec fn entry_moved(
    a: Result<Option<SeekEntry>, DemuxError>,
    segment_a: int,
    b: Result<Option<SeekEntry>, DemuxError>,
    segment_b: int,
    by: int,
) -> bool {
    match (a, b) {
        (Ok(Some(a)), Ok(Some(b))) => {
            &&& a.id == b.id
            &&& segment_b + b.offset == segment_a + a.offset + by
            &&& (segment_a + a.offset <= u64::MAX) == (segment_b + b.offset <= u64::MAX)
        },
        (Ok(None), Ok(None)) => true,
        (Err(error), Err(cause)) => error == cause,
        _ => false,
    }
}

/// Whether the children `more` of a SeekHead element in `b` are the children `entries` of one in `a`,
/// adjusted to positions that are `by` octets later, and one more at `extra` which gives no entry.
pub open spec fn has_one_more(
    a: Media,
    segment_a: int,
    entries: Fields,
    b: Media,
    segment_b: int,
    more: Fields,
    extra: int,
    by: int,
) -> bool {
    &&& more.len() == entries.len() + 1
    &&& 0 <= extra < more.len()
    &&& entry_of(b, more[extra]) == Ok::<Option<SeekEntry>, DemuxError>(None)
    &&& forall|i: int|
        0 <= i < entries.len() ==> entry_moved(
            entry_of(a, #[trigger] entries[i]),
            segment_a,
            entry_of(
                b,
                more[if i < extra {
                    i
                } else {
                    i + 1
                }],
            ),
            segment_b,
            by,
        )
}

proof fn lemma_listing_skips_one(
    a: Media,
    segment_a: int,
    entries: Fields,
    b: Media,
    segment_b: int,
    more: Fields,
    extra: int,
    by: int,
    index: int,
    known_a: Map<ElementId, int>,
    known_b: Map<ElementId, int>,
)
    requires
        has_one_more(a, segment_a, entries, b, segment_b, more, extra, by),
        0 <= index <= entries.len(),
        all_moved(known_a, known_b, by),
    ensures
        ({
            let next = if index <= extra {
                index
            } else {
                index + 1
            };
            let (found_a, end_a) = listed_from(a, segment_a, entries, index, known_a);
            let (found_b, end_b) = listed_from(b, segment_b, more, next, known_b);
            &&& end_a == end_b
            &&& all_moved(found_a, found_b, by)
        }),
    decreases entries.len() - index,
{
    reveal_with_fuel(listed_from, 3);
    if index < entries.len() {
        let place = if index < extra {
            index
        } else {
            index + 1
        };
        assert(entry_moved(
            entry_of(a, entries[index]),
            segment_a,
            entry_of(b, more[place]),
            segment_b,
            by,
        ));
        let known_a_too = match entry_of(a, entries[index]) {
            Ok(Some(entry)) => known_a.insert(entry.id, segment_a + entry.offset),
            _ => known_a,
        };
        let known_b_too = match entry_of(b, more[place]) {
            Ok(Some(entry)) => known_b.insert(entry.id, segment_b + entry.offset),
            _ => known_b,
        };
        let fits = match entry_of(a, entries[index]) {
            Ok(Some(entry)) => segment_a + entry.offset <= u64::MAX,
            _ => true,
        };
        if fits {
            if let Ok(Some(entry)) = entry_of(a, entries[index]) {
                lemma_insert_moved(known_a, known_b, by, entry.id, segment_a + entry.offset);
            }
            lemma_listing_skips_one(
                a,
                segment_a,
                entries,
                b,
                segment_b,
                more,
                extra,
                by,
                index + 1,
                known_a_too,
                known_b_too,
            );
        }
    }
}

/// A child of a SeekHead element that gives no entry, such as a Seek element without a position, is
/// skipped and not reported. Let `a` be a file whose segment starts with a SeekHead element. Let `b`
/// be a file with the same header, whose SeekHead element has one more child, which gives no entry,
/// and otherwise lists the same elements where they lie in `b`; and that goes on like `a`. If Info or
/// Tracks elements are listed, let them lie behind the SeekHead element. Then both files open alike.
pub proof fn law_incomplete_entry_changes_nothing(
    a: Media,
    b: Media,
    start_a: int,
    start_b: int,
    header: EbmlHeaderView,
    segment_a: int,
    segment_b: int,
    offset_a: int,
    size_a: int,
    offset_b: int,
    size_b: int,
    entries: Fields,
    more: Fields,
    extra: int,
)
    requires
        segment_of(a, start_a) == Some((header, segment_a)),
        segment_of(b, start_b) == Some((header, segment_b)),
        seek_head_from(a, segment_a) == Ok::<Option<(int, int)>, DemuxError>(
            Some((offset_a, size_a)),
        ),
        seek_head_from(b, segment_b) == Ok::<Option<(int, int)>, DemuxError>(
            Some((offset_b, size_b)),
        ),
        children_at(a, offset_a, size_a) matches Ok((children, _)) && children == entries,
        children_at(b, offset_b, size_b) matches Ok((children, _)) && children == more,
        continues(a, b, offset_a + size_a, (offset_b + size_b) - (offset_a + size_a)),
        has_one_more(
            a,
            segment_a,
            entries,
            b,
            segment_b,
            more,
            extra,
            (offset_b + size_b) - (offset_a + size_a),
        ),
        listed_positions(a, segment_a) matches Ok(listed) ==> {
            &&& listed.contains_key(ElementId::Info) ==> offset_a + size_a
                <= listed[ElementId::Info]
            &&& listed.contains_key(ElementId::Tracks) ==> offset_a + size_a
                <= listed[ElementId::Tracks]
        },
    ensures
        open_alike(opened(a, start_a), opened(b, start_b)),
{
    let from = offset_a + size_a;
    let by = (offset_b + size_b) - from;
    let empty = Map::<ElementId, int>::empty();
    lemma_segment_inside(a, start_a);
    lemma_segment_inside(b, start_b);
    lemma_listing_skips_one(
        a,
        segment_a,
        entries,
        b,
        segment_b,
        more,
        extra,
        by,
        0,
        empty,
        empty,
    );
    if let Ok(listed_a) = listed_positions(a, segment_a) {
        let listed_b = listed_positions(b, segment_b)->Ok_0;
        assert(all_moved(listed_a, listed_b, by));
        lemma_walk_behind_seek_head(a, segment_a, empty);
        lemma_walk_behind_seek_head(b, segment_b, empty);
        lemma_intact_walk_ends_well(a, segment_a, empty);
        lemma_intact_walk_ends_well(b, segment_b, empty);
        lemma_walk_moved(a, b, from, by, from, empty, empty);
        law_built_entries_are_right(a, from);
        if listed_a.is_empty() {
            assert forall|id: ElementId| !listed_b.dom().contains(id) by {
                assert(listed_a.contains_key(id) == listed_b.contains_key(id));
            }
            assert(listed_a =~= empty);
            assert(listed_b =~= empty);
            assert(empty.is_empty());
        } else {
            let some = listed_a.dom().choose();
            assert(listed_a.contains_key(some));
            assert(listed_b.dom().contains(some));
        }
        let known_a = indexed_positions(a, segment_a)->Ok_0;
        let known_b = indexed_positions(b, segment_b)->Ok_0;
        assert(known_a.contains_key(ElementId::Info) == known_b.contains_key(ElementId::Info));
        assert(known_a.contains_key(ElementId::Tracks) == known_b.contains_key(ElementId::Tracks));
        assert(known_a.contains_key(ElementId::Cluster) == known_b.contains_key(
            ElementId::Cluster,
        ));
        lemma_indexed_alike_is_known_alike(
            a,
            b,
            segment_a,
            segment_b,
            from,
            by,
            known_a,
            known_b,
        );
    }
    lemma_known_alike_opens_alike(
        a,
        b,
        start_a,
        start_b,
        header,
        segment_a,
        segment_b,
        from,
        by,
    );
}

} // verus!
