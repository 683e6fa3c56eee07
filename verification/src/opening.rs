//! What holds of the opening of a file.

use vstd::prelude::*;

use crate::ebml::{children_at, element_at, following, header_at, lemma_element_advances, master_at};
use crate::ebml::{lemma_header_inside, moved, DataView, Fields};
use crate::element_id::ElementId;
use crate::error::DemuxError;
use crate::file::{indexed_positions, known_positions, listed_positions, opened, segment_info};
use crate::file::{segment_tracks, tracks_from};
use crate::header::{ebml_header_at, ebml_header_of, EbmlHeaderView};
use crate::info::{info_of, InfoView};
use crate::laws::{describes, law_every_track_is_read, lemma_intact_walk_ends_well, lemma_meets};
use crate::laws::{lemma_segment_inside, lemma_walk_notes_cluster, meets, meets_cluster, segment_of};
use crate::laws::{stands_at, stands_last_at, track_count, track_place};
use crate::seek::{cluster_from, first_cluster, listed_from, noted, seek_head_from, walked_from};
use crate::shift::is_intact;
use crate::source::Media;
use crate::track::{track_entry_of, TrackEntryView};
use crate::vint::UNKNOWN_SIZE;

verus! {

/// The header of a file is read if and only if an EBML element lies at its start, the children of
/// that element can be read, and a header can be made of them. What comes first is the error.
pub proof fn law_header_is_read(media: Media, position: int)
    ensures
        match ebml_header_at(media, position) {
            Ok((header, next)) => {
                &&& header_at(media, position) matches Ok(ebml)
                &&& ebml.id == ElementId::Ebml
                &&& children_at(media, ebml.data, ebml.size) matches Ok((fields, behind))
                &&& behind == next
                &&& ebml_header_of(fields) == Ok::<EbmlHeaderView, DemuxError>(header)
            },
            Err(error) => match header_at(media, position) {
                Err(cause) => error == cause,
                Ok(ebml) => if ebml.id != ElementId::Ebml {
                    error == (DemuxError::UnexpectedElement {
                        expected: ElementId::Ebml,
                        found: ebml.id,
                    })
                } else {
                    match children_at(media, ebml.data, ebml.size) {
                        Err(cause) => error == cause,
                        Ok((fields, _)) => ebml_header_of(fields) == Err::<
                            EbmlHeaderView,
                            DemuxError,
                        >(error),
                    }
                },
            },
        },
{
}

/// A search for the SeekHead element passes checksums and nothing else. It finds the element if that
/// comes next, and nothing if another element or a checksum of unknown size does. It fails if the
/// source refuses to move, or if the next header cannot be read.
pub proof fn law_search_passes_checksums(media: Media, offset: int)
    ensures
        match moved(media, offset) {
            Err(error) => seek_head_from(media, offset) == Err::<Option<(int, int)>, DemuxError>(
                error,
            ),
            Ok(_) => match header_at(media, offset) {
                Err(error) => seek_head_from(media, offset) == Err::<
                    Option<(int, int)>,
                    DemuxError,
                >(error),
                Ok(header) => {
                    &&& header.id == ElementId::SeekHead ==> seek_head_from(media, offset) == Ok::<
                        Option<(int, int)>,
                        DemuxError,
                    >(Some((header.data, header.size)))
                    &&& header.id == ElementId::Crc32 && header.size != UNKNOWN_SIZE
                        ==> seek_head_from(media, offset) == seek_head_from(
                        media,
                        header.data + header.size,
                    )
                    &&& header.id == ElementId::Crc32 && header.size == UNKNOWN_SIZE
                        ==> seek_head_from(media, offset) == Ok::<Option<(int, int)>, DemuxError>(
                        None,
                    )
                    &&& header.id != ElementId::SeekHead && header.id != ElementId::Crc32
                        ==> seek_head_from(media, offset) == Ok::<Option<(int, int)>, DemuxError>(
                        None,
                    )
                },
            },
        },
    decreases media.remaining(offset),
{
    lemma_header_inside(media, offset);
    reveal_with_fuel(seek_head_from, 2);
}

/// The elements that a walk along the top level elements notes.
pub open spec fn worth_noting() -> Set<ElementId> {
    set![
        ElementId::Info,
        ElementId::Tracks,
        ElementId::Chapters,
        ElementId::Cues,
        ElementId::Tags,
        ElementId::Cluster,
    ]
}

/// A walk notes every Info, Tracks, Chapters, Cues, Tags and Cluster element that it meets: the first
/// cluster, unless one was known before, and the last one of each of the others. What it does not
/// meet stays as it was, and nothing else is noted.
pub proof fn law_walk_notes(media: Media, position: int, known: Map<ElementId, int>, id: ElementId)
    ensures
        ({
            let (found, _) = walked_from(media, position, known);
            let met = exists|at: int| stands_at(media, id, at) && #[trigger] meets(media, position, at);
            &&& !worth_noting().contains(id) || !met || (id == ElementId::Cluster
                && known.contains_key(id)) ==> {
                &&& found.contains_key(id) == known.contains_key(id)
                &&& found.contains_key(id) ==> found[id] == known[id]
            }
            &&& worth_noting().contains(id) && met && !(id == ElementId::Cluster
                && known.contains_key(id)) ==> {
                &&& found.contains_key(id)
                &&& stands_at(media, id, found[id])
                &&& meets(media, position, found[id])
                &&& forall|at: int| stands_at(media, id, at) && #[trigger] meets(media, position, at)
                    ==> if id == ElementId::Cluster {
                    found[id] <= at
                } else {
                    at <= found[id]
                }
            }
        }),
    decreases media.remaining(position),
{
    let (found, _) = walked_from(media, position, known);
    if let Ok(element) = element_at(media, position) {
        let noted_too = noted(known, element.id, position);
        if let Ok(Some(next)) = following(media, element) {
            lemma_element_advances(media, position);
            assert(walked_from(media, position, known) == walked_from(media, next, noted_too));
            law_walk_notes(media, next, noted_too, id);
            assert forall|at: int| #[trigger] meets(media, position, at) implies at == position
                || meets(media, next, at) by {}
            assert forall|at: int| #[trigger] meets(media, next, at) implies meets(
                media,
                position,
                at,
            ) && at > position by {
                lemma_meets(media, next, at);
            }
            assert(meets(media, position, position));
            assert(stands_at(media, element.id, position));
        } else {
            assert(found == noted_too);
            assert(meets(media, position, position));
            assert(stands_at(media, element.id, position));
            assert forall|at: int| #[trigger] meets(media, position, at) implies at == position by {}
        }
    }
}

/// A walk fails if and only if the source does not move behind an element that it meets, and with the
/// error of that.
pub proof fn law_walk_fails_only_where_it_cannot_go_on(
    media: Media,
    position: int,
    known: Map<ElementId, int>,
)
    ensures
        match walked_from(media, position, known).1 {
            Ok(()) => forall|at: int| #[trigger]
                meets(media, position, at) ==> !(following(
                    media,
                    element_at(media, at)->Ok_0,
                ) is Err),
            Err(error) => exists|at: int| #[trigger]
                meets(media, position, at) && following(media, element_at(media, at)->Ok_0) == Err::<
                    Option<int>,
                    DemuxError,
                >(error),
        },
    decreases media.remaining(position),
{
    if let Ok(element) = element_at(media, position) {
        assert(meets(media, position, position));
        if let Ok(Some(next)) = following(media, element) {
            lemma_element_advances(media, position);
            let noted_too = noted(known, element.id, position);
            assert(walked_from(media, position, known) == walked_from(media, next, noted_too));
            law_walk_fails_only_where_it_cannot_go_on(media, next, noted_too);
            assert forall|at: int| #[trigger] meets(media, next, at) implies meets(
                media,
                position,
                at,
            ) by {}
            assert forall|at: int| #[trigger] meets(media, position, at) implies at == position
                || meets(media, next, at) by {}
        } else {
            assert forall|at: int| #[trigger] meets(media, position, at) implies at == position by {}
        }
    }
}

/// A search for a cluster finds one if and only if a walk from there meets one. If it meets none, the
/// error is that no cluster could be found, unless the source does not move behind an element.
pub proof fn law_search_finds_a_cluster_if_there_is_one(media: Media, position: int)
    ensures
        cluster_from(media, position) is Ok <==> meets_cluster(media, position, position),
        cluster_from(media, position) matches Err(error) ==> ({
            ||| {
                &&& error == DemuxError::CantFindCluster
                &&& forall|at: int| #[trigger]
                    meets(media, position, at) ==> !(following(
                        media,
                        element_at(media, at)->Ok_0,
                    ) is Err)
            }
            ||| exists|at: int| #[trigger]
                meets(media, position, at) && following(media, element_at(media, at)->Ok_0) == Err::<
                    Option<int>,
                    DemuxError,
                >(error)
        }),
    decreases media.remaining(position),
{
    if let Ok(element) = element_at(media, position) {
        assert(meets(media, position, position));
        if element.id == ElementId::Cluster {
            reveal(element_at);
            assert(stands_at(media, ElementId::Cluster, position));
        } else if let Ok(Some(next)) = following(media, element) {
            lemma_element_advances(media, position);
            law_search_finds_a_cluster_if_there_is_one(media, next);
            assert forall|at: int| #[trigger] meets(media, next, at) implies meets(
                media,
                position,
                at,
            ) && at > position by {
                lemma_meets(media, next, at);
            }
            assert forall|at: int| #[trigger] meets(media, position, at) implies at == position
                || meets(media, next, at) by {}
            if meets_cluster(media, position, position) {
                let at = choose|at: int|
                    position <= at && stands_at(media, ElementId::Cluster, at) && #[trigger] meets(
                        media,
                        position,
                        at,
                    );
                assert(meets(media, next, at));
                lemma_meets(media, next, at);
            }
        } else {
            assert forall|at: int| #[trigger] meets(media, position, at) implies at == position by {}
        }
    }
}

/// The first cluster is looked for behind the Tracks element, if that is known, lies where it should
/// and the source moves behind it. What comes first is the error.
pub proof fn law_cluster_is_looked_for_behind_the_tracks(media: Media, known: Map<ElementId, int>)
    ensures
        !known.contains_key(ElementId::Tracks) ==> first_cluster(media, known) == Err::<
            int,
            DemuxError,
        >(DemuxError::CantFindCluster),
        known.contains_key(ElementId::Tracks) ==> match moved(media, known[ElementId::Tracks]) {
            Err(error) => first_cluster(media, known) == Err::<int, DemuxError>(error),
            Ok(_) => match master_at(media, known[ElementId::Tracks], ElementId::Tracks) {
                Err(error) => first_cluster(media, known) == Err::<int, DemuxError>(error),
                Ok((offset, size)) => match moved(media, offset + size) {
                    Err(error) => first_cluster(media, known) == Err::<int, DemuxError>(error),
                    Ok(_) => first_cluster(media, known) == cluster_from(media, offset + size),
                },
            },
        },
{
}

/// Whether the master element `id` lies at `position`, and its children can be read and are these.
pub open spec fn has_children(media: Media, id: ElementId, position: int, fields: Fields) -> bool {
    &&& moved(media, position) is Ok
    &&& master_at(media, position, id) matches Ok((offset, size))
    &&& children_at(media, offset, size) matches Ok((children, _))
    &&& children == fields
}

/// Whether the children of the master element `id` at `position` cannot be read, and why.
pub open spec fn lacks_children(
    media: Media,
    id: ElementId,
    position: int,
    error: DemuxError,
) -> bool {
    match moved(media, position) {
        Err(cause) => error == cause,
        Ok(_) => match master_at(media, position, id) {
            Err(cause) => error == cause,
            Ok((offset, size)) => children_at(media, offset, size) matches Err(cause) && error
                == cause,
        },
    }
}

/// The information on a segment is read if and only if the position of the Info element is known, the
/// children of the element there can be read, and information can be made of them. What comes first
/// is the error.
pub proof fn law_info_is_read(media: Media, known: Map<ElementId, int>)
    ensures
        match segment_info(media, known) {
            Ok(info) => known.contains_key(ElementId::Info) && exists|fields: Fields|
                {
                    &&& has_children(media, ElementId::Info, known[ElementId::Info], fields)
                    &&& #[trigger] info_of(fields) == Ok::<InfoView, DemuxError>(info)
                },
            Err(error) => if !known.contains_key(ElementId::Info) {
                error == DemuxError::ElementNotFound(ElementId::Info)
            } else {
                ||| lacks_children(media, ElementId::Info, known[ElementId::Info], error)
                ||| exists|fields: Fields|
                    {
                        &&& has_children(media, ElementId::Info, known[ElementId::Info], fields)
                        &&& #[trigger] info_of(fields) == Err::<InfoView, DemuxError>(error)
                    }
            },
        },
{
    if known.contains_key(ElementId::Info) {
        let at = known[ElementId::Info];
        if let Ok((offset, size)) = master_at(media, at, ElementId::Info) {
            if let Ok((fields, _)) = children_at(media, offset, size) {
                if moved(media, at) is Ok {
                    assert(has_children(media, ElementId::Info, at, fields));
                    assert(info_of(fields) == segment_info(media, known));
                }
            }
        }
    }
}

/// What is wrong with a child of the Tracks element: it describes a track, but its children cannot be
/// read or no track can be made of them.
pub open spec fn track_fault(media: Media, child: (ElementId, DataView)) -> Option<DemuxError> {
    match child {
        (ElementId::TrackEntry, DataView::Location { offset, size }) => match children_at(
            media,
            offset,
            size,
        ) {
            Err(error) => Some(error),
            Ok((fields, _)) => match track_entry_of(media, fields) {
                Err(error) => Some(error),
                Ok(_) => None,
            },
        },
        _ => None,
    }
}

/// Tracks are read if and only if nothing is wrong with any child that describes one, however many
/// there are; what is wrong with the first wrong one is the error.
pub proof fn law_tracks_fail_only_for_a_fault(media: Media, children: Fields, index: int)
    requires
        0 <= index,
    ensures
        match tracks_from(media, children, index) {
            Ok(_) => forall|i: int|
                index <= i < children.len() ==> track_fault(media, #[trigger] children[i]) is None,
            Err(error) => exists|i: int|
                {
                    &&& index <= i < children.len()
                    &&& track_fault(media, #[trigger] children[i]) == Some(error)
                    &&& forall|j: int|
                        index <= j < i ==> track_fault(media, #[trigger] children[j]) is None
                },
        },
    decreases children.len() - index,
{
    if index < children.len() {
        law_tracks_fail_only_for_a_fault(media, children, index + 1);
        if track_fault(media, children[index]) is None {
            assert(tracks_from(media, children, index) is Ok <==> tracks_from(
                media,
                children,
                index + 1,
            ) is Ok);
        }
    }
}

/// The tracks are read if and only if the position of the Tracks element is known, the children of
/// the element there can be read, and nothing is wrong with any that describes a track. There are as
/// many tracks as such children, none included, and each is the one that its child describes. What
/// comes first is the error; a missing Tracks element is reported as a missing Info element.
pub proof fn law_tracks_are_read(media: Media, known: Map<ElementId, int>)
    ensures
        match segment_tracks(media, known) {
            Ok(tracks) => known.contains_key(ElementId::Tracks) && exists|children: Fields|
                {
                    &&& #[trigger] has_children(
                        media,
                        ElementId::Tracks,
                        known[ElementId::Tracks],
                        children,
                    )
                    &&& tracks.len() == track_count(children, 0)
                    &&& forall|nth: int|
                        0 <= nth < tracks.len() ==> describes(
                            media,
                            children[track_place(children, 0, nth)],
                            #[trigger] tracks[nth],
                        )
                    &&& forall|i: int|
                        0 <= i < children.len() ==> track_fault(
                            media,
                            #[trigger] children[i],
                        ) is None
                },
            Err(error) => if !known.contains_key(ElementId::Tracks) {
                error == DemuxError::ElementNotFound(ElementId::Info)
            } else {
                ||| lacks_children(media, ElementId::Tracks, known[ElementId::Tracks], error)
                ||| exists|children: Fields, i: int|
                    {
                        &&& #[trigger] has_children(
                            media,
                            ElementId::Tracks,
                            known[ElementId::Tracks],
                            children,
                        )
                        &&& 0 <= i < children.len()
                        &&& track_fault(media, #[trigger] children[i]) == Some(error)
                        &&& forall|j: int|
                            0 <= j < i ==> track_fault(media, #[trigger] children[j]) is None
                    }
            },
        },
{
    if known.contains_key(ElementId::Tracks) {
        let at = known[ElementId::Tracks];
        if let Ok((offset, size)) = master_at(media, at, ElementId::Tracks) {
            if let Ok((children, _)) = children_at(media, offset, size) {
                if moved(media, at) is Ok {
                    assert(has_children(media, ElementId::Tracks, at, children));
                    assert(tracks_from(media, children, 0) == segment_tracks(media, known));
                    law_every_track_is_read(media, children, 0);
                    law_tracks_fail_only_for_a_fault(media, children, 0);
                }
            }
        }
    }
}

/// What a SeekHead element lists is what its children list, none if there is no such element. If it
/// cannot be looked for, or its children cannot be read, that is the error.
pub proof fn law_positions_are_listed(media: Media, segment_data_offset: int)
    ensures
        match seek_head_from(media, segment_data_offset) {
            Err(error) => listed_positions(media, segment_data_offset) == Err::<
                Map<ElementId, int>,
                DemuxError,
            >(error),
            Ok(None) => listed_positions(media, segment_data_offset) == Ok::<
                Map<ElementId, int>,
                DemuxError,
            >(Map::empty()),
            Ok(Some((offset, size))) => match children_at(media, offset, size) {
                Err(error) => listed_positions(media, segment_data_offset) == Err::<
                    Map<ElementId, int>,
                    DemuxError,
                >(error),
                Ok((entries, _)) => {
                    let (listed, end) = listed_from(
                        media,
                        segment_data_offset,
                        entries,
                        0,
                        Map::empty(),
                    );
                    match listed_positions(media, segment_data_offset) {
                        Ok(positions) => end is Ok && positions == listed,
                        Err(error) => end == Err::<(), DemuxError>(error),
                    }
                },
            },
        },
{
}

/// Which positions are known: those that are listed, or if none are listed those that a walk from the
/// start of the segment data notes; and that of a cluster, which is looked for if it is not among
/// them. Whatever of this fails first is the error, and nothing else is.
pub proof fn law_positions_are_known(media: Media, segment_data_offset: int)
    ensures
        match listed_positions(media, segment_data_offset) {
            Err(error) => indexed_positions(media, segment_data_offset) == Err::<
                Map<ElementId, int>,
                DemuxError,
            >(error),
            Ok(listed) => if exists|id: ElementId| #[trigger] listed.contains_key(id) {
                indexed_positions(media, segment_data_offset) == Ok::<
                    Map<ElementId, int>,
                    DemuxError,
                >(listed)
            } else {
                match moved(media, segment_data_offset) {
                    Err(error) => indexed_positions(media, segment_data_offset) == Err::<
                        Map<ElementId, int>,
                        DemuxError,
                    >(error),
                    Ok(_) => {
                        let (found, end) = walked_from(media, segment_data_offset, Map::empty());
                        match indexed_positions(media, segment_data_offset) {
                            Ok(positions) => end is Ok && positions == found,
                            Err(error) => end == Err::<(), DemuxError>(error),
                        }
                    },
                }
            },
        },
        match indexed_positions(media, segment_data_offset) {
            Err(error) => known_positions(media, segment_data_offset) == Err::<
                Map<ElementId, int>,
                DemuxError,
            >(error),
            Ok(indexed) => match known_positions(media, segment_data_offset) {
                Ok(known) => {
                    &&& indexed.contains_key(ElementId::Cluster) ==> known == indexed
                    &&& !indexed.contains_key(ElementId::Cluster) ==> first_cluster(media, indexed)
                        == Ok::<int, DemuxError>(known[ElementId::Cluster]) && known
                        == indexed.insert(ElementId::Cluster, known[ElementId::Cluster])
                },
                Err(error) => !indexed.contains_key(ElementId::Cluster) && first_cluster(
                    media,
                    indexed,
                ) == Err::<int, DemuxError>(error),
            },
        },
{
    if let Ok(listed) = listed_positions(media, segment_data_offset) {
        if exists|id: ElementId| #[trigger] listed.contains_key(id) {
            let id = choose|id: ElementId| #[trigger] listed.contains_key(id);
            assert(listed.dom().contains(id));
        } else {
            assert forall|id: ElementId| !listed.dom().contains(id) by {
                assert(!listed.contains_key(id));
            }
            assert(listed =~= Map::empty());
            assert(Map::<ElementId, int>::empty().is_empty());
        }
    }
    if let Ok(indexed) = indexed_positions(media, segment_data_offset) {
        if let Ok(known) = known_positions(media, segment_data_offset) {
            if !indexed.contains_key(ElementId::Cluster) {
                assert(known == indexed.insert(ElementId::Cluster, known[ElementId::Cluster]));
            }
        }
    }
}

/// A file opens if and only if its header, the header of its segment, the positions of its elements,
/// its information and its tracks can all be read, and it is made of exactly these: whatever they
/// are, and however many tracks there are. What cannot be read first is the error.
pub proof fn law_a_file_opens_if_all_of_it_can_be_read(media: Media, position: int)
    ensures
        match opened(media, position) {
            Ok(file) => {
                &&& ebml_header_at(media, position) matches Ok((header, next))
                &&& master_at(media, next, ElementId::Segment) matches Ok((offset, _))
                &&& known_positions(media, offset) == Ok::<Map<ElementId, int>, DemuxError>(
                    file.seek_head,
                )
                &&& file.ebml_header == header
                &&& segment_info(media, file.seek_head) == Ok::<InfoView, DemuxError>(file.info)
                &&& segment_tracks(media, file.seek_head) == Ok::<Seq<TrackEntryView>, DemuxError>(
                    file.tracks,
                )
            },
            Err(error) => match ebml_header_at(media, position) {
                Err(cause) => error == cause,
                Ok((_, next)) => match master_at(media, next, ElementId::Segment) {
                    Err(cause) => error == cause,
                    Ok((offset, _)) => match known_positions(media, offset) {
                        Err(cause) => error == cause,
                        Ok(known) => {
                            ||| segment_info(media, known) == Err::<InfoView, DemuxError>(error)
                            ||| segment_info(media, known) is Ok && segment_tracks(media, known)
                                == Err::<Seq<TrackEntryView>, DemuxError>(error)
                        },
                    },
                },
            },
        },
{
}

/// Whether the Info and the Tracks element at these places can be read: information can be made of the
/// children of the one, and a track of every child of the other that describes one.
pub open spec fn content_is_readable(
    media: Media,
    info: int,
    info_fields: Fields,
    tracks: int,
    track_fields: Fields,
) -> bool {
    &&& has_children(media, ElementId::Info, info, info_fields)
    &&& info_of(info_fields) is Ok
    &&& has_children(media, ElementId::Tracks, tracks, track_fields)
    &&& forall|i: int|
        0 <= i < track_fields.len() ==> track_fault(media, #[trigger] track_fields[i]) is None
}

/// Whether a file could be opened, with this header, with the information that the children of the
/// Info element give, and with one track for every child of the Tracks element that describes one.
pub open spec fn opens_with(
    media: Media,
    position: int,
    header: EbmlHeaderView,
    info_fields: Fields,
    track_fields: Fields,
) -> bool {
    &&& opened(media, position) matches Ok(file)
    &&& file.ebml_header == header
    &&& info_of(info_fields) == Ok::<InfoView, DemuxError>(file.info)
    &&& file.tracks.len() == track_count(track_fields, 0)
    &&& forall|nth: int|
        0 <= nth < file.tracks.len() ==> describes(
            media,
            track_fields[track_place(track_fields, 0, nth)],
            #[trigger] file.tracks[nth],
        )
}

proof fn lemma_known_content_opens(
    media: Media,
    position: int,
    header: EbmlHeaderView,
    segment: int,
    known: Map<ElementId, int>,
    info_fields: Fields,
    track_fields: Fields,
)
    requires
        segment_of(media, position) == Some((header, segment)),
        known_positions(media, segment) == Ok::<Map<ElementId, int>, DemuxError>(known),
        known.contains_key(ElementId::Info),
        known.contains_key(ElementId::Tracks),
        content_is_readable(
            media,
            known[ElementId::Info],
            info_fields,
            known[ElementId::Tracks],
            track_fields,
        ),
    ensures
        opens_with(media, position, header, info_fields, track_fields),
{
    law_tracks_fail_only_for_a_fault(media, track_fields, 0);
    law_every_track_is_read(media, track_fields, 0);
    assert(segment_info(media, known) == info_of(info_fields));
    assert(segment_tracks(media, known) == tracks_from(media, track_fields, 0));
}

/// A file without a SeekHead element opens if its header can be read, and a walk along its segment
/// meets a cluster, an Info element and a Tracks element, the last of which can be read. It has the
/// values that these hold, and one track for every child that describes one, however many there are.
pub proof fn law_a_plain_file_opens(
    media: Media,
    position: int,
    header: EbmlHeaderView,
    segment: int,
    info: int,
    info_fields: Fields,
    tracks: int,
    track_fields: Fields,
)
    requires
        is_intact(media),
        segment_of(media, position) == Some((header, segment)),
        seek_head_from(media, segment) == Ok::<Option<(int, int)>, DemuxError>(None),
        stands_last_at(media, segment, ElementId::Info, info),
        stands_last_at(media, segment, ElementId::Tracks, tracks),
        meets_cluster(media, segment, segment),
        content_is_readable(media, info, info_fields, tracks, track_fields),
    ensures
        opens_with(media, position, header, info_fields, track_fields),
{
    let empty = Map::<ElementId, int>::empty();
    let (found, _) = walked_from(media, segment, empty);
    lemma_segment_inside(media, position);
    lemma_intact_walk_ends_well(media, segment, empty);
    lemma_walk_notes_cluster(media, segment);
    law_walk_notes(media, segment, empty, ElementId::Info);
    law_walk_notes(media, segment, empty, ElementId::Tracks);
    assert(found[ElementId::Info] == info);
    assert(found[ElementId::Tracks] == tracks);
    law_positions_are_known(media, segment);
    assert(listed_positions(media, segment) == Ok::<Map<ElementId, int>, DemuxError>(empty));
    assert(indexed_positions(media, segment) == Ok::<Map<ElementId, int>, DemuxError>(found));
    lemma_known_content_opens(media, position, header, segment, found, info_fields, track_fields);
}

/// A file with a SeekHead element opens if its header can be read, and an Info element and a Tracks
/// element that can be read lie where they are listed, if a cluster is listed or can be found behind
/// the tracks. It has the values that these hold, and one track for every child that describes one,
/// however many there are. Whatever else is listed does no harm.
pub proof fn law_an_indexed_file_opens(
    media: Media,
    position: int,
    header: EbmlHeaderView,
    segment: int,
    listed: Map<ElementId, int>,
    info_fields: Fields,
    track_fields: Fields,
)
    requires
        segment_of(media, position) == Some((header, segment)),
        listed_positions(media, segment) == Ok::<Map<ElementId, int>, DemuxError>(listed),
        listed.contains_key(ElementId::Info),
        listed.contains_key(ElementId::Tracks),
        content_is_readable(
            media,
            listed[ElementId::Info],
            info_fields,
            listed[ElementId::Tracks],
            track_fields,
        ),
        !listed.contains_key(ElementId::Cluster) ==> (master_at(
            media,
            listed[ElementId::Tracks],
            ElementId::Tracks,
        ) matches Ok((offset, size)) && moved(media, offset + size) is Ok && meets_cluster(
            media,
            offset + size,
            offset + size,
        )),
    ensures
        opens_with(media, position, header, info_fields, track_fields),
{
    law_positions_are_known(media, segment);
    if let Ok((offset, size)) = master_at(media, listed[ElementId::Tracks], ElementId::Tracks) {
        law_search_finds_a_cluster_if_there_is_one(media, offset + size);
    }
    law_cluster_is_looked_for_behind_the_tracks(media, listed);
    let known = known_positions(media, segment)->Ok_0;
    assert(known_positions(media, segment) is Ok);
    lemma_known_content_opens(media, position, header, segment, known, info_fields, track_fields);
}

} // verus!
