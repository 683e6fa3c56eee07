//! Files that hold the same octets, but not at the same positions.

use vstd::prelude::*;

use crate::ebml::{children_at, children_from, element_at, following, header_at, master_at};
use crate::ebml::{lemma_element_advances, lemma_header_inside, DataView, Element, Fields};
use crate::element_id::ElementId;
use crate::fields::field;
use crate::file::tracks_from;
use crate::info::info_of;
use crate::seek::cluster_from;
use crate::source::Media;
use crate::track::track_entry_of;
use crate::vint::{id_at, lemma_vint_range, size_at, vint_width, UNKNOWN_SIZE};

verus! {

/// Whether a source refuses nothing, and is so much shorter than positions can be that a position
/// lies behind every element of known size.
pub open spec fn is_intact(media: Media) -> bool {
    &&& forall|position: int, length: int| !#[trigger] (media.read_refused)(position, length)
    &&& forall|position: int| !#[trigger] (media.seek_refused)(position)
    &&& media.octets.len() + 0x100_0000_0000_0000 <= u64::MAX
}

/// Whether two intact files hold the same octets to their end, in `a` from `from` on and in `b` from
/// `by` octets later on.
pub open spec fn continues(a: Media, b: Media, from: int, by: int) -> bool {
    &&& is_intact(a)
    &&& is_intact(b)
    &&& 1 <= from
    &&& 1 <= from + by
    &&& b.octets.len() == a.octets.len() + by
    &&& forall|i: int| from <= i < a.octets.len() ==> b.octets[i + by] == #[trigger] a.octets[i]
}

/// The data of an element that lies `by` octets later.
pub open spec fn data_moved(data: DataView, by: int) -> DataView {
    match data {
        DataView::Location { offset, size } => DataView::Location { offset: offset + by, size },
        other => other,
    }
}

/// Elements that lie `by` octets later.
pub open spec fn fields_moved(fields: Fields, by: int) -> Fields {
    fields.map_values(|child: (ElementId, DataView)| (child.0, data_moved(child.1, by)))
}

/// Whether data that was only located lies behind `from`, starts inside the file, and has a size that
/// a file can give.
pub open spec fn lies_within(media: Media, from: int, data: DataView) -> bool {
    data matches DataView::Location { offset, size } ==> {
        &&& from <= offset <= media.octets.len()
        &&& size == UNKNOWN_SIZE || 0 <= size < 0x100_0000_0000_0000
    }
}

/// Whether this holds of the data of all elements.
pub open spec fn all_within(media: Media, from: int, fields: Fields) -> bool {
    forall|i: int| 0 <= i < fields.len() ==> lies_within(media, from, (#[trigger] fields[i]).1)
}

proof fn lemma_read_moved(a: Media, b: Media, from: int, by: int, position: int, length: int)
    requires
        continues(a, b, from, by),
        from <= position,
    ensures
        b.read(position + by, length) == a.read(position, length),
{
    if 0 < length && position + length <= a.octets.len() {
        let held = a.octets.subrange(position, position + length);
        let moved = b.octets.subrange(position + by, position + by + length);
        assert forall|i: int| 0 <= i < length implies held[i] == moved[i] by {
            assert(b.octets[(position + i) + by] == a.octets[position + i]);
        }
        assert(held =~= moved);
    }
}

proof fn lemma_header_moved(a: Media, b: Media, from: int, by: int, position: int)
    requires
        continues(a, b, from, by),
        from <= position,
    ensures
        match (header_at(a, position), header_at(b, position + by)) {
            (Ok(header), Ok(moved)) => {
                &&& moved.id == header.id
                &&& moved.size == header.size
                &&& moved.data == header.data + by
            },
            (Err(error), Err(cause)) => error == cause,
            _ => false,
        },
{
    reveal(header_at);
    lemma_read_moved(a, b, from, by, position, 1);
    if let Ok(first) = a.read(position, 1) {
        let width = vint_width(first[0]);
        lemma_read_moved(a, b, from, by, position + 1, width - 1);
        if let Ok((number, behind)) = id_at(a, position) {
            lemma_read_moved(a, b, from, by, behind, 1);
            if let Ok(first) = a.read(behind, 1) {
                let width = vint_width(first[0]);
                lemma_read_moved(a, b, from, by, behind + 1, width - 1);
            }
        }
    }
}

/// The size that a header announces is below what seven bits in each of eight octets can give, or it
/// is not known.
proof fn lemma_header_size(media: Media, position: int)
    ensures
        header_at(media, position) matches Ok(header) ==> {
            ||| header.size == UNKNOWN_SIZE
            ||| 0 <= header.size < 0x100_0000_0000_0000
        },
{
    reveal(header_at);
    if let Ok((number, behind)) = id_at(media, position) {
        if let Ok((size, data)) = size_at(media, behind) {
            let first = media.read(behind, 1)->Ok_0;
            let width = vint_width(first[0]);
            let rest = media.read(behind + 1, width - 1)->Ok_0;
            assert((first + rest)[0] == first[0]);
            lemma_vint_range(first + rest);
        }
    }
}

/// An element is the same in a file in which it lies elsewhere, and what follows it follows it there.
pub proof fn lemma_element_moved(a: Media, b: Media, from: int, by: int, position: int)
    requires
        continues(a, b, from, by),
        from <= position,
    ensures
        match (element_at(a, position), element_at(b, position + by)) {
            (Ok(element), Ok(moved)) => {
                &&& moved == (Element {
                    id: element.id,
                    data: data_moved(element.data, by),
                    next: element.next + by,
                })
                &&& lies_within(a, from, element.data)
                &&& position + 2 <= element.next
                &&& match (following(a, element), following(b, moved)) {
                    (Ok(Some(next)), Ok(Some(other))) => {
                        &&& other == next + by
                        &&& position + 2 <= next
                    },
                    (Ok(None), Ok(None)) => true,
                    _ => false,
                }
            },
            (Err(error), Err(cause)) => error == cause,
            _ => false,
        },
{
    reveal(element_at);
    lemma_header_moved(a, b, from, by, position);
    lemma_header_inside(a, position);
    lemma_header_inside(b, position + by);
    lemma_header_size(a, position);
    lemma_element_advances(a, position);
    if let Ok(header) = header_at(a, position) {
        lemma_read_moved(a, b, from, by, header.data, header.size);
    }
}

proof fn lemma_children_from_moved(a: Media, b: Media, from: int, by: int, position: int, end: int)
    requires
        continues(a, b, from, by),
        from <= position,
    ensures
        match (children_from(a, position, end), children_from(b, position + by, end + by)) {
            (Ok((fields, _)), Ok((moved, _))) => {
                &&& moved == fields_moved(fields, by)
                &&& all_within(a, from, fields)
            },
            (Err(error), Err(cause)) => error == cause,
            _ => false,
        },
    decreases a.remaining(position),
{
    if position < end {
        lemma_element_moved(a, b, from, by, position);
        lemma_element_advances(a, position);
        if let Ok(element) = element_at(a, position) {
            let child = seq![(element.id, element.data)];
            let other = element_at(b, position + by)->Ok_0;
            let other_child = seq![(other.id, other.data)];
            assert(other_child =~= fields_moved(child, by));
            if let Ok(Some(next)) = following(a, element) {
                lemma_children_from_moved(a, b, from, by, next, end);
                if let Ok((others, _)) = children_from(a, next, end) {
                    assert(fields_moved(child + others, by) =~= fields_moved(child, by)
                        + fields_moved(others, by));
                    assert forall|i: int| 0 <= i < (child + others).len() implies lies_within(
                        a,
                        from,
                        (#[trigger] (child + others)[i]).1,
                    ) by {
                        if i > 0 {
                            assert((child + others)[i] == others[i - 1]);
                        }
                    }
                }
            }
        }
    } else {
        assert(fields_moved(Seq::empty(), by) =~= Seq::empty());
    }
}

/// The children of a master element are the same in a file in which it lies elsewhere.
pub proof fn lemma_children_moved(a: Media, b: Media, from: int, by: int, offset: int, size: int)
    requires
        continues(a, b, from, by),
        lies_within(a, from, DataView::Location { offset, size }),
    ensures
        match (children_at(a, offset, size), children_at(b, offset + by, size)) {
            (Ok((fields, _)), Ok((moved, _))) => {
                &&& moved == fields_moved(fields, by)
                &&& all_within(a, from, fields)
            },
            (Err(error), Err(cause)) => error == cause,
            _ => false,
        },
{
    lemma_children_from_moved(a, b, from, by, offset, offset + size);
    assert(offset + size + by == offset + by + size);
}

/// A master element is found in a file in which it lies elsewhere.
pub proof fn lemma_master_moved(
    a: Media,
    b: Media,
    from: int,
    by: int,
    position: int,
    expected: ElementId,
)
    requires
        continues(a, b, from, by),
        from <= position,
    ensures
        match (master_at(a, position, expected), master_at(b, position + by, expected)) {
            (Ok((offset, size)), Ok((place, length))) => {
                &&& place == offset + by
                &&& length == size
                &&& lies_within(a, from, DataView::Location { offset, size })
            },
            (Err(error), Err(cause)) => error == cause,
            _ => false,
        },
{
    lemma_header_moved(a, b, from, by, position);
    lemma_header_inside(a, position);
    lemma_header_size(a, position);
}

proof fn lemma_field_moved(fields: Fields, by: int, id: ElementId)
    ensures
        match (field(fields, id), field(fields_moved(fields, by), id)) {
            (Some(data), Some(moved)) => moved == data_moved(data, by),
            (None, None) => true,
            _ => false,
        },
    decreases fields.len(),
{
    if fields.len() > 0 && fields[0].0 != id {
        lemma_field_moved(fields.drop_first(), by, id);
        assert(fields_moved(fields, by).drop_first() =~= fields_moved(fields.drop_first(), by));
    }
}

proof fn lemma_field_within(media: Media, from: int, fields: Fields, id: ElementId)
    requires
        all_within(media, from, fields),
    ensures
        field(fields, id) matches Some(data) ==> lies_within(media, from, data),
    decreases fields.len(),
{
    if fields.len() > 0 && fields[0].0 != id {
        let rest = fields.drop_first();
        assert forall|i: int| 0 <= i < rest.len() implies lies_within(
            media,
            from,
            (#[trigger] rest[i]).1,
        ) by {
            assert(rest[i] == fields[i + 1]);
        }
        lemma_field_within(media, from, rest, id);
    }
}

/// The information on a segment does not depend on where its element lies.
pub proof fn lemma_info_moved(fields: Fields, by: int)
    ensures
        info_of(fields_moved(fields, by)) == info_of(fields),
{
    lemma_field_moved(fields, by, ElementId::TimestampScale);
    lemma_field_moved(fields, by, ElementId::Duration);
    lemma_field_moved(fields, by, ElementId::DateUtc);
    lemma_field_moved(fields, by, ElementId::Title);
    lemma_field_moved(fields, by, ElementId::MuxingApp);
    lemma_field_moved(fields, by, ElementId::WritingApp);
}

proof fn lemma_track_moved(a: Media, b: Media, from: int, by: int, fields: Fields)
    requires
        continues(a, b, from, by),
        all_within(a, from, fields),
    ensures
        track_entry_of(b, fields_moved(fields, by)) == track_entry_of(a, fields),
{
    lemma_field_moved(fields, by, ElementId::TrackNumber);
    lemma_field_moved(fields, by, ElementId::TrackUid);
    lemma_field_moved(fields, by, ElementId::TrackType);
    lemma_field_moved(fields, by, ElementId::FlagEnabled);
    lemma_field_moved(fields, by, ElementId::FlagDefault);
    lemma_field_moved(fields, by, ElementId::FlagForced);
    lemma_field_moved(fields, by, ElementId::FlagLacing);
    lemma_field_moved(fields, by, ElementId::DefaultDuration);
    lemma_field_moved(fields, by, ElementId::Name);
    lemma_field_moved(fields, by, ElementId::Language);
    lemma_field_moved(fields, by, ElementId::CodecId);
    lemma_field_moved(fields, by, ElementId::CodecPrivate);
    lemma_field_moved(fields, by, ElementId::CodecName);
    lemma_field_moved(fields, by, ElementId::CodecDelay);
    lemma_field_moved(fields, by, ElementId::SeekPreRoll);
    lemma_field_within(a, from, fields, ElementId::CodecPrivate);
    if let Some(DataView::Location { offset, size }) = field(fields, ElementId::CodecPrivate) {
        lemma_read_moved(a, b, from, by, offset, size);
    }
}

/// The tracks do not depend on where their elements lie.
pub proof fn lemma_tracks_moved(
    a: Media,
    b: Media,
    from: int,
    by: int,
    children: Fields,
    index: int,
)
    requires
        continues(a, b, from, by),
        all_within(a, from, children),
        0 <= index,
    ensures
        tracks_from(b, fields_moved(children, by), index) == tracks_from(a, children, index),
    decreases children.len() - index,
{
    if index < children.len() {
        lemma_tracks_moved(a, b, from, by, children, index + 1);
        assert(lies_within(a, from, children[index].1));
        if let (ElementId::TrackEntry, DataView::Location { offset, size }) = children[index] {
            lemma_children_moved(a, b, from, by, offset, size);
            if let Ok((fields, _)) = children_at(a, offset, size) {
                lemma_track_moved(a, b, from, by, fields);
            }
        }
    }
}

/// A search for the first cluster ends alike in a file in which the elements lie elsewhere.
pub proof fn lemma_cluster_moved(a: Media, b: Media, from: int, by: int, position: int)
    requires
        continues(a, b, from, by),
        from <= position,
    ensures
        match (cluster_from(a, position), cluster_from(b, position + by)) {
            (Ok(at), Ok(moved)) => moved == at + by && from <= at,
            (Err(error), Err(cause)) => error == cause,
            _ => false,
        },
    decreases a.remaining(position),
{
    lemma_element_moved(a, b, from, by, position);
    lemma_element_advances(a, position);
    if let Ok(element) = element_at(a, position) {
        if let Ok(Some(next)) = following(a, element) {
            lemma_cluster_moved(a, b, from, by, next);
        }
    }
}

} // verus!
