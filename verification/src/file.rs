//! A Matroska file as a whole.

use vstd::prelude::*;

use crate::ebml::{children_at, fields_of, master_at, moved};
use crate::ebml::{collect_children, expect_master, DataView, ElementData, Fields};
use crate::element_id::ElementId;
use crate::error::DemuxError;
use crate::header::{ebml_header_at, parse_ebml_header, EbmlHeader, EbmlHeaderView};
use crate::info::{info_of, Info, InfoView};
use crate::seek::{build_seek_head, find_first_cluster_offset, read_seek_entries, search_seek_head};
use crate::seek::{first_cluster, listed_from, seek_head_from, walked_from, SeekHead};
use crate::source::{Media, Source};
use crate::track::{track_entry_of, TrackEntry, TrackEntryView};

verus! {

/// The children of the master element `id`, whose position is known.
pub open spec fn known_children(media: Media, known: Map<ElementId, int>, id: ElementId) -> Result<
    Fields,
    DemuxError,
> {
    match moved(media, known[id]) {
        Err(error) => Err(error),
        Ok(position) => match master_at(media, position, id) {
            Err(error) => Err(error),
            Ok((offset, size)) => match children_at(media, offset, size) {
                Err(error) => Err(error),
                Ok((fields, _)) => Ok(fields),
            },
        },
    }
}

/// The segment information of a file whose seek head is known.
pub open spec fn segment_info(media: Media, known: Map<ElementId, int>) -> Result<
    InfoView,
    DemuxError,
> {
    if !known.contains_key(ElementId::Info) {
        Err(DemuxError::ElementNotFound(ElementId::Info))
    } else {
        match known_children(media, known, ElementId::Info) {
            Err(error) => Err(error),
            Ok(fields) => info_of(fields),
        }
    }
}

/// Reads the segment information.
pub fn parse_segment_info<R: Source>(r: &mut R, seek_head: &SeekHead) -> (result: Result<
    Info,
    DemuxError,
>)
    ensures
        final(r).media() == old(r).media(),
        match (result, segment_info(old(r).media(), seek_head@)) {
            (Ok(info), Ok(view)) => info@ == view,
            (Err(error), Err(cause)) => error == cause,
            _ => false,
        },
{
    if let Some(offset) = seek_head.get(ElementId::Info) {
        let (info_data_offset, info_data_size): (u64, u64) = expect_master(
            r,
            ElementId::Info,
            Some(offset),
        )?;
        let children = collect_children(r, info_data_offset, info_data_size)?;
        Info::new(children.as_slice())
    } else {
        Err(DemuxError::ElementNotFound(ElementId::Info))
    }
}

/// The tracks that the children of the Tracks element, from the one at `index` on, give, in their
/// order.
pub open spec fn tracks_from(media: Media, children: Fields, index: int) -> Result<
    Seq<TrackEntryView>,
    DemuxError,
>
    decreases children.len() - index,
{
    if index >= children.len() {
        Ok(Seq::empty())
    } else {
        match children[index] {
            (ElementId::TrackEntry, DataView::Location { offset, size }) => match children_at(
                media,
                offset,
                size,
            ) {
                Err(error) => Err(error),
                Ok((fields, _)) => match track_entry_of(media, fields) {
                    Err(error) => Err(error),
                    Ok(track) => match tracks_from(media, children, index + 1) {
                        Err(error) => Err(error),
                        Ok(others) => Ok(seq![track] + others),
                    },
                },
            },
            _ => tracks_from(media, children, index + 1),
        }
    }
}

/// The tracks of a file whose seek head is known. A file without a Tracks element is reported as
/// one without an Info element.
pub open spec fn segment_tracks(media: Media, known: Map<ElementId, int>) -> Result<
    Seq<TrackEntryView>,
    DemuxError,
> {
    if !known.contains_key(ElementId::Tracks) {
        Err(DemuxError::ElementNotFound(ElementId::Info))
    } else {
        match known_children(media, known, ElementId::Tracks) {
            Err(error) => Err(error),
            Ok(fields) => tracks_from(media, fields, 0),
        }
    }
}

/// What a list of tracks stands for.
pub open spec fn track_views(tracks: Seq<TrackEntry>) -> Seq<TrackEntryView> {
    tracks.map_values(|track: TrackEntry| track@)
}

/// Reads the tracks.
pub fn parse_tracks<R: Source>(r: &mut R, seek_head: &SeekHead) -> (result: Result<
    Vec<TrackEntry>,
    DemuxError,
>)
    ensures
        final(r).media() == old(r).media(),
        match (result, segment_tracks(old(r).media(), seek_head@)) {
            (Ok(tracks), Ok(views)) => track_views(tracks@) == views,
            (Err(error), Err(cause)) => error == cause,
            _ => false,
        },
{
    let mut tracks: Vec<TrackEntry> = Vec::new();
    if let Some(offset) = seek_head.get(ElementId::Tracks) {
        let (data_offset, data_size): (u64, u64) = expect_master(
            r,
            ElementId::Tracks,
            Some(offset),
        )?;
        let children = collect_children(r, data_offset, data_size)?;
        let ghost media = r.media();
        let ghost fields = fields_of(children@);
        let ghost all = tracks_from(media, fields, 0);
        let mut index: usize = 0;
        assert(track_views(tracks@) =~= Seq::empty());
        assert(all matches Ok(views) ==> Seq::empty() + views =~= views);
        while index < children.len()
            invariant
                index <= children@.len(),
                r.media() == media,
                media == old(r).media(),
                fields == fields_of(children@),
                all == segment_tracks(media, seek_head@),
                match tracks_from(media, fields, index as int) {
                    Ok(others) => all == Ok::<Seq<TrackEntryView>, DemuxError>(
                        track_views(tracks@) + others,
                    ),
                    Err(error) => all == Err::<Seq<TrackEntryView>, DemuxError>(error),
                },
            decreases children@.len() - index,
        {
            assert(fields[index as int] == (children@[index as int].0, children@[index as int].1@));
            let ghost known = track_views(tracks@);
            let child = &children[index];
            if let ElementId::TrackEntry = child.0 {
                if let ElementData::Location { offset, size } = &child.1 {
                    let track_fields = collect_children(r, *offset, *size)?;
                    let track_entry = TrackEntry::new(r, track_fields.as_slice())?;
                    tracks.push(track_entry);
                    assert(track_views(tracks@) =~= known.push(track_entry@));
                    assert(tracks_from(media, fields, index + 1) matches Ok(others) ==> known + (
                    seq![track_entry@] + others) =~= track_views(tracks@) + others);
                }
            }
            index = index + 1;
        }
        assert(track_views(tracks@) + Seq::empty() =~= track_views(tracks@));
        Ok(tracks)
    } else {
        Err(DemuxError::ElementNotFound(ElementId::Info))
    }
}

/// Demuxer for Matroska files.
#[derive(Clone, Debug)]
pub struct MatroskaFile<R> {
    file: R,
    ebml_header: EbmlHeader,
    seek_head: SeekHead,
    info: Info,
    tracks: Vec<TrackEntry>,
}

/// What a [`MatroskaFile`] stands for.
pub struct MatroskaFileView {
    /// The EBML header.
    pub ebml_header: EbmlHeaderView,
    /// The positions of top level elements.
    pub seek_head: Map<ElementId, int>,
    /// The segment info.
    pub info: InfoView,
    /// The tracks.
    pub tracks: Seq<TrackEntryView>,
}

impl<R> View for MatroskaFile<R> {
    type V = MatroskaFileView;

    closed spec fn view(&self) -> MatroskaFileView {
        MatroskaFileView {
            ebml_header: self.ebml_header@,
            seek_head: self.seek_head@,
            info: self.info@,
            tracks: track_views(self.tracks@),
        }
    }
}

impl<R> MatroskaFile<R> {
    /// Where the octets of the file come from.
    pub closed spec fn source(self) -> R {
        self.file
    }
}

/// The positions that the SeekHead element of a segment lists; none if there is no such element.
pub open spec fn listed_positions(media: Media, segment_data_offset: int) -> Result<
    Map<ElementId, int>,
    DemuxError,
> {
    match seek_head_from(media, segment_data_offset) {
        Err(error) => Err(error),
        Ok(None) => Ok(Map::empty()),
        Ok(Some((offset, size))) => match children_at(media, offset, size) {
            Err(error) => Err(error),
            Ok((entries, _)) => match listed_from(
                media,
                segment_data_offset,
                entries,
                0,
                Map::empty(),
            ) {
                (_, Err(error)) => Err(error),
                (known, Ok(())) => Ok(known),
            },
        },
    }
}

/// The positions of top level elements: those that the SeekHead element lists, or if there are
/// none, those that a walk along the top level elements meets.
pub open spec fn indexed_positions(media: Media, segment_data_offset: int) -> Result<
    Map<ElementId, int>,
    DemuxError,
> {
    match listed_positions(media, segment_data_offset) {
        Err(error) => Err(error),
        Ok(listed) => if !listed.is_empty() {
            Ok(listed)
        } else {
            match moved(media, segment_data_offset) {
                Err(error) => Err(error),
                Ok(position) => match walked_from(media, position, listed) {
                    (_, Err(error)) => Err(error),
                    (known, Ok(())) => Ok(known),
                },
            }
        },
    }
}

/// The positions of top level elements, with that of the first cluster.
pub open spec fn known_positions(media: Media, segment_data_offset: int) -> Result<
    Map<ElementId, int>,
    DemuxError,
> {
    match indexed_positions(media, segment_data_offset) {
        Err(error) => Err(error),
        Ok(known) => if known.contains_key(ElementId::Cluster) {
            Ok(known)
        } else {
            match first_cluster(media, known) {
                Err(error) => Err(error),
                Ok(position) => Ok(known.insert(ElementId::Cluster, position)),
            }
        },
    }
}

/// The file that starts at `position`.
pub open spec fn opened(media: Media, position: int) -> Result<MatroskaFileView, DemuxError> {
    match ebml_header_at(media, position) {
        Err(error) => Err(error),
        Ok((ebml_header, next)) => match master_at(media, next, ElementId::Segment) {
            Err(error) => Err(error),
            Ok((segment_data_offset, _)) => match known_positions(media, segment_data_offset) {
                Err(error) => Err(error),
                Ok(seek_head) => match segment_info(media, seek_head) {
                    Err(error) => Err(error),
                    Ok(info) => match segment_tracks(media, seek_head) {
                        Err(error) => Err(error),
                        Ok(tracks) => Ok(
                            MatroskaFileView { ebml_header, seek_head, info, tracks },
                        ),
                    },
                },
            },
        },
    }
}

impl<R: Source> MatroskaFile<R> {
    /// Opens a Matroska file.
    pub fn open(file: R) -> (result: Result<Self, DemuxError>)
        ensures
            match (result, opened(file.media(), file.position() as int)) {
                (Ok(opened), Ok(view)) => opened@ == view && opened.source().media()
                    == file.media(),
                (Err(error), Err(cause)) => error == cause,
                _ => false,
            },
    {
        let mut file = file;
        let ebml_header = parse_ebml_header(&mut file)?;
        let (segment_data_offset, _): (u64, u64) = expect_master(
            &mut file,
            ElementId::Segment,
            None,
        )?;
        let optional_seek_head = search_seek_head(&mut file, segment_data_offset)?;

        let mut seek_head = SeekHead::new();

        if let Some((seek_head_data_offset, seek_head_data_size)) = optional_seek_head {
            let seek_head_entries = collect_children(
                &mut file,
                seek_head_data_offset,
                seek_head_data_size,
            )?;
            read_seek_entries(
                &mut file,
                segment_data_offset,
                seek_head_entries.as_slice(),
                &mut seek_head,
            )?;
        }
        if seek_head.is_empty() {
            build_seek_head(&mut file, segment_data_offset, &mut seek_head)?;
        }
        if seek_head.get(ElementId::Cluster).is_none() {
            find_first_cluster_offset(&mut file, segment_data_offset, &mut seek_head)?;
        }
        let info = parse_segment_info(&mut file, &seek_head)?;
        let tracks = parse_tracks(&mut file, &seek_head)?;

        Ok(Self { file, ebml_header, seek_head, info, tracks })
    }
}

impl<R> MatroskaFile<R> {
    /// Returns the EBML header.
    pub fn ebml_header(&self) -> (ebml_header: &EbmlHeader)
        ensures
            ebml_header@ == self@.ebml_header,
    {
        &self.ebml_header
    }

    /// Returns the segment info.
    pub fn info(&self) -> (info: &Info)
        ensures
            info@ == self@.info,
    {
        &self.info
    }

    /// Returns the tracks of the file.
    pub fn tracks(&self) -> (tracks: &[TrackEntry])
        ensures
            track_views(tracks@) == self@.tracks,
    {
        self.tracks.as_slice()
    }
}

} // verus!
