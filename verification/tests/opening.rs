use matroska_demuxer::{
    DemuxError, ElementId, Float, IoFailure, MatroskaFile, MemoryFile, TrackType,
};

fn number_octets(number: u32) -> Vec<u8> {
    number
        .to_be_bytes()
        .iter()
        .copied()
        .skip_while(|octet| *octet == 0)
        .collect()
}

fn element(id: ElementId, data: &[u8]) -> Vec<u8> {
    let mut octets = number_octets(id.to_number());
    octets.push(0x08);
    octets.extend_from_slice(&u32::try_from(data.len()).unwrap().to_be_bytes());
    octets.extend_from_slice(data);
    octets
}

fn unsigned(id: ElementId, value: u64) -> Vec<u8> {
    element(id, &value.to_be_bytes())
}

fn text(id: ElementId, value: &str) -> Vec<u8> {
    element(id, value.as_bytes())
}

fn ebml_header() -> Vec<u8> {
    element(
        ElementId::Ebml,
        &[
            unsigned(ElementId::EbmlVersion, 1),
            unsigned(ElementId::EbmlReadVersion, 1),
            text(ElementId::DocType, "webm"),
            unsigned(ElementId::DocTypeVersion, 4),
            unsigned(ElementId::DocTypeReadVersion, 2),
        ]
        .concat(),
    )
}

fn info() -> Vec<u8> {
    element(
        ElementId::Info,
        &[
            text(ElementId::MuxingApp, "muxer"),
            text(ElementId::WritingApp, "writer"),
        ]
        .concat(),
    )
}

fn track(number: u64) -> Vec<u8> {
    element(
        ElementId::TrackEntry,
        &[
            unsigned(ElementId::TrackNumber, number),
            unsigned(ElementId::TrackUid, 100 + number),
            unsigned(ElementId::TrackType, 1),
            text(ElementId::CodecId, "V_VP9"),
            element(ElementId::CodecPrivate, &[1, 2, 3]),
        ]
        .concat(),
    )
}

fn tracks() -> Vec<u8> {
    element(ElementId::Tracks, &[track(1), track(2)].concat())
}

fn cluster() -> Vec<u8> {
    element(ElementId::Cluster, &[0xA3, 0x80])
}

fn seek_entry(id: ElementId, position: u64) -> Vec<u8> {
    element(
        ElementId::Seek,
        &[
            unsigned(ElementId::SeekId, u64::from(id.to_number())),
            unsigned(ElementId::SeekPosition, position),
        ]
        .concat(),
    )
}

fn file_with(segment: &[u8]) -> Vec<u8> {
    [ebml_header(), element(ElementId::Segment, segment)].concat()
}

fn open(octets: Vec<u8>) -> Result<MatroskaFile<MemoryFile>, DemuxError> {
    MatroskaFile::open(MemoryFile::new(octets))
}

fn open_segment(segment: &[Vec<u8>]) -> Result<MatroskaFile<MemoryFile>, DemuxError> {
    open(file_with(&segment.concat()))
}

fn seek_head_of(entries: &[Vec<u8>]) -> Vec<u8> {
    element(ElementId::SeekHead, &entries.concat())
}

#[test]
fn opens_a_file_without_a_seek_head() {
    let file = open_segment(&[info(), tracks(), cluster()]).unwrap();
    assert_eq!(file.ebml_header().version(), Some(1));
    assert_eq!(file.ebml_header().read_version(), Some(1));
    assert_eq!(file.ebml_header().max_id_length(), 4);
    assert_eq!(file.ebml_header().max_size_length(), 8);
    assert_eq!(file.ebml_header().doc_type(), "webm");
    assert_eq!(file.ebml_header().doc_type_version(), 4);
    assert_eq!(file.ebml_header().doc_type_read_version(), 2);
    assert_eq!(file.info().timestamp_scale().get(), 1_000_000);
    assert_eq!(file.info().duration(), None);
    assert_eq!(file.info().muxing_app(), "muxer");
    assert_eq!(file.info().writing_app(), "writer");
    assert_eq!(file.tracks().len(), 2);
    assert_eq!(file.tracks()[0].track_number().get(), 1);
    assert_eq!(file.tracks()[1].track_number().get(), 2);
    assert_eq!(file.tracks()[1].track_uid().get(), 102);
    assert_eq!(file.tracks()[0].track_type(), TrackType::Video);
    assert_eq!(file.tracks()[0].codec_private(), Some(&[1u8, 2, 3][..]));
}

#[test]
fn opens_a_file_by_its_seek_head() {
    // The index has entries of a fixed length, so its own length is known beforehand.
    let length = seek_head_of(&[
        seek_entry(ElementId::Info, 0),
        seek_entry(ElementId::Tracks, 0),
        seek_entry(ElementId::Cluster, 0),
    ])
    .len() as u64;
    let decoy = element(
        ElementId::Info,
        &[
            text(ElementId::MuxingApp, "decoy"),
            text(ElementId::WritingApp, "decoy"),
        ]
        .concat(),
    );
    let info_at = length + decoy.len() as u64;
    let tracks_at = info_at + info().len() as u64;
    let cluster_at = tracks_at + tracks().len() as u64;
    let index = seek_head_of(&[
        seek_entry(ElementId::Info, info_at),
        seek_entry(ElementId::Tracks, tracks_at),
        seek_entry(ElementId::Cluster, cluster_at),
    ]);
    let file = open_segment(&[index, decoy, info(), tracks(), cluster()]).unwrap();
    assert_eq!(file.info().muxing_app(), "muxer");
    assert_eq!(file.tracks().len(), 2);
}

#[test]
fn skips_checksums_before_the_seek_head() {
    let checksum = element(ElementId::Crc32, &[1, 2, 3, 4]);
    let length = 2 * checksum.len() as u64
        + seek_head_of(&[
            seek_entry(ElementId::Info, 0),
            seek_entry(ElementId::Tracks, 0),
        ])
        .len() as u64;
    let index = seek_head_of(&[
        seek_entry(ElementId::Info, length),
        seek_entry(ElementId::Tracks, length + info().len() as u64),
    ]);
    let file = open_segment(&[
        checksum.clone(),
        checksum,
        index,
        info(),
        tracks(),
        cluster(),
    ])
    .unwrap();
    assert_eq!(file.tracks().len(), 2);
}

#[test]
fn ignores_incomplete_seek_entries() {
    let nothing = element(ElementId::Seek, &unsigned(ElementId::SeekPosition, 3));
    let too_large = element(
        ElementId::Seek,
        &[
            unsigned(ElementId::SeekId, 0x1_0000_0000),
            unsigned(ElementId::SeekPosition, 3),
        ]
        .concat(),
    );
    let file =
        open_segment(&[seek_head_of(&[nothing, too_large]), info(), tracks(), cluster()]).unwrap();
    assert_eq!(file.tracks().len(), 2);
}

#[test]
fn a_seek_position_beyond_all_positions_is_an_error() {
    let index = seek_head_of(&[seek_entry(ElementId::Info, u64::MAX)]);
    let result = open_segment(&[index, info(), tracks(), cluster()]);
    assert_eq!(result.err(), Some(DemuxError::OffsetOverflow));
}

#[test]
fn walks_past_unknown_elements_and_stops_at_damage() {
    let unknown = [&[0xEC, 0x83][..], &[9, 9, 9]].concat();
    let file =
        open_segment(&[unknown, info(), tracks(), cluster(), vec![0, 0, 0]]).unwrap();
    assert_eq!(file.tracks().len(), 2);
}

#[test]
fn the_last_info_counts_in_a_walk() {
    let other = element(
        ElementId::Info,
        &[
            text(ElementId::MuxingApp, "other"),
            text(ElementId::WritingApp, "other"),
        ]
        .concat(),
    );
    let file = open_segment(&[info(), other, tracks(), cluster(), cluster()]).unwrap();
    assert_eq!(file.info().muxing_app(), "other");
}

#[test]
fn a_cluster_of_unknown_size_ends_the_walk() {
    let endless = [&[0x1F, 0x43, 0xB6, 0x75, 0xFF][..], &[1, 2, 3]].concat();
    let file = open_segment(&[info(), tracks(), endless, info()]).unwrap();
    assert_eq!(file.tracks().len(), 2);
}

#[test]
fn a_segment_of_unknown_size_is_opened() {
    let mut octets = ebml_header();
    octets.extend_from_slice(&[0x18, 0x53, 0x80, 0x67, 0x01]);
    octets.extend_from_slice(&[0xFF; 7]);
    octets.extend_from_slice(&[info(), tracks(), cluster()].concat());
    assert_eq!(open(octets).unwrap().tracks().len(), 2);
}

#[test]
fn an_opened_file_has_a_cluster() {
    let result = open_segment(&[info(), tracks()]);
    assert_eq!(result.err(), Some(DemuxError::CantFindCluster));
    let result = open_segment(&[info()]);
    assert_eq!(result.err(), Some(DemuxError::CantFindCluster));
}

#[test]
fn an_opened_file_has_an_info() {
    let result = open_segment(&[tracks(), cluster()]);
    assert_eq!(
        result.err(),
        Some(DemuxError::ElementNotFound(ElementId::Info))
    );
}

#[test]
fn missing_tracks_are_reported_as_a_missing_info() {
    let result = open_segment(&[info(), cluster()]);
    assert_eq!(
        result.err(),
        Some(DemuxError::ElementNotFound(ElementId::Info))
    );
}

#[test]
fn finds_the_cluster_behind_the_tracks() {
    let length = seek_head_of(&[
        seek_entry(ElementId::Info, 0),
        seek_entry(ElementId::Tracks, 0),
    ])
    .len() as u64;
    let index = seek_head_of(&[
        seek_entry(ElementId::Info, length),
        seek_entry(ElementId::Tracks, length + info().len() as u64),
    ]);
    let cues = element(ElementId::Cues, &[]);
    let file = open_segment(&[index.clone(), info(), tracks(), cues.clone(), cluster()]);
    assert_eq!(file.unwrap().tracks().len(), 2);
    let file = open_segment(&[index, info(), tracks(), cues]);
    assert_eq!(file.err(), Some(DemuxError::CantFindCluster));
}

#[test]
fn a_wrong_seek_position_is_an_error() {
    let index = seek_head_of(&[
        seek_entry(ElementId::Info, 0),
        seek_entry(ElementId::Cluster, 0),
    ]);
    let result = open_segment(&[index, info(), tracks(), cluster()]);
    assert_eq!(
        result.err(),
        Some(DemuxError::UnexpectedElement {
            expected: ElementId::Info,
            found: ElementId::SeekHead
        })
    );
}

#[test]
fn something_else_than_ebml_is_an_error() {
    assert_eq!(
        open(Vec::new()).err(),
        Some(DemuxError::IoError(IoFailure::UnexpectedEof))
    );
    assert_eq!(
        open(info()).err(),
        Some(DemuxError::UnexpectedElement {
            expected: ElementId::Ebml,
            found: ElementId::Info
        })
    );
    assert_eq!(
        open(vec![0x00, 0x80]).err(),
        Some(DemuxError::InvalidEbmlElementId)
    );
    assert_eq!(
        open(vec![0x1A, 0x45, 0xDF, 0xA3, 0x00]).err(),
        Some(DemuxError::InvalidEbmlDataSize)
    );
    assert_eq!(
        open(ebml_header()).err(),
        Some(DemuxError::IoError(IoFailure::UnexpectedEof))
    );
    assert_eq!(
        open([ebml_header(), info()].concat()).err(),
        Some(DemuxError::UnexpectedElement {
            expected: ElementId::Segment,
            found: ElementId::Info
        })
    );
}

#[test]
fn a_string_that_is_not_utf8_is_an_error() {
    let broken = element(
        ElementId::Info,
        &[
            element(ElementId::MuxingApp, &[0xC3, 0x28]),
            text(ElementId::WritingApp, "writer"),
        ]
        .concat(),
    );
    let result = open_segment(&[broken, tracks(), cluster()]);
    assert_eq!(result.err(), Some(DemuxError::FromUtf8Error));
}

#[test]
fn a_negative_duration_is_an_error() {
    let negative = element(
        ElementId::Info,
        &[
            element(ElementId::Duration, &(-1.5f64).to_be_bytes()),
            text(ElementId::MuxingApp, "muxer"),
            text(ElementId::WritingApp, "writer"),
        ]
        .concat(),
    );
    let result = open_segment(&[negative, tracks(), cluster()]);
    assert_eq!(result.err(), Some(DemuxError::PositiveValueIsNotPositive));
}

#[test]
fn durations_of_both_lengths_are_read() {
    for (octets, expected) in [
        (
            1.5f64.to_be_bytes().to_vec(),
            Float::Double(1.5f64.to_bits()),
        ),
        (
            1.5f32.to_be_bytes().to_vec(),
            Float::Single(1.5f32.to_bits()),
        ),
        (Vec::new(), Float::Double(0)),
    ] {
        let timed = element(
            ElementId::Info,
            &[
                element(ElementId::Duration, &octets),
                element(ElementId::DateUtc, &(-5i64).to_be_bytes()),
                text(ElementId::Title, "Größe"),
                text(ElementId::MuxingApp, "muxer"),
                text(ElementId::WritingApp, "writer"),
            ]
            .concat(),
        );
        let file = open_segment(&[timed, tracks(), cluster()]).unwrap();
        assert_eq!(file.info().duration(), Some(expected));
        assert_eq!(file.info().date_utc(), Some(-5));
        assert_eq!(file.info().title(), Some("Größe"));
    }
}

#[test]
fn a_track_whose_private_data_is_cut_off_is_an_error() {
    let cut = element(
        ElementId::TrackEntry,
        &[
            unsigned(ElementId::TrackNumber, 1),
            unsigned(ElementId::TrackUid, 1),
            unsigned(ElementId::TrackType, 2),
            text(ElementId::CodecId, "A_OPUS"),
            vec![0x63, 0xA2, 0x48, 0x00],
        ]
        .concat(),
    );
    let result = open_segment(&[info(), cluster(), element(ElementId::Tracks, &cut)]);
    assert_eq!(
        result.err(),
        Some(DemuxError::IoError(IoFailure::UnexpectedEof))
    );
}

fn assert_alike(
    a: Result<MatroskaFile<MemoryFile>, DemuxError>,
    b: Result<MatroskaFile<MemoryFile>, DemuxError>,
) {
    match (a, b) {
        (Ok(a), Ok(b)) => {
            assert_eq!(a.ebml_header().doc_type(), b.ebml_header().doc_type());
            assert_eq!(
                a.ebml_header().doc_type_version(),
                b.ebml_header().doc_type_version()
            );
            assert_eq!(
                a.info().timestamp_scale().get(),
                b.info().timestamp_scale().get()
            );
            assert_eq!(a.info().muxing_app(), b.info().muxing_app());
            assert_eq!(a.info().writing_app(), b.info().writing_app());
            assert_eq!(a.tracks().len(), b.tracks().len());
            for (track, other) in a.tracks().iter().zip(b.tracks()) {
                assert_eq!(track.track_number().get(), other.track_number().get());
                assert_eq!(track.track_uid().get(), other.track_uid().get());
                assert_eq!(track.track_type(), other.track_type());
                assert_eq!(track.codec_id(), other.codec_id());
                assert_eq!(track.codec_private(), other.codec_private());
            }
        }
        (Err(error), Err(cause)) => assert_eq!(error, cause),
        _ => panic!("only one of the files could be opened"),
    }
}

#[test]
fn an_accurate_seek_head_changes_nothing() {
    let broken = element(ElementId::Tracks, &element(ElementId::TrackEntry, &[]));
    for tracks in [tracks(), broken] {
        let segment = [info(), tracks.clone(), cluster(), cluster()];
        let length = seek_head_of(&[
            seek_entry(ElementId::Info, 0),
            seek_entry(ElementId::Tracks, 0),
            seek_entry(ElementId::Cluster, 0),
        ])
        .len() as u64;
        let tracks_at = length + info().len() as u64;
        let index = seek_head_of(&[
            seek_entry(ElementId::Info, length),
            seek_entry(ElementId::Tracks, tracks_at),
            seek_entry(ElementId::Cluster, tracks_at + tracks.len() as u64),
        ]);
        assert_alike(
            open_segment(&segment),
            open_segment(&[vec![index], segment.to_vec()].concat()),
        );
    }
}

#[test]
fn a_seek_head_without_a_cluster_changes_nothing() {
    let checksum = element(ElementId::Crc32, &[1, 2, 3, 4]);
    let segment = [info(), tracks(), cluster(), cluster()];
    let length = (checksum.len()
        + seek_head_of(&[
            seek_entry(ElementId::Info, 0),
            seek_entry(ElementId::Tracks, 0),
        ])
        .len()) as u64;
    let index = seek_head_of(&[
        seek_entry(ElementId::Info, length),
        seek_entry(ElementId::Tracks, length + info().len() as u64),
    ]);
    assert_alike(
        open_segment(&[vec![checksum.clone()], segment.to_vec()].concat()),
        open_segment(&[vec![checksum, index], segment.to_vec()].concat()),
    );
    assert_alike(
        open_segment(&segment),
        open_segment(&[vec![seek_head_of(&[])], segment.to_vec()].concat()),
    );
}

#[test]
fn an_incomplete_seek_entry_changes_nothing() {
    let incomplete = element(ElementId::Seek, &unsigned(ElementId::SeekPosition, 3));
    let segment = [info(), tracks(), cluster()];
    let index = |more: &[Vec<u8>]| {
        let length = seek_head_of(
            &[
                more.to_vec(),
                vec![
                    seek_entry(ElementId::Info, 0),
                    seek_entry(ElementId::Tracks, 0),
                ],
            ]
            .concat(),
        )
        .len() as u64;
        seek_head_of(
            &[
                vec![seek_entry(ElementId::Info, length)],
                more.to_vec(),
                vec![seek_entry(
                    ElementId::Tracks,
                    length + info().len() as u64,
                )],
            ]
            .concat(),
        )
    };
    let with = |index: Vec<u8>| open_segment(&[vec![index], segment.to_vec()].concat());
    assert_eq!(with(index(&[])).unwrap().tracks().len(), 2);
    assert_alike(with(index(&[])), with(index(&[incomplete.clone()])));
    assert_alike(with(seek_head_of(&[])), with(seek_head_of(&[incomplete])));
}

#[test]
fn tracks_keep_the_order_of_their_elements() {
    let other = element(ElementId::Crc32, &[1, 2, 3, 4]);
    let tracks = element(
        ElementId::Tracks,
        &[track(3), other.clone(), track(1), other, track(2)].concat(),
    );
    let file = open_segment(&[info(), tracks, cluster()]).unwrap();
    let numbers: Vec<u64> = file
        .tracks()
        .iter()
        .map(|track| track.track_number().get())
        .collect();
    assert_eq!(numbers, vec![3, 1, 2]);
}
