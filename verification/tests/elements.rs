use matroska_demuxer::ebml::{
    collect_children, expect_master, next_element, parse_element_header, ElementData,
};
use matroska_demuxer::element_id::ElementType;
use matroska_demuxer::fields::{
    find_bool_or, find_nonzero, find_nonzero_or, find_string, find_unsigned, try_find_binary,
    try_find_date, try_find_float, try_find_nonzero, try_find_string, try_find_unsigned,
};
use matroska_demuxer::number::be_number;
use matroska_demuxer::seek::{
    build_seek_head, find_first_cluster_offset, read_seek_entries, search_seek_head, SeekEntry,
    SeekHead,
};
use matroska_demuxer::vint::{parse_id, parse_size, UNKNOWN_SIZE};
use matroska_demuxer::{
    DemuxError, EbmlHeader, ElementId, Float, Info, IoFailure, MemoryFile, NonZeroU64, Source,
    TrackEntry, TrackType,
};

fn memory(octets: &[u8]) -> MemoryFile {
    MemoryFile::new(octets.to_vec())
}

fn string(value: &str) -> ElementData {
    ElementData::Text(value.to_string())
}

#[test]
fn a_memory_file_reads_seeks_and_ends() {
    let mut file = memory(&[1, 2, 3, 4]);
    assert_eq!(file.read_exact(2), Ok(vec![1, 2]));
    assert_eq!(file.stream_position(), 2);
    assert_eq!(file.read_exact(3), Err(IoFailure::UnexpectedEof));
    assert_eq!(file.seek(3), Ok(()));
    assert_eq!(file.read_exact(1), Ok(vec![4]));
    assert_eq!(file.seek(u64::MAX), Ok(()));
    assert_eq!(file.read_exact(1), Err(IoFailure::UnexpectedEof));
    assert_eq!(file.read_exact(0), Ok(vec![]));
}

#[test]
fn numbers_are_read_with_the_most_significant_octet_first() {
    assert_eq!(be_number(&vec![]), 0);
    assert_eq!(be_number(&vec![0x12, 0x34, 0x56]), 0x12_3456);
    assert_eq!(be_number(&vec![0xFF; 8]), u64::MAX);
}

#[test]
fn ids_keep_their_marking_bit() {
    assert_eq!(parse_id(&mut memory(&[0xBF])), Ok(0xBF));
    assert_eq!(parse_id(&mut memory(&[0x42, 0x86])), Ok(0x4286));
    assert_eq!(parse_id(&mut memory(&[0x2A, 0xD7, 0xB1])), Ok(0x2A_D7B1));
    assert_eq!(
        parse_id(&mut memory(&[0x1A, 0x45, 0xDF, 0xA3])),
        Ok(0x1A45_DFA3)
    );
    assert_eq!(
        parse_id(&mut memory(&[0x08, 0, 0, 0, 0])),
        Err(DemuxError::InvalidEbmlElementId)
    );
    assert_eq!(
        parse_id(&mut memory(&[0x1A, 0x45])),
        Err(DemuxError::IoError(IoFailure::UnexpectedEof))
    );
}

#[test]
fn sizes_lose_their_marking_bit() {
    assert_eq!(parse_size(&mut memory(&[0x80])), Ok(0));
    assert_eq!(parse_size(&mut memory(&[0x82])), Ok(2));
    assert_eq!(parse_size(&mut memory(&[0x40, 0x02])), Ok(2));
    assert_eq!(parse_size(&mut memory(&[0x20, 0x00, 0x02])), Ok(2));
    assert_eq!(parse_size(&mut memory(&[0x10, 0, 0, 2])), Ok(2));
    assert_eq!(parse_size(&mut memory(&[0x01, 0, 0, 0, 0, 0, 0, 2])), Ok(2));
    assert_eq!(parse_size(&mut memory(&[0xFE])), Ok(126));
    assert_eq!(parse_size(&mut memory(&[0x7F, 0xFE])), Ok(16382));
    assert_eq!(
        parse_size(&mut memory(&[0x01, 0xFF, 0xFF, 0xFF, 0xFF, 0xFF, 0xFF, 0xFE])),
        Ok(0xFF_FFFF_FFFF_FFFE)
    );
    assert_eq!(
        parse_size(&mut memory(&[0x00])),
        Err(DemuxError::InvalidEbmlDataSize)
    );
}

#[test]
fn a_size_with_all_bits_set_is_unknown() {
    assert_eq!(parse_size(&mut memory(&[0xFF])), Ok(UNKNOWN_SIZE));
    assert_eq!(parse_size(&mut memory(&[0x7F, 0xFF])), Ok(UNKNOWN_SIZE));
    assert_eq!(
        parse_size(&mut memory(&[0x01, 0xFF, 0xFF, 0xFF, 0xFF, 0xFF, 0xFF, 0xFF])),
        Ok(UNKNOWN_SIZE)
    );
}

#[test]
fn elements_and_numbers_name_each_other() {
    for id in [
        ElementId::Ebml,
        ElementId::Crc32,
        ElementId::Segment,
        ElementId::TimestampScale,
        ElementId::TrackEntry,
        ElementId::Tags,
        ElementId::Unknown,
    ] {
        assert_eq!(ElementId::from_number(id.to_number()), id);
    }
    assert_eq!(ElementId::from_number(0xEC), ElementId::Unknown);
    assert_eq!(ElementId::Cluster.to_number(), 0x1F43_B675);
    assert_eq!(ElementId::Unknown.element_type(), ElementType::Binary);
    assert_eq!(ElementId::Title.element_type(), ElementType::Text);
    assert_eq!(ElementId::Duration.element_type(), ElementType::Float);
    assert_eq!(ElementId::DateUtc.element_type(), ElementType::Date);
    assert_eq!(ElementId::SeekId.element_type(), ElementType::Unsigned);
    assert_eq!(ElementId::Seek.element_type(), ElementType::Master);
}

#[test]
fn track_types_follow_their_numbers() {
    assert_eq!(TrackType::from_number(1), TrackType::Video);
    assert_eq!(TrackType::from_number(2), TrackType::Audio);
    assert_eq!(TrackType::from_number(3), TrackType::Complex);
    assert_eq!(TrackType::from_number(16), TrackType::Logo);
    assert_eq!(TrackType::from_number(17), TrackType::Subtitle);
    assert_eq!(TrackType::from_number(18), TrackType::Buttons);
    assert_eq!(TrackType::from_number(32), TrackType::Control);
    assert_eq!(TrackType::from_number(33), TrackType::Metadata);
    assert_eq!(TrackType::from_number(4), TrackType::Unknown);
}

#[test]
fn floats_below_zero_are_told_by_their_bits() {
    for (value, below) in [
        (0.0f64, false),
        (-0.0, false),
        (1.0, false),
        (-1.0, true),
        (f64::INFINITY, false),
        (f64::NEG_INFINITY, true),
        (f64::NAN, false),
        (-f64::NAN, false),
        (-f64::MIN_POSITIVE, true),
    ] {
        assert_eq!(value < 0.0, below);
        assert_eq!(Float::Double(value.to_bits()).is_below_zero(), below);
    }
    for value in [0.0f32, -0.0, 1.0, -1.0, f32::NEG_INFINITY, f32::NAN, -f32::NAN] {
        assert_eq!(Float::Single(value.to_bits()).is_below_zero(), value < 0.0);
    }
}

#[test]
fn nonzero_numbers_are_not_zero() {
    assert!(NonZeroU64::new(0).is_none());
    assert_eq!(NonZeroU64::new(7).unwrap().get(), 7);
}

#[test]
fn headers_are_read_where_asked() {
    let mut file = memory(&[0xAE, 0x81, 0x00, 0xBF, 0x84]);
    assert_eq!(
        parse_element_header(&mut file, None),
        Ok((ElementId::TrackEntry, 1))
    );
    assert_eq!(
        parse_element_header(&mut file, Some(3)),
        Ok((ElementId::Crc32, 4))
    );
    assert_eq!(file.stream_position(), 5);
    assert_eq!(
        expect_master(&mut file, ElementId::TrackEntry, Some(0)),
        Ok((2, 1))
    );
    assert_eq!(file.stream_position(), 2);
    assert_eq!(
        expect_master(&mut file, ElementId::Tracks, Some(0)),
        Err(DemuxError::UnexpectedElement {
            expected: ElementId::Tracks,
            found: ElementId::TrackEntry
        })
    );
}

#[test]
fn data_is_read_by_its_type() {
    let mut file = memory(&[0xD7, 0x82, 0x01, 0x02]);
    assert!(matches!(
        next_element(&mut file),
        Ok((ElementId::TrackNumber, ElementData::Unsigned(0x102)))
    ));
    let mut file = memory(&[0x44, 0x61, 0x88, 0xFF, 0xFF, 0xFF, 0xFF, 0xFF, 0xFF, 0xFF, 0xFE]);
    assert!(matches!(
        next_element(&mut file),
        Ok((ElementId::DateUtc, ElementData::Date(-2)))
    ));
    let mut file = memory(&[0x86, 0x82, b'o', b'k']);
    match next_element(&mut file) {
        Ok((ElementId::CodecId, ElementData::Text(codec))) => assert_eq!(codec, "ok"),
        _ => panic!("a string was expected"),
    }
    let mut file = memory(&[0xBF, 0x84, 1, 2, 3, 4]);
    assert!(matches!(
        next_element(&mut file),
        Ok((
            ElementId::Crc32,
            ElementData::Location { offset: 2, size: 4 }
        ))
    ));
    assert_eq!(file.stream_position(), 2);
}

#[test]
fn data_of_a_wrong_size_is_an_error() {
    for octets in [
        &[0xD7, 0x89, 0, 0, 0, 0, 0, 0, 0, 0, 0][..],
        &[0x44, 0x89, 0x83, 0, 0, 0],
        &[0x44, 0x61, 0x84, 0, 0, 0, 0],
    ] {
        assert_eq!(
            next_element(&mut memory(octets)).err(),
            Some(DemuxError::InvalidEbmlDataSize)
        );
    }
}

#[test]
fn children_are_collected_in_order() {
    let mut file = memory(&[0xD7, 0x81, 5, 0xEC, 0x82, 9, 9, 0xD7, 0x81, 6, 0x83, 0x81, 1]);
    let children = collect_children(&mut file, 0, 10).unwrap();
    assert_eq!(children.len(), 3);
    assert!(matches!(
        children[0],
        (ElementId::TrackNumber, ElementData::Unsigned(5))
    ));
    assert!(matches!(
        children[1],
        (
            ElementId::Unknown,
            ElementData::Location { offset: 5, size: 2 }
        )
    ));
    assert!(matches!(
        children[2],
        (ElementId::TrackNumber, ElementData::Unsigned(6))
    ));
    assert_eq!(file.stream_position(), 10);
}

#[test]
fn nothing_follows_a_child_of_unknown_size() {
    let mut file = memory(&[0xEC, 0xFF, 0xD7, 0x81, 5]);
    let children = collect_children(&mut file, 0, 5).unwrap();
    assert_eq!(children.len(), 1);
}

#[test]
fn children_beyond_all_positions_are_an_error() {
    assert_eq!(
        collect_children(&mut memory(&[]), 2, UNKNOWN_SIZE).err(),
        Some(DemuxError::OffsetOverflow)
    );
}

#[test]
fn the_first_field_of_a_name_counts() {
    let fields = [
        (ElementId::TrackUid, ElementData::Unsigned(1)),
        (ElementId::TrackNumber, ElementData::Unsigned(2)),
        (ElementId::TrackNumber, ElementData::Unsigned(3)),
    ];
    assert_eq!(find_unsigned(&fields, ElementId::TrackNumber), Ok(2));
    assert_eq!(
        try_find_unsigned(&fields, ElementId::CodecDelay),
        Ok(None)
    );
    assert_eq!(
        find_unsigned(&fields, ElementId::CodecDelay),
        Err(DemuxError::ElementNotFound(ElementId::CodecDelay))
    );
    assert_eq!(
        find_string(&fields, ElementId::TrackUid),
        Err(DemuxError::UnexpectedDataType)
    );
}

#[test]
fn fields_are_found_by_their_type() {
    let fields = [
        (ElementId::Duration, ElementData::Float(Float::Single(3))),
        (ElementId::DateUtc, ElementData::Date(-4)),
        (ElementId::Name, string("name")),
        (ElementId::FlagForced, ElementData::Unsigned(0)),
        (ElementId::FlagLacing, ElementData::Unsigned(1)),
        (
            ElementId::CodecPrivate,
            ElementData::Location { offset: 1, size: 2 },
        ),
    ];
    assert_eq!(
        try_find_float(&fields, ElementId::Duration),
        Ok(Some(Float::Single(3)))
    );
    assert_eq!(try_find_date(&fields, ElementId::DateUtc), Ok(Some(-4)));
    assert_eq!(
        try_find_string(&fields, ElementId::Name),
        Ok(Some("name".to_string()))
    );
    assert_eq!(find_bool_or(&fields, ElementId::FlagForced, true), Ok(false));
    assert_eq!(find_bool_or(&fields, ElementId::FlagLacing, false), Ok(true));
    assert_eq!(find_bool_or(&fields, ElementId::FlagDefault, true), Ok(true));
    assert_eq!(
        find_bool_or(&fields, ElementId::Name, true),
        Err(DemuxError::UnexpectedDataType)
    );
    assert_eq!(
        try_find_binary(&mut memory(&[7, 8, 9]), &fields, ElementId::CodecPrivate),
        Ok(Some(vec![8, 9]))
    );
    assert_eq!(
        try_find_binary(&mut memory(&[7, 8]), &fields, ElementId::CodecPrivate),
        Err(DemuxError::IoError(IoFailure::UnexpectedEof))
    );
    assert_eq!(
        try_find_binary(&mut memory(&[]), &fields, ElementId::Name),
        Err(DemuxError::UnexpectedDataType)
    );
}

#[test]
fn fields_that_must_not_be_zero_are_not_zero() {
    let fields = [(ElementId::TrackNumber, ElementData::Unsigned(0))];
    let zero = DemuxError::NonZeroValueIsZero(ElementId::TrackNumber);
    assert_eq!(
        find_nonzero(&fields, ElementId::TrackNumber).err(),
        Some(zero)
    );
    assert_eq!(
        try_find_nonzero(&fields, ElementId::TrackNumber).err(),
        Some(zero)
    );
    assert_eq!(
        find_nonzero_or(&fields, ElementId::TrackNumber, 5).err(),
        Some(zero)
    );
    assert_eq!(
        find_nonzero_or(&fields, ElementId::TrackUid, 5).unwrap().get(),
        5
    );
    assert_eq!(
        find_nonzero(&fields, ElementId::TrackUid).err(),
        Some(DemuxError::ElementNotFound(ElementId::TrackUid))
    );
}

#[test]
fn an_ebml_header_is_made_of_its_fields() {
    let fields = [
        (ElementId::EbmlMaxIdLength, ElementData::Unsigned(3)),
        (ElementId::EbmlMaxSizeLength, ElementData::Unsigned(7)),
        (ElementId::DocType, string("matroska")),
        (ElementId::DocTypeVersion, ElementData::Unsigned(4)),
        (ElementId::DocTypeReadVersion, ElementData::Unsigned(2)),
    ];
    let header = EbmlHeader::new(&fields).unwrap();
    assert_eq!(header.version(), None);
    assert_eq!(header.read_version(), None);
    assert_eq!(header.max_id_length(), 3);
    assert_eq!(header.max_size_length(), 7);
    assert_eq!(header.doc_type(), "matroska");
    let header = EbmlHeader::new(&fields[2..]).unwrap();
    assert_eq!(header.max_id_length(), 4);
    assert_eq!(header.max_size_length(), 8);
    assert_eq!(
        EbmlHeader::new(&fields[3..]).err(),
        Some(DemuxError::ElementNotFound(ElementId::DocType))
    );
}

#[test]
fn an_info_is_made_of_its_fields() {
    let fields = [
        (ElementId::Duration, ElementData::Float(Float::Double(0xBFF0_0000_0000_0000))),
        (ElementId::MuxingApp, string("m")),
        (ElementId::TimestampScale, ElementData::Unsigned(5)),
        (ElementId::WritingApp, string("w")),
    ];
    assert_eq!(
        Info::new(&fields[..3]).err(),
        Some(DemuxError::ElementNotFound(ElementId::WritingApp))
    );
    assert_eq!(
        Info::new(&fields).err(),
        Some(DemuxError::PositiveValueIsNotPositive)
    );
    let info = Info::new(&fields[1..]).unwrap();
    assert_eq!(info.timestamp_scale().get(), 5);
    assert_eq!(info.title(), None);
    assert_eq!(info.date_utc(), None);
}

#[test]
fn a_track_is_made_of_its_fields() {
    let mut fields = vec![
        (ElementId::TrackNumber, ElementData::Unsigned(1)),
        (ElementId::TrackUid, ElementData::Unsigned(2)),
        (ElementId::TrackType, ElementData::Unsigned(17)),
        (ElementId::CodecId, string("S_TEXT/UTF8")),
    ];
    let track = TrackEntry::new(&mut memory(&[]), &fields).unwrap();
    assert_eq!(track.track_type(), TrackType::Subtitle);
    assert!(track.flag_enabled());
    assert!(track.flag_default());
    assert!(!track.flag_forced());
    assert!(!track.flag_lacing());
    assert!(track.default_duration().is_none());
    assert_eq!(track.name(), None);
    assert_eq!(track.language(), None);
    assert_eq!(track.codec_id(), "S_TEXT/UTF8");
    assert_eq!(track.codec_private(), None);
    assert_eq!(track.codec_name(), None);
    assert_eq!(track.codec_delay(), None);
    assert_eq!(track.seek_pre_roll(), None);
    assert!(track.video().is_none());
    assert!(track.audio().is_none());
    assert!(track.content_encodings().is_none());
    fields.extend([
        (ElementId::FlagEnabled, ElementData::Unsigned(0)),
        (ElementId::FlagDefault, ElementData::Unsigned(0)),
        (ElementId::FlagForced, ElementData::Unsigned(1)),
        (ElementId::FlagLacing, ElementData::Unsigned(1)),
        (ElementId::DefaultDuration, ElementData::Unsigned(40)),
        (ElementId::Name, string("n")),
        (ElementId::Language, string("eng")),
        (ElementId::CodecName, string("c")),
        (ElementId::CodecDelay, ElementData::Unsigned(6)),
        (ElementId::SeekPreRoll, ElementData::Unsigned(7)),
    ]);
    let track = TrackEntry::new(&mut memory(&[]), &fields).unwrap();
    assert!(!track.flag_enabled());
    assert!(!track.flag_default());
    assert!(track.flag_forced());
    assert!(track.flag_lacing());
    assert_eq!(track.default_duration().unwrap().get(), 40);
    assert_eq!(track.name(), Some("n"));
    assert_eq!(track.language(), Some("eng"));
    assert_eq!(track.codec_name(), Some("c"));
    assert_eq!(track.codec_delay(), Some(6));
    assert_eq!(track.seek_pre_roll(), Some(7));
    assert_eq!(
        TrackEntry::new(&mut memory(&[]), &fields[1..]).err(),
        Some(DemuxError::ElementNotFound(ElementId::TrackNumber))
    );
}

#[test]
fn a_seek_entry_is_made_of_its_fields() {
    let entry = |id: u64| {
        SeekEntry::new(&[
            (ElementId::SeekId, ElementData::Unsigned(id)),
            (ElementId::SeekPosition, ElementData::Unsigned(9)),
        ])
    };
    let info = entry(0x1549_A966).unwrap();
    assert_eq!(info.id, ElementId::Info);
    assert_eq!(info.offset, 9);
    assert_eq!(entry(1).unwrap().id, ElementId::Unknown);
    assert_eq!(
        entry(0x1_0000_0000).err(),
        Some(DemuxError::TryFromIntError)
    );
    assert_eq!(
        SeekEntry::new(&[(ElementId::SeekId, ElementData::Unsigned(1))]).err(),
        Some(DemuxError::ElementNotFound(ElementId::SeekPosition))
    );
}

#[test]
fn a_seek_head_keeps_the_latest_position() {
    let mut seek_head = SeekHead::new();
    assert!(seek_head.is_empty());
    seek_head.insert(ElementId::Info, 1);
    seek_head.insert(ElementId::Tracks, 2);
    seek_head.insert(ElementId::Info, 3);
    assert!(!seek_head.is_empty());
    assert_eq!(seek_head.get(ElementId::Info), Some(3));
    assert_eq!(seek_head.clone().get(ElementId::Tracks), Some(2));
    assert_eq!(seek_head.get(ElementId::Cues), None);
}

#[test]
fn the_first_element_that_is_no_checksum_decides() {
    let seek_head = [0x11, 0x4D, 0x9B, 0x74, 0x85];
    let checksum = [0xBF, 0x82, 0xEC, 0x80];
    let octets = [&checksum[..], &checksum, &seek_head].concat();
    let mut file = memory(&octets);
    assert_eq!(search_seek_head(&mut file, 0), Ok(Some((13, 5))));
    assert_eq!(file.stream_position(), 13);
    assert_eq!(search_seek_head(&mut memory(&octets), 8), Ok(Some((13, 5))));
    let octets = [&checksum[..], &[0xEC, 0x80], &seek_head].concat();
    assert_eq!(search_seek_head(&mut memory(&octets), 0), Ok(None));
    assert_eq!(
        search_seek_head(&mut memory(&checksum), 0),
        Err(DemuxError::IoError(IoFailure::UnexpectedEof))
    );
    assert_eq!(search_seek_head(&mut memory(&[0xBF, 0xFF]), 0), Ok(None));
}

#[test]
fn a_walk_keeps_the_first_cluster_and_the_last_of_other_elements() {
    let cues = [0x1C, 0x53, 0xBB, 0x6B, 0x80];
    let cluster = [0x1F, 0x43, 0xB6, 0x75, 0x81, 0x00];
    let octets = [&[0xEC, 0x80][..], &cues, &cluster, &cues, &cluster].concat();
    let mut seek_head = SeekHead::new();
    assert_eq!(
        build_seek_head(&mut memory(&octets), 0, &mut seek_head),
        Ok(())
    );
    assert_eq!(seek_head.get(ElementId::Cues), Some(13));
    assert_eq!(seek_head.get(ElementId::Cluster), Some(7));
    assert_eq!(seek_head.get(ElementId::Unknown), None);
}

#[test]
fn the_cluster_behind_the_tracks_is_noted() {
    let tracks = [0x16, 0x54, 0xAE, 0x6B, 0x81, 0x00];
    let cluster = [0x1F, 0x43, 0xB6, 0x75, 0x80];
    let octets = [&tracks[..], &[0xEC, 0x80], &cluster].concat();
    let mut seek_head = SeekHead::new();
    assert_eq!(
        find_first_cluster_offset(&mut memory(&octets), 0, &mut seek_head),
        Err(DemuxError::CantFindCluster)
    );
    seek_head.insert(ElementId::Tracks, 0);
    assert_eq!(
        find_first_cluster_offset(&mut memory(&octets), 100, &mut seek_head),
        Ok(())
    );
    assert_eq!(seek_head.get(ElementId::Cluster), Some(8));
}

#[test]
fn the_first_cluster_is_noted_where_it_starts() {
    let octets = [
        0x18, 0x0A, 0x0B, 0x0C, 0x8A, 0x16, 0x54, 0xAE, 0x6B, 0x80, 0x1F, 0x43, 0xB6, 0x75, 0x80,
    ];
    let mut seek_head = SeekHead::new();
    seek_head.insert(ElementId::Tracks, 5);
    assert_eq!(
        find_first_cluster_offset(&mut memory(&octets), 5, &mut seek_head),
        Ok(())
    );
    assert_eq!(seek_head.get(ElementId::Cluster), Some(10));
    assert_eq!(
        parse_element_header(&mut memory(&octets), Some(10)),
        Ok((ElementId::Cluster, 0))
    );
    assert_eq!(seek_head.get(ElementId::Tracks), Some(5));
}

#[test]
fn a_search_for_the_cluster_finds_what_a_walk_finds() {
    let tracks = [0x16, 0x54, 0xAE, 0x6B, 0x80];
    let cluster = [0x1F, 0x43, 0xB6, 0x75, 0x81, 0x00];
    let octets = [&[0xEC, 0x80][..], &tracks, &cluster, &cluster].concat();
    let mut walked = SeekHead::new();
    assert_eq!(build_seek_head(&mut memory(&octets), 0, &mut walked), Ok(()));
    let mut searched = SeekHead::new();
    searched.insert(ElementId::Tracks, 2);
    assert_eq!(
        find_first_cluster_offset(&mut memory(&octets), 0, &mut searched),
        Ok(())
    );
    assert_eq!(walked.get(ElementId::Cluster), Some(7));
    assert_eq!(searched.get(ElementId::Cluster), Some(7));
}

#[test]
fn the_last_entry_for_an_element_counts() {
    let entry = |id: [u8; 4], position: u8| {
        [&[0x4D, 0xBB, 0x8B, 0x53, 0xAB, 0x84][..], &id, &[0x53, 0xAC, 0x81, position]].concat()
    };
    let info = [0x15, 0x49, 0xA9, 0x66];
    let tracks = [0x16, 0x54, 0xAE, 0x6B];
    let incomplete = [0x4D, 0xBB, 0x84, 0x53, 0xAC, 0x81, 9];
    let octets = [
        &entry(info, 1)[..],
        &entry(tracks, 2),
        &incomplete,
        &entry(info, 3),
    ]
    .concat();
    let mut file = memory(&octets);
    let entries = collect_children(&mut file, 0, octets.len() as u64).unwrap();
    assert_eq!(entries.len(), 4);
    let mut seek_head = SeekHead::new();
    seek_head.insert(ElementId::Tags, 50);
    seek_head.insert(ElementId::Tracks, 60);
    assert_eq!(
        read_seek_entries(&mut file, 100, &entries, &mut seek_head),
        Ok(())
    );
    assert_eq!(seek_head.get(ElementId::Info), Some(103));
    assert_eq!(seek_head.get(ElementId::Tracks), Some(102));
    assert_eq!(seek_head.get(ElementId::Tags), Some(50));
    assert_eq!(seek_head.get(ElementId::Cues), None);
}

struct Immovable {
    file: MemoryFile,
}

impl Source for Immovable {
    fn stream_position(&self) -> u64 {
        self.file.stream_position()
    }

    fn seek(&mut self, _position: u64) -> Result<(), IoFailure> {
        Err(IoFailure::Refused)
    }

    fn read_exact(&mut self, length: u64) -> Result<Vec<u8>, IoFailure> {
        self.file.read_exact(length)
    }
}

#[test]
fn a_refused_move_is_an_error() {
    let refused = Some(DemuxError::IoError(IoFailure::Refused));
    let mut file = Immovable {
        file: memory(&[0xAE, 0x81, 0x00]),
    };
    assert_eq!(collect_children(&mut file, 0, 3).err(), refused);
    assert_eq!(
        build_seek_head(&mut file, 0, &mut SeekHead::new()).err(),
        refused
    );
    assert_eq!(
        parse_element_header(&mut file, None),
        Ok((ElementId::TrackEntry, 1))
    );
}
