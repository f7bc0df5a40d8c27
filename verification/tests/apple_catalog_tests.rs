//! Tests for the Apple DOS 3.3 catalog structures.
use image_rider::apple::catalog::{
    build_files, parse_catalog, parse_catalogs, parse_file_entry, parse_track_sector_list,
    track_sector_pairs_as_vec, Catalog, FileEntry, FileType, FullFile, TrackSectorList,
    TrackSectorPair,
};
use image_rider::error::{ErrorKind, InvalidErrorKind};

/// Returns the 35 serialized bytes of a file entry.
fn file_entry_as_bytes(file_entry: &FileEntry) -> Vec<u8> {
    file_entry.as_vec().expect("Should serialize")
}

#[test]
fn parse_file_entry_works() {
    let data: [u8; 35] = [
        0x12, 0x0F, 0x02, 0xC8, 0xC5, 0xCC, 0xCC, 0xCF, 0xA0, 0xA0, 0xA0, 0xA0, 0xA0, 0xA0, 0xA0,
        0xA0, 0xA0, 0xA0, 0xA0, 0xA0, 0xA0, 0xA0, 0xA0, 0xA0, 0xA0, 0xA0, 0xA0, 0xA0, 0xA0, 0xA0,
        0xA0, 0xA0, 0xA0, 0x02, 0x00,
    ];
    let (entry, _) = parse_file_entry(&data, 0).expect("Should parse");
    assert_eq!(entry.track_of_first_track_sector_list_sector, 18);
    assert_eq!(entry.sector_of_first_track_sector_list_sector, 15);
    assert!(matches!(entry.file_type, FileType::AppleSoftBasic));
    assert!(!entry.locked);
    assert_eq!(
        entry.file_name,
        vec![
            0xC8, 0xC5, 0xCC, 0xCC, 0xCF, 0xA0, 0xA0, 0xA0, 0xA0, 0xA0, 0xA0, 0xA0, 0xA0, 0xA0,
            0xA0, 0xA0, 0xA0, 0xA0, 0xA0, 0xA0, 0xA0, 0xA0, 0xA0, 0xA0, 0xA0, 0xA0, 0xA0, 0xA0,
            0xA0, 0xA0,
        ]
    );
}

#[test]
fn parse_file_entry_locked_works() {
    let data: [u8; 35] = [
        0x12, 0x0F, 0x82, 0xC8, 0xC5, 0xCC, 0xCC, 0xCF, 0xA0, 0xA0, 0xA0, 0xA0, 0xA0, 0xA0, 0xA0,
        0xA0, 0xA0, 0xA0, 0xA0, 0xA0, 0xA0, 0xA0, 0xA0, 0xA0, 0xA0, 0xA0, 0xA0, 0xA0, 0xA0, 0xA0,
        0xA0, 0xA0, 0xA0, 0x02, 0x00,
    ];
    let (entry, _) = parse_file_entry(&data, 0).expect("Should parse");
    assert_eq!(entry.track_of_first_track_sector_list_sector, 18);
    assert_eq!(entry.sector_of_first_track_sector_list_sector, 15);
    assert!(matches!(entry.file_type, FileType::AppleSoftBasic));
    assert!(entry.locked);
    assert_eq!(
        entry.file_name,
        vec![
            0xC8, 0xC5, 0xCC, 0xCC, 0xCF, 0xA0, 0xA0, 0xA0, 0xA0, 0xA0, 0xA0, 0xA0, 0xA0, 0xA0,
            0xA0, 0xA0, 0xA0, 0xA0, 0xA0, 0xA0, 0xA0, 0xA0, 0xA0, 0xA0, 0xA0, 0xA0, 0xA0, 0xA0,
            0xA0, 0xA0,
        ]
    );
}

#[test]
fn serialize_file_entry_works() {
    let expected_data: [u8; 35] = [
        0x12, 0x0F, 0x02, 0xC8, 0xC5, 0xCC, 0xCC, 0xCF, 0xA0, 0xA0, 0xA0, 0xA0, 0xA0, 0xA0, 0xA0,
        0xA0, 0xA0, 0xA0, 0xA0, 0xA0, 0xA0, 0xA0, 0xA0, 0xA0, 0xA0, 0xA0, 0xA0, 0xA0, 0xA0, 0xA0,
        0xA0, 0xA0, 0xA0, 0x02, 0x00,
    ];
    let data = file_entry_as_bytes(&FileEntry::new(
        0x12,
        0x0F,
        FileType::AppleSoftBasic,
        false,
        "HELLO",
        0x0002,
    ));
    assert_eq!(data, expected_data);
}

#[test]
fn serialize_locked_file_entry_works() {
    let expected_data: [u8; 35] = [
        0x12, 0x0F, 0x82, 0xC8, 0xC5, 0xCC, 0xCC, 0xCF, 0xA0, 0xA0, 0xA0, 0xA0, 0xA0, 0xA0, 0xA0,
        0xA0, 0xA0, 0xA0, 0xA0, 0xA0, 0xA0, 0xA0, 0xA0, 0xA0, 0xA0, 0xA0, 0xA0, 0xA0, 0xA0, 0xA0,
        0xA0, 0xA0, 0xA0, 0x02, 0x00,
    ];
    let data = file_entry_as_bytes(&FileEntry::new(
        0x12,
        0x0F,
        FileType::AppleSoftBasic,
        true,
        "HELLO",
        0x0002,
    ));
    assert_eq!(data, expected_data);
}

#[test]
fn serialize_file_name_len_0_file_entry_fails() {
    let file_entry = FileEntry::new(0x12, 0x0F, FileType::AppleSoftBasic, false, "", 0x0002);
    match file_entry.as_vec() {
        Ok(_) => panic!("Shouldn't be a valid FileEntry"),
        Err(e) => assert_eq!(e.message(), "Image is invalid: Filename size is invalid: 0"),
    }
}

#[test]
fn serialize_file_name_len_1_file_entry_works() {
    let expected_data: [u8; 35] = [
        0x12, 0x0F, 0x02, 0xC8, 0xA0, 0xA0, 0xA0, 0xA0, 0xA0, 0xA0, 0xA0, 0xA0, 0xA0, 0xA0, 0xA0,
        0xA0, 0xA0, 0xA0, 0xA0, 0xA0, 0xA0, 0xA0, 0xA0, 0xA0, 0xA0, 0xA0, 0xA0, 0xA0, 0xA0, 0xA0,
        0xA0, 0xA0, 0xA0, 0x02, 0x00,
    ];
    let data = file_entry_as_bytes(&FileEntry::new(
        0x12,
        0x0F,
        FileType::AppleSoftBasic,
        false,
        "H",
        0x0002,
    ));
    assert_eq!(data, expected_data);
}

#[test]
fn serialize_file_name_len_30_file_entry_works() {
    let expected_data: [u8; 35] = [
        0x12, 0x0F, 0x02, 0xB0, 0xB1, 0xB2, 0xB3, 0xB4, 0xB5, 0xB6, 0xB7, 0xB8, 0xB9, 0xB0, 0xB1,
        0xB2, 0xB3, 0xB4, 0xB5, 0xB6, 0xB7, 0xB8, 0xB9, 0xB0, 0xB1, 0xB2, 0xB3, 0xB4, 0xB5, 0xB6,
        0xB7, 0xB8, 0xB9, 0x02, 0x00,
    ];
    let data = file_entry_as_bytes(&FileEntry::new(
        0x12,
        0x0F,
        FileType::AppleSoftBasic,
        false,
        "012345678901234567890123456789",
        0x0002,
    ));
    assert_eq!(data, expected_data);
}

#[test]
fn serialize_file_name_len_31_file_entry_fails() {
    let file_entry = FileEntry::new(
        0x12,
        0x0F,
        FileType::AppleSoftBasic,
        false,
        "0123456789012345678901234567890",
        0x0002,
    );
    match file_entry.as_vec() {
        Ok(_) => panic!("Shouldn't be a valid FileEntry"),
        Err(e) => assert_eq!(e.message(), "Image is invalid: Filename size is invalid: 31"),
    }
}

#[test]
fn file_entry_filename_works() {
    let data: [u8; 35] = [
        0x12, 0x0F, 0x02, 0xC8, 0xC5, 0xCC, 0xCC, 0xCF, 0xA0, 0xA0, 0xA0, 0xA0, 0xA0, 0xA0, 0xA0,
        0xA0, 0xA0, 0xA0, 0xA0, 0xA0, 0xA0, 0xA0, 0xA0, 0xA0, 0xA0, 0xA0, 0xA0, 0xA0, 0xA0, 0xA0,
        0xA0, 0xA0, 0xA0, 0x02, 0x00,
    ];
    let (entry, _) = parse_file_entry(&data, 0).expect("Should parse");
    let filename = entry.filename().expect("Should be a valid filename");
    assert_eq!(filename, "HELLO");
}

#[test]
fn serialize_track_sector_pair_works() {
    let tsp = TrackSectorPair {
        track_number: 0x12,
        sector_number: 0x34,
    };
    let data = tsp.as_vec().unwrap();
    assert_eq!(data.len(), 2);
    assert_eq!(data[0], 0x12);
    assert_eq!(data[1], 0x34);
}

#[test]
fn serialize_track_sector_list_with_zero_track_sector_pair_works() {
    let tsl = TrackSectorList {
        reserved: 0x01,
        track_number_of_next_sector: None,
        sector_number_of_next_sector: None,
        reserved_2: vec![0x02, 0x03],
        sector_offset_in_file: vec![0x04, 0x05],
        reserved_3: vec![0x06, 0x07, 0x08, 0x09, 0x10],
        track_sector_pairs: Vec::new(),
    };
    let data = tsl.as_vec().unwrap();
    assert_eq!(data.len(), 12);
    assert_eq!(
        data,
        vec![0x01, 0x00, 0x00, 0x02, 0x03, 0x04, 0x05, 0x06, 0x07, 0x08, 0x09, 0x10]
    );
}

#[test]
fn serialize_track_sector_list_with_one_track_sector_pair_works() {
    let tsp = TrackSectorPair {
        track_number: 0x12,
        sector_number: 0x34,
    };
    let tsl = TrackSectorList {
        reserved: 0x01,
        track_number_of_next_sector: None,
        sector_number_of_next_sector: None,
        reserved_2: vec![0x02, 0x03],
        sector_offset_in_file: vec![0x04, 0x05],
        reserved_3: vec![0x06, 0x07, 0x08, 0x09, 0x10],
        track_sector_pairs: vec![tsp],
    };
    let data = tsl.as_vec().unwrap();
    assert_eq!(data.len(), 14);
    assert_eq!(
        data,
        vec![0x01, 0x00, 0x00, 0x02, 0x03, 0x04, 0x05, 0x06, 0x07, 0x08, 0x09, 0x10, 0x12, 0x34]
    );
}

#[test]
fn serialize_track_sector_list_with_two_track_sector_pair_works() {
    let tsp1 = TrackSectorPair {
        track_number: 0x12,
        sector_number: 0x34,
    };
    let tsp2 = TrackSectorPair {
        track_number: 0x56,
        sector_number: 0x78,
    };
    let tsl = TrackSectorList {
        reserved: 0x01,
        track_number_of_next_sector: None,
        sector_number_of_next_sector: None,
        reserved_2: vec![0x02, 0x03],
        sector_offset_in_file: vec![0x04, 0x05],
        reserved_3: vec![0x06, 0x07, 0x08, 0x09, 0x10],
        track_sector_pairs: vec![tsp1, tsp2],
    };
    let data = tsl.as_vec().unwrap();
    assert_eq!(data.len(), 16);
    assert_eq!(
        data,
        vec![
            0x01, 0x00, 0x00, 0x02, 0x03, 0x04, 0x05, 0x06, 0x07, 0x08, 0x09, 0x10, 0x12, 0x34,
            0x56, 0x78
        ]
    );
}

#[test]
fn parse_catalog_one_file_works() {
    let data_header: [u8; 46] = [
        0x00, 0x11, 0x0E, 0x00, 0x00, 0x00, 0x00, 0x00, 0x00, 0x00, 0x00, 0x12, 0x0F, 0x02, 0xC8,
        0xC5, 0xCC, 0xCC, 0xCF, 0xA0, 0xA0, 0xA0, 0xA0, 0xA0, 0xA0, 0xA0, 0xA0, 0xA0, 0xA0, 0xA0,
        0xA0, 0xA0, 0xA0, 0xA0, 0xA0, 0xA0, 0xA0, 0xA0, 0xA0, 0xA0, 0xA0, 0xA0, 0xA0, 0xA0, 0x02,
        0x00,
    ];
    let data_footer: [u8; 210] = [0; 210];
    let mut data: Vec<u8> = Vec::new();
    data.extend(data_header);
    data.extend(data_footer);

    let (catalog, _) = parse_catalog(&data, 0).expect("Should parse");
    assert_eq!(catalog.file_entries.len(), 1);
    let file_entry = catalog.file_entries.first().expect("Error getting file entry");
    let filename = file_entry.filename().expect("Error getting file name");
    assert_eq!(filename, "HELLO");
}

#[test]
fn parse_catalog_two_files_works() {
    let data_header: [u8; 81] = [
        0x00, 0x11, 0x0E, 0x00, 0x00, 0x00, 0x00, 0x00, 0x00, 0x00, 0x00, 0x12, 0x0F, 0x02, 0xC8,
        0xC5, 0xCC, 0xCC, 0xCF, 0xA0, 0xA0, 0xA0, 0xA0, 0xA0, 0xA0, 0xA0, 0xA0, 0xA0, 0xA0, 0xA0,
        0xA0, 0xA0, 0xA0, 0xA0, 0xA0, 0xA0, 0xA0, 0xA0, 0xA0, 0xA0, 0xA0, 0xA0, 0xA0, 0xA0, 0x02,
        0x00, 0x12, 0x0F, 0x02, 0xC8, 0xC5, 0xCC, 0xD0, 0xA0, 0xA0, 0xA0, 0xA0, 0xA0, 0xA0, 0xA0,
        0xA0, 0xA0, 0xA0, 0xA0, 0xA0, 0xA0, 0xA0, 0xA0, 0xA0, 0xA0, 0xA0, 0xA0, 0xA0, 0xA0, 0xA0,
        0xA0, 0xA0, 0xA0, 0xA0, 0x02, 0x00,
    ];
    let data_footer: [u8; 210] = [0; 210];
    let mut data: Vec<u8> = Vec::new();
    data.extend(data_header);
    data.extend(data_footer);

    let (catalog, _) = parse_catalog(&data, 0).expect("Should parse");
    assert_eq!(catalog.file_entries.len(), 2);
    assert_eq!(catalog.file_entries[0].filename().unwrap(), "HELLO");
    assert_eq!(catalog.file_entries[1].filename().unwrap(), "HELP");
}

/// Build a 35-track, 16-sector, 256-byte disk as nested vectors, all zero.
fn empty_disk() -> Vec<Vec<Vec<u8>>> {
    let mut tracks: Vec<Vec<Vec<u8>>> = Vec::new();
    for _t in 0..35 {
        let mut track: Vec<Vec<u8>> = Vec::new();
        for _s in 0..16 {
            track.push(vec![0u8; 256]);
        }
        tracks.push(track);
    }
    tracks
}

#[test]
fn parse_single_sector_catalog_works() {
    let file_entries_1 = vec![FileEntry::new(
        0x12,
        0x0F,
        FileType::AppleSoftBasic,
        false,
        "A",
        0x0002,
    )];
    let catalog_1 = Catalog {
        reserved: 0x00,
        track_number_of_next_sector: 0x00,
        sector_number_of_next_sector: 0x00,
        reserved_2: vec![0x00; 8],
        file_entries: file_entries_1,
    };
    let catalog_1_bytes = catalog_1.as_vec().unwrap();

    let mut tracks = empty_disk();
    for (i, byte) in catalog_1_bytes.iter().enumerate() {
        tracks[17][2][i] = *byte;
    }

    let catalog = parse_catalogs(&tracks, 17, 2).expect("Should be a valid FullCatalog");
    assert_eq!(catalog.file_entries.len(), 1);
    assert_eq!(
        catalog.file_entries.first().expect("Should have at least one file").filename().unwrap(),
        "A"
    );
}

#[test]
fn parse_multi_sector_catalog_works() {
    let file_entries_1 = vec![
        FileEntry::new(0x12, 0x0F, FileType::AppleSoftBasic, false, "A", 0x0002),
        FileEntry::new(0x13, 0x0F, FileType::AppleSoftBasic, false, "B", 0x0002),
        FileEntry::new(0x14, 0x0F, FileType::AppleSoftBasic, false, "C", 0x0002),
        FileEntry::new(0x15, 0x0F, FileType::AppleSoftBasic, false, "D", 0x0002),
        FileEntry::new(0x16, 0x0F, FileType::AppleSoftBasic, false, "E", 0x0002),
        FileEntry::new(0x17, 0x0F, FileType::AppleSoftBasic, false, "F", 0x0002),
        FileEntry::new(0x18, 0x0F, FileType::AppleSoftBasic, false, "G", 0x0002),
    ];
    let file_entries_2 = vec![
        FileEntry::new(0x19, 0x0F, FileType::AppleSoftBasic, false, "H", 0x0002),
        FileEntry::new(0x1A, 0x0F, FileType::AppleSoftBasic, false, "I", 0x0002),
        FileEntry::new(0x1B, 0x0F, FileType::AppleSoftBasic, false, "J", 0x0002),
    ];
    let catalog_1 = Catalog {
        reserved: 0x00,
        track_number_of_next_sector: 0x11,
        sector_number_of_next_sector: 0x01,
        reserved_2: vec![0x00; 8],
        file_entries: file_entries_1,
    };
    let catalog_2 = Catalog {
        reserved: 0x00,
        track_number_of_next_sector: 0x00,
        sector_number_of_next_sector: 0x00,
        reserved_2: vec![0x00; 8],
        file_entries: file_entries_2,
    };
    let catalog_1_bytes = catalog_1.as_vec().unwrap();
    let catalog_2_bytes = catalog_2.as_vec().unwrap();

    let mut tracks = empty_disk();
    for (i, byte) in catalog_1_bytes.iter().enumerate() {
        tracks[17][2][i] = *byte;
    }
    for (i, byte) in catalog_2_bytes.iter().enumerate() {
        tracks[17][1][i] = *byte;
    }

    let catalog = parse_catalogs(&tracks, 17, 2).expect("Should be a valid FullCatalog");
    assert_eq!(catalog.file_entries.len(), 10);
    assert_eq!(
        catalog.file_entries.first().expect("Should have at least one file").filename().unwrap(),
        "A"
    );
}

/// Build a test binary file: the ASCII string START, a run of counting
/// bytes, and the ASCII string END, preceded by a four-byte address and
/// length header.
fn build_binary_test_file(size: u16) -> Vec<u8> {
    let mut data: Vec<u8> = Vec::new();
    data.extend([0x00, 0x10]);
    data.extend(image_rider::serialize::little_endian_word_to_bytes(size));
    match size {
        0 => {}
        1 => data.push(0x53),
        2 => data.extend([0x53, 0x44]),
        3 => data.extend([0x53, 0x54, 0x44]),
        4 => data.extend([0x53, 0x54, 0x4e, 0x44]),
        5 => data.extend([0x53, 0x54, 0x41, 0x4e, 0x44]),
        6 => data.extend([0x53, 0x54, 0x41, 0x45, 0x4e, 0x44]),
        7 => data.extend([0x53, 0x54, 0x41, 0x52, 0x45, 0x4e, 0x44]),
        8 => data.extend([0x53, 0x54, 0x41, 0x52, 0x54, 0x45, 0x4e, 0x44]),
        _ => {
            data.extend([0x53, 0x54, 0x41, 0x52, 0x54]);
            for i in 0..size - 8 {
                data.push((i % 0x100) as u8);
            }
            data.extend([0x45, 0x4e, 0x44]);
        }
    }
    data
}

#[test]
fn build_single_sector_binary_file_works() {
    let file_entry = FileEntry::new(0x0A, 0x0D, FileType::Binary, false, "BLAH", 0x0001);
    let catalog_1 = Catalog {
        reserved: 0x00,
        track_number_of_next_sector: 0x00,
        sector_number_of_next_sector: 0x00,
        reserved_2: vec![0x00; 8],
        file_entries: vec![file_entry],
    };
    let catalog_1_bytes = catalog_1.as_vec().unwrap();

    let mut tracks = empty_disk();
    for (i, byte) in catalog_1_bytes.iter().enumerate() {
        tracks[17][2][i] = *byte;
    }

    let data = build_binary_test_file(200);
    for (i, byte) in data.iter().enumerate() {
        tracks[0x11][0x0B][i] = *byte;
    }

    let tsp = TrackSectorPair {
        track_number: 0x11,
        sector_number: 0x0B,
    };
    let tsl = TrackSectorList {
        reserved: 0,
        track_number_of_next_sector: None,
        sector_number_of_next_sector: None,
        reserved_2: vec![0, 0],
        sector_offset_in_file: vec![0, 0],
        reserved_3: vec![0, 0, 0, 0, 0],
        track_sector_pairs: vec![tsp],
    };
    for (i, byte) in tsl.as_vec().unwrap().iter().enumerate() {
        tracks[0x0A][0x0D][i] = *byte;
    }

    let catalog = parse_catalogs(&tracks, 17, 2).expect("Should be a valid FullCatalog");
    assert_eq!(catalog.file_entries.len(), 1);
    assert_eq!(
        catalog.file_entries.first().expect("Should have at least one file").filename().unwrap(),
        "BLAH"
    );

    let files = build_files(catalog, &tracks).unwrap();
    assert!(files.contains_key("BLAH"));
    assert!(!files.contains_key("BLARGH"));

    let file = files.get("BLAH").unwrap();
    assert_eq!(file.data.len(), 200);
    assert_eq!(&file.data[0..5], "START".as_bytes());
    for i in 0..192 {
        assert_eq!(file.data[(i as usize) + 5_usize], i);
    }
    assert_eq!(&file.data[197..200], "END".as_bytes());
}

#[test]
fn build_two_sector_binary_file_works() {
    let file_entry = FileEntry::new(0x0A, 0x0D, FileType::Binary, false, "BLAH", 0x0002);
    let catalog_1 = Catalog {
        reserved: 0x00,
        track_number_of_next_sector: 0x00,
        sector_number_of_next_sector: 0x00,
        reserved_2: vec![0x00; 8],
        file_entries: vec![file_entry],
    };
    let catalog_1_bytes = catalog_1.as_vec().unwrap();

    let mut tracks = empty_disk();
    for (i, byte) in catalog_1_bytes.iter().enumerate() {
        tracks[17][2][i] = *byte;
    }

    let data = build_binary_test_file(400);
    for (i, byte) in data[0..=255].iter().enumerate() {
        tracks[0x11][0x0B][i] = *byte;
    }
    for (i, byte) in data[256..].iter().enumerate() {
        tracks[0x11][0x0C][i] = *byte;
    }

    let tsp1 = TrackSectorPair {
        track_number: 0x11,
        sector_number: 0x0B,
    };
    let tsp2 = TrackSectorPair {
        track_number: 0x11,
        sector_number: 0x0C,
    };
    let tsl = TrackSectorList {
        reserved: 0,
        track_number_of_next_sector: None,
        sector_number_of_next_sector: None,
        reserved_2: vec![0, 0],
        sector_offset_in_file: vec![0, 0],
        reserved_3: vec![0, 0, 0, 0, 0],
        track_sector_pairs: vec![tsp1, tsp2],
    };
    for (i, byte) in tsl.as_vec().unwrap().iter().enumerate() {
        tracks[0x0A][0x0D][i] = *byte;
    }

    let catalog = parse_catalogs(&tracks, 17, 2).expect("Should be a valid FullCatalog");
    assert_eq!(catalog.file_entries.len(), 1);
    assert_eq!(
        catalog.file_entries.first().expect("Should have at least one file").filename().unwrap(),
        "BLAH"
    );

    let files = build_files(catalog, &tracks).unwrap();
    assert!(files.contains_key("BLAH"));
    assert!(!files.contains_key("BLARGH"));

    let file = files.get("BLAH").unwrap();
    assert_eq!(file.data.len(), 400);
    assert_eq!(&file.data[0..5], "START".as_bytes());
    let expected_data: Vec<u8> = (0_u16..392_u16).map(|i| (i % 0x100) as u8).collect();
    assert_eq!(&file.data[5..397], expected_data.as_slice());
    assert_eq!(&file.data[397..400], "END".as_bytes());
}

/// A file entry with a name of low ASCII and no trailing space survives the
/// round trip through serialization and parsing.
#[test]
fn file_entry_round_trip_works() {
    let entry = FileEntry::new(0x12, 0x0F, FileType::Binary, true, "SAMPLE 1", 0x0003);
    let bytes = entry.as_vec().unwrap();
    let (parsed, _) = parse_file_entry(&bytes, 0).expect("Should parse");
    assert_eq!(parsed.track_of_first_track_sector_list_sector, 0x12);
    assert_eq!(parsed.sector_of_first_track_sector_list_sector, 0x0F);
    assert!(matches!(parsed.file_type, FileType::Binary));
    assert!(parsed.locked);
    assert_eq!(parsed.file_length_in_sectors, 0x0003);
    assert_eq!(parsed.filename().unwrap(), "SAMPLE 1");
}

/// Serializing a valid entry leaves exactly 0xA0 in the non-name bytes of
/// the name field, and the type byte carries the locked bit.
#[test]
fn serialized_file_entry_padding_works() {
    let entry = FileEntry::new(0x01, 0x02, FileType::Text, true, "AB", 0x0001);
    let bytes = entry.as_vec().unwrap();
    assert_eq!(bytes.len(), 35);
    assert_eq!(bytes[2], 0x80);
    for i in 5..33 {
        assert_eq!(bytes[i], 0xA0);
    }
}

/// An invalid error kind renders as a checksum message.
#[test]
fn invalid_error_kind_checksum_works() {
    let e = image_rider::error::Error::new(ErrorKind::Invalid(InvalidErrorKind::Checksum));
    assert_eq!(e.message(), "Image has an invalid checksum");
}

/// Parsing a truncated track/sector list fails.
#[test]
fn parse_track_sector_list_short_fails() {
    let data: [u8; 4] = [0, 0, 0, 0];
    assert!(parse_track_sector_list(&data, 0).is_err());
}

/// Serializing a run of pairs concatenates their bytes.
#[test]
fn track_sector_pairs_as_vec_works() {
    let pairs = vec![
        TrackSectorPair { track_number: 1, sector_number: 2 },
        TrackSectorPair { track_number: 3, sector_number: 4 },
    ];
    assert_eq!(track_sector_pairs_as_vec(&pairs).unwrap(), vec![1, 2, 3, 4]);
}

/// A binary full file serializes to its address and length as little-endian
/// words followed by its payload; other types cannot be serialized.
#[test]
fn full_file_as_vec_works() {

    let entry = FileEntry::new(0x0A, 0x0D, FileType::Binary, false, "BLAH", 0x0001);
    let full = FullFile {
        file_entry: entry,
        data: vec![0xDE, 0xAD, 0xBE, 0xEF],
        address: 0x1000,
        length: 4,
    };
    let bytes = full.as_vec().unwrap();
    assert_eq!(bytes, vec![0x00, 0x10, 0x04, 0x00, 0xDE, 0xAD, 0xBE, 0xEF]);

    let text_entry = FileEntry::new(0x0A, 0x0D, FileType::Text, false, "NOTES", 0x0001);
    let text_full = FullFile {
        file_entry: text_entry,
        data: vec![0x41],
        address: 0,
        length: 1,
    };
    match text_full.as_vec() {
        Err(e) => assert!(matches!(e.kind, ErrorKind::Unimplemented(_))),
        Ok(_) => panic!("Only binary files serialize"),
    }
}
