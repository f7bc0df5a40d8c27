//! Tests for the Commodore D64 decoder.
use image_rider::commodore::d64::{
    bam_entry_parser, bam_entry_to_boolean_vector, bitmap_to_chars, block_to_track,
    d64_disk_parser, d64_file_entry_parser, track_to_block_length, FileType,
};
use image_rider::commodore::disk::{CommodoreDiskGuess, Format};

#[test]
fn bam_entry_to_boolean_vector_works() {
    let bam_entry_data: [u8; 4] = [0x11, 0xd7, 0x5f, 0x1f];
    let (bam_entry, _) = bam_entry_parser(&bam_entry_data, 0)
        .expect("Parsing failed on the BAM entry");
    let bv = bam_entry_to_boolean_vector(&bam_entry);

    assert_eq!(bv.0.len(), 21);
    assert_eq!(bv.0[0], true);
    assert_eq!(bv.0[1], true);
    assert_eq!(bv.0[2], true);
    assert_eq!(bv.0[3], false);
    assert_eq!(bv.0[4], true);
    assert_eq!(bv.0[5], false);
    assert_eq!(bv.0[6], true);
    assert_eq!(bv.0[7], true);

    assert_eq!(bv.0[8], true);
    assert_eq!(bv.0[9], true);
    assert_eq!(bv.0[10], true);
    assert_eq!(bv.0[11], true);
    assert_eq!(bv.0[12], true);
    assert_eq!(bv.0[13], false);
    assert_eq!(bv.0[14], true);
    assert_eq!(bv.0[15], false);

    assert_eq!(bv.0[16], true);
    assert_eq!(bv.0[17], true);
    assert_eq!(bv.0[18], true);
    assert_eq!(bv.0[19], true);
    assert_eq!(bv.0[20], true);
}

#[test]
fn boolean_vector_to_chars_works() {
    let bam_entry_data: [u8; 4] = [0x11, 0xd7, 0x5f, 0x1f];
    let (bam_entry, _) = bam_entry_parser(&bam_entry_data, 0)
        .expect("Parsing failed on the BAM entry");
    let bv = bam_entry_to_boolean_vector(&bam_entry);

    let bc = bitmap_to_chars(&bv, '1', '0');
    assert_eq!(bc, "111010111111101011111");

    let bc = bitmap_to_chars(&bv, 'X', '-');
    assert_eq!(bc, "XXX-X-XXXXXXX-X-XXXXX");
}

#[test]
fn file_entry_parser_works() {
    let data_disk: [u8; 30] = [
        0x82, 0x11, 0x00, 0x48, 0x4f, 0x57, 0x20, 0x54, 0x4f, 0x20, 0x55, 0x53, 0x45, 0xa0, 0xa0,
        0xa0, 0xa0, 0xa0, 0xa0, 0x00, 0x00, 0x00, 0x00, 0x00, 0x00, 0x00, 0x00, 0x00, 0xd0, 0x00,
    ];
    let (file_entry, _) =
        d64_file_entry_parser(&data_disk, 0).expect("Parsing failed on the file entry");
    assert!(matches!(file_entry.file_type.file_type, FileType::Program));
    assert_eq!(file_entry.track_of_first_data_block, 0x11);
    assert_eq!(file_entry.number_of_blocks_in_file, 0xD0);
}

/// The track-to-blocks map follows the 1541 zones inclusively: tracks 1-17
/// carry 21 sectors, 18-24 carry 19, 25-30 carry 18, 31-35 carry 17; an
/// out-of-range track is an error.
#[test]
fn track_to_block_length_works() {
    assert_eq!(track_to_block_length(1).unwrap(), 21);
    assert_eq!(track_to_block_length(16).unwrap(), 21);
    assert_eq!(track_to_block_length(17).unwrap(), 21);
    assert_eq!(track_to_block_length(18).unwrap(), 19);
    assert_eq!(track_to_block_length(24).unwrap(), 19);
    assert_eq!(track_to_block_length(25).unwrap(), 18);
    assert_eq!(track_to_block_length(30).unwrap(), 18);
    assert_eq!(track_to_block_length(31).unwrap(), 17);
    assert_eq!(track_to_block_length(35).unwrap(), 17);
    assert!(track_to_block_length(0).is_err());
    assert!(track_to_block_length(36).is_err());
    assert!(track_to_block_length(40).is_err());
}

/// The block-to-track map inverts the zones: the first 357 blocks lie on
/// the 21-sector tracks, the next 133 on the 19-sector tracks, the next 108
/// on the 18-sector tracks, and the last 85 on the 17-sector tracks; an
/// out-of-range block is an error.
#[test]
fn block_to_track_works() {
    assert_eq!(block_to_track(0).unwrap(), 0);
    assert_eq!(block_to_track(20).unwrap(), 0);
    assert_eq!(block_to_track(21).unwrap(), 1);
    assert_eq!(block_to_track(356).unwrap(), 16);
    assert_eq!(block_to_track(357).unwrap(), 17);
    assert_eq!(block_to_track(489).unwrap(), 23);
    assert_eq!(block_to_track(490).unwrap(), 24);
    assert_eq!(block_to_track(597).unwrap(), 29);
    assert_eq!(block_to_track(598).unwrap(), 30);
    assert_eq!(block_to_track(682).unwrap(), 34);
    assert!(block_to_track(683).is_err());
}

/// Build a minimal D64 image that the BAM parser accepts.
fn minimal_d64_image() -> Vec<u8> {
    let mut data: Vec<u8> = vec![0; 0x16600 + 242];
    data[0x16500] = 0x12;
    data[0x16501] = 0x01;
    data[0x16502] = 0x41;
    // The disk name, padded with shifted spaces.
    for i in 0..16 {
        data[0x16590 + i] = 0xA0;
    }
    // The DOS type tag "2A".
    data[0x165A5] = 0x32;
    data[0x165A6] = 0x41;
    data
}

/// Every accepted D64 image carries the magic bytes 0x12, 0x01, 0x41 at
/// offset 0x16500 and the DOS type tag `2A`; any deviation is rejected.
#[test]
fn d64_disk_parser_magic_works() {
    let data = minimal_d64_image();
    let (disk, _) = d64_disk_parser(&data).expect("Should parse");
    assert_eq!(disk.bam.first_directory_sector_track, 0x12);
    assert_eq!(disk.bam.first_directory_sector_sector, 0x01);
    assert_eq!(disk.bam.disk_dos_version, 0x41);
    assert!(disk.bam.check());
    assert_eq!(disk.directory.file_entries.len(), 8);

    let mut bad_version = data.clone();
    bad_version[0x16502] = 0x42;
    assert!(d64_disk_parser(&bad_version).is_err());

    let mut bad_tag = data.clone();
    bad_tag[0x165A5] = 0x33;
    assert!(d64_disk_parser(&bad_tag).is_err());

    let mut bad_track = data;
    bad_track[0x16500] = 0x13;
    assert!(d64_disk_parser(&bad_track).is_err());
}

/// A name of nothing but shifted-space padding displays as empty: the
/// padding is stripped by the PETSCII conversion.
#[test]
fn d64_padded_name_displays_empty() {
    let data = minimal_d64_image();
    let (disk, _) = d64_disk_parser(&data).expect("Should parse");
    assert_eq!(disk.bam.disk_name.display_string(), "");
}

/// The `d64` extension names a Commodore disk guess.
#[test]
fn commodore_guess_works() {
    let data: Vec<u8> = vec![0; 16];
    let guess = CommodoreDiskGuess::guess("game.D64", &data).expect("Should guess");
    assert_eq!(guess.format, Format::D64(16));
    assert!(CommodoreDiskGuess::guess("game.dsk", &data).is_none());
}
