//! Tests for the Atari ST STX decoder.
use image_rider::stx::crc16_add_byte;
use image_rider::stx::disk::stx_disk_header_parser;
use image_rider::stx::sector::{
    calculate_boot_sector_sum_from_words, calculate_crc16, parse_boot_sector_as_words,
    sector_size_as_bytes, stx_sector_header_parser, STXSectorHeader,
};
use image_rider::stx::track::stx_track_header_parser;

#[test]
fn stx_crc16_add_one_works() {
    let test_byte = 0x01_u8;
    let crc = 0xFFFF_u16;
    let crc = crc16_add_byte(crc, test_byte);
    // Each shift:
    //   0xFFFF (start) -> 0xFEFF (XOR shifted byte) ->
    //   0xEDDF -> 0xCB9F -> 0x871F -> 0x1E1F -> 0x3C3E -> 0x787C -> 0xF0F8 -> 0xF1D1
    assert_eq!(crc, 0xF1D1);
}

#[test]
fn mod_crc16_add_one_works() {
    let crc = crc16_add_byte(0xFFFF_u16, 0x01_u8);
    assert_eq!(crc, 0xF1D1);
}

#[test]
fn stx_stx_disk_valid_header_parser_works() {
    // Standard stock Atari ST image: version 3, tool 1, 82 tracks,
    // new format 2.
    let stx_disk_header: [u8; 16] = [
        0x52, 0x53, 0x59, 0x00, 0x03, 0x00, 0x01, 0x00, 0x00, 0x00, 0x52, 0x02, 0x00, 0x00, 0x00,
        0x00,
    ];
    let (res, _) = stx_disk_header_parser(&stx_disk_header, 0).expect("Should parse");
    assert_eq!(res.disk_id, vec![0x52, 0x53, 0x59, 0x00]);
    assert_eq!(res.version, 0x03);
    assert_eq!(res.tool_used, 0x01);
    assert_eq!(res.reserved_area_1, vec![0x00, 0x00]);
    assert_eq!(res.track_count, 0x52);
    assert_eq!(res.new_format, 0x02);
    assert_eq!(res.reserved_area_2, vec![0x00, 0x00, 0x00, 0x00]);
}

#[test]
fn disk_stx_disk_valid_header_parser_works() {
    let stx_disk_header: [u8; 16] = [
        0x52, 0x53, 0x59, 0x00, 0x03, 0x00, 0x01, 0x00, 0x00, 0x00, 0x52, 0x02, 0x00, 0x00, 0x00,
        0x00,
    ];
    let (res, next) = stx_disk_header_parser(&stx_disk_header, 0).expect("Should parse");
    assert_eq!(next, 16);
    assert_eq!(res.track_count, 0x52);
}

/// An invalid magic number fails the disk header parse.
#[test]
fn stx_stx_disk_invalid_header_parser_fails() {
    let stx_disk_header: [u8; 16] = [
        0x52, 0x53, 0x60, 0x00, 0x03, 0x00, 0x01, 0x00, 0x00, 0x00, 0x52, 0x02, 0x00, 0x00, 0x00,
        0x00,
    ];
    assert!(stx_disk_header_parser(&stx_disk_header, 0).is_err());
}

#[test]
fn disk_stx_disk_invalid_header_parser_fails() {
    let stx_disk_header: [u8; 16] = [
        0x52, 0x53, 0x60, 0x00, 0x03, 0x00, 0x01, 0x00, 0x00, 0x00, 0x52, 0x02, 0x00, 0x00, 0x00,
        0x00,
    ];
    assert!(stx_disk_header_parser(&stx_disk_header, 0).is_err());
}

#[test]
fn stx_valid_track_header_parser_works() {
    // Track header: block_size: 0x2B43, fuzzy_size: 0, sectors_count: 9
    let stx_track_header: [u8; 16] = [
        0x43, 0x2b, 0x00, 0x00, 0x00, 0x00, 0x00, 0x00, 0x09, 0x00, 0x61, 0x00, 0x74, 0x18, 0x00,
        0x00,
    ];
    let (res, _) = stx_track_header_parser(&stx_track_header, 0).expect("Should parse");
    assert_eq!(res.block_size, 0x2b43);
    assert_eq!(res.fuzzy_size, 0x00);
    assert_eq!(res.sectors_count, 0x09);
    assert_eq!(res.flags, 0x61);
    assert_eq!(res.mfm_size, 0x1874);
    assert_eq!(res.track_number, 0x00);
    assert_eq!(res.record_type, 0x00);
    assert!(res.check());
}

#[test]
fn track_stx_valid_track_header_parser_works() {
    let stx_track_header: [u8; 16] = [
        0x43, 0x2b, 0x00, 0x00, 0x00, 0x00, 0x00, 0x00, 0x09, 0x00, 0x61, 0x00, 0x74, 0x18, 0x00,
        0x00,
    ];
    let (res, next) = stx_track_header_parser(&stx_track_header, 0).expect("Should parse");
    assert_eq!(next, 16);
    assert!(res.check());
}

#[test]
fn stx_unknown_track_header_parser_works() {
    // The same header with an unknown flags value fails the sanity check.
    let stx_track_header: [u8; 16] = [
        0x43, 0x2b, 0x00, 0x00, 0x00, 0x00, 0x00, 0x00, 0x09, 0x00, 0x62, 0x00, 0x74, 0x18, 0x00,
        0x00,
    ];
    let (res, _) = stx_track_header_parser(&stx_track_header, 0).expect("Should parse");
    assert_eq!(res.block_size, 0x2b43);
    assert_eq!(res.fuzzy_size, 0x00);
    assert_eq!(res.sectors_count, 0x09);
    assert_eq!(res.flags, 0x62);
    assert_eq!(res.mfm_size, 0x1874);
    assert_eq!(res.track_number, 0x00);
    assert_eq!(res.record_type, 0x00);
    assert_eq!(false, res.check());
}

#[test]
fn track_stx_unknown_track_header_parser_works() {
    let stx_track_header: [u8; 16] = [
        0x43, 0x2b, 0x00, 0x00, 0x00, 0x00, 0x00, 0x00, 0x09, 0x00, 0x62, 0x00, 0x74, 0x18, 0x00,
        0x00,
    ];
    let (res, _) = stx_track_header_parser(&stx_track_header, 0).expect("Should parse");
    assert_eq!(false, res.check());
}

#[test]
fn parse_boot_sector_as_words_works() {
    let mut boot_sector = [0_u8; 512];
    for i in 0..512 {
        boot_sector[i] = (i & 0x00FF) as u8;
    }
    let (words, _) = parse_boot_sector_as_words(&boot_sector).expect("Should parse");
    let mut cnt: u16 = 0;
    for word in words.iter() {
        let byte1: u16 = cnt & 0xFF;
        cnt += 1;
        let byte2: u16 = cnt & 0xFF;
        cnt += 1;
        // The first byte is the most significant byte in big endian.
        let i: u16 = (byte1 << 8) + byte2;
        assert_eq!(*word, i);
    }
}

#[test]
fn stx_boot_sector_checksum_works() {
    let mut boot_sector = [0_u8; 512];
    boot_sector[0] = 0x12;
    boot_sector[1] = 0x34;
    let checksum = calculate_boot_sector_sum_from_words(&boot_sector);
    assert_eq!(checksum, true);
}

/// Every parsed sector header carries a CRC that matches the one computed
/// over its synthesised address block.
#[test]
fn stx_sector_header_crc_works() {
    // Compute the CRC of the address block A1 A1 A1 FE 01 00 02 02 by the
    // same steps the decoder uses, then store it big-endian in the header.
    let mut crc: u16 = 0xFFFF;
    for b in [0xA1u8, 0xA1, 0xA1, 0xFE, 0x01, 0x00, 0x02, 0x02] {
        crc = crc16_add_byte(crc, b);
    }
    let mut header_bytes: Vec<u8> = vec![
        0x00, 0x00, 0x00, 0x00, // data offset
        0x00, 0x00, // bit position
        0x00, 0x00, // read time
        0x01, 0x00, 0x02, 0x02, // id track, head, sector, size
    ];
    header_bytes.push((crc >> 8) as u8);
    header_bytes.push((crc & 0xFF) as u8);
    header_bytes.push(0x00);
    header_bytes.push(0x00);

    let (header, _) = stx_sector_header_parser(&header_bytes, 0).expect("Should parse");
    assert_eq!(calculate_crc16(&header), header.id_crc);

    // Corrupting the stored CRC makes the parse fail.
    let mut bad = header_bytes.clone();
    bad[12] ^= 0xFF;
    assert!(stx_sector_header_parser(&bad, 0).is_err());
}

/// The sector size field stands for 512 or 1024 bytes; anything else is
/// zero.
#[test]
fn sector_size_as_bytes_works() {
    assert_eq!(sector_size_as_bytes(2), 512);
    assert_eq!(sector_size_as_bytes(3), 1024);
    assert_eq!(sector_size_as_bytes(7), 0);
}

/// The header CRC helper matches the byte-by-byte fold.
#[test]
fn calculate_crc16_works() {
    let header = STXSectorHeader {
        data_offset: 0,
        bit_position: 0,
        read_time: 0,
        id_track: 5,
        id_head: 0,
        id_sector: 3,
        id_size: 2,
        id_crc: 0,
        fdc_status: 0,
        reserved: 0,
    };
    let mut crc: u16 = 0xFFFF;
    for b in [0xA1u8, 0xA1, 0xA1, 0xFE, 5, 0, 3, 2] {
        crc = crc16_add_byte(crc, b);
    }
    assert_eq!(calculate_crc16(&header), crc);
}

/// A whole one-track STX image parses: the disk header, a sector-block
/// track with one CRC-checked sector header, and the 512 bytes of sector
/// data; the flat payload of the image is exactly that sector data.
#[test]
fn stx_disk_parser_one_track_works() {
    // Sector header: data offset 2 (past the two-byte track image size),
    // id track 0, head 0, sector 1, size 2 (512 bytes).
    let mut crc: u16 = 0xFFFF;
    for b in [0xA1u8, 0xA1, 0xA1, 0xFE, 0x00, 0x00, 0x01, 0x02] {
        crc = crc16_add_byte(crc, b);
    }

    let mut image: Vec<u8> = Vec::new();
    // Disk header: magic, version 3, tool 1, 1 track.
    image.extend([0x52, 0x53, 0x59, 0x00, 0x03, 0x00, 0x01, 0x00, 0x00, 0x00, 0x01, 0x02]);
    image.extend([0x00, 0x00, 0x00, 0x00]);
    // Track header: block size 546 = 16 + 16 + 2 + 512, no fuzzy bytes,
    // one sector, flags 0x61, mfm size 0, track 0, record type 0.
    image.extend([0x22, 0x02, 0x00, 0x00]);
    image.extend([0x00, 0x00, 0x00, 0x00]);
    image.extend([0x01, 0x00]);
    image.extend([0x61, 0x00]);
    image.extend([0x00, 0x00]);
    image.extend([0x00, 0x00]);
    // Sector header.
    image.extend([0x02, 0x00, 0x00, 0x00]);
    image.extend([0x00, 0x00]);
    image.extend([0x00, 0x00]);
    image.extend([0x00, 0x00, 0x01, 0x02]);
    image.push((crc >> 8) as u8);
    image.push((crc & 0xFF) as u8);
    image.extend([0x00, 0x00]);
    // Track image size, then the sector data.
    image.extend([0x00, 0x02]);
    let sector_data: Vec<u8> = (0..512u32).map(|i| (i % 251) as u8).collect();
    image.extend(sector_data.iter());

    let (disk, next) = image_rider::stx::disk::stx_disk_parser(&image, 0).expect("Should parse");
    assert_eq!(next, image.len());
    assert_eq!(disk.stx_disk_header.track_count, 1);
    assert_eq!(disk.stx_tracks.len(), 1);
    let track = &disk.stx_tracks[0];
    assert_eq!(track.header.flags, 0x61);
    let headers = track.sector_headers.as_ref().expect("Should hold headers");
    assert_eq!(headers.len(), 1);
    assert_eq!(headers[0].id_sector, 1);
    let data = track.sector_data.as_ref().expect("Should hold data");
    assert_eq!(data.len(), 1);
    assert_eq!(data[0], sector_data);

    // The flat payload of the image is the sector data.
    let payload = image_rider::image::disk_image_data(&image_rider::image::DiskImage::STX(disk))
        .expect("Should have a payload");
    assert_eq!(payload, sector_data);
}

/// A track whose header CRC does not match ends the decode.
#[test]
fn stx_disk_parser_bad_sector_crc_fails() {
    let mut image: Vec<u8> = Vec::new();
    image.extend([0x52, 0x53, 0x59, 0x00, 0x03, 0x00, 0x01, 0x00, 0x00, 0x00, 0x01, 0x02]);
    image.extend([0x00, 0x00, 0x00, 0x00]);
    image.extend([0x22, 0x02, 0x00, 0x00]);
    image.extend([0x00, 0x00, 0x00, 0x00]);
    image.extend([0x01, 0x00]);
    image.extend([0x61, 0x00]);
    image.extend([0x00, 0x00]);
    image.extend([0x00, 0x00]);
    image.extend([0x02, 0x00, 0x00, 0x00]);
    image.extend([0x00, 0x00]);
    image.extend([0x00, 0x00]);
    image.extend([0x00, 0x00, 0x01, 0x02]);
    // A stored CRC of zero never matches the synthesised address block.
    image.extend([0x00, 0x00]);
    image.extend([0x00, 0x00]);
    image.extend([0x00, 0x02]);
    image.extend(std::iter::repeat(0u8).take(512));

    assert!(image_rider::stx::disk::stx_disk_parser(&image, 0).is_err());
}
