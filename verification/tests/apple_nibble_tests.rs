//! Tests for the Apple nibble codec.
use image_rider::apple::nibble::{
    build_nibble_sector, data_field_build_buffer, find_and_parse_address_field,
    nibblize_data, parse_6_and_2_nibblized_data, parse_nib_disk, parse_nibble_byte_4_and_4,
    parse_prologue, recognize_prologue, transform_data_field, write_table_entry, DataField,
};
use image_rider::config::Config;
use image_rider::error::{ErrorKind, InvalidErrorKind};

#[test]
fn parse_nibble_byte_4_and_4_works() {
    let volume_data: [u8; 2] = [0xFF, 0xFE];
    let track_data: [u8; 2] = [0xAB, 0xBF];
    let sector_data: [u8; 2] = [0xAA, 0xAF];
    let checksum_data: [u8; 2] = [0xFE, 0xEE];
    let zero_data: [u8; 2] = [0x00, 0x00];
    let one_data: [u8; 2] = [0x00, 0x01];

    assert_eq!(parse_nibble_byte_4_and_4(&volume_data, 0).unwrap().0, 0xFE);
    assert_eq!(parse_nibble_byte_4_and_4(&track_data, 0).unwrap().0, 0x17);
    assert_eq!(parse_nibble_byte_4_and_4(&sector_data, 0).unwrap().0, 0x05);
    assert_eq!(parse_nibble_byte_4_and_4(&checksum_data, 0).unwrap().0, 0xEC);
    assert_eq!(parse_nibble_byte_4_and_4(&zero_data, 0).unwrap().0, 0x00);
    assert_eq!(parse_nibble_byte_4_and_4(&one_data, 0).unwrap().0, 0x01);
}

#[test]
fn find_and_parse_address_field_works() {
    // volume: 254, track: 23, sector: 5
    let address_field_data: [u8; 14] = [
        0xD5, 0xAA, 0x96, 0xFF, 0xFE, 0xAB, 0xBF, 0xAA, 0xAF, 0xFE, 0xEE, 0xDE, 0xAA, 0xEB,
    ];
    let config = Config::new(false);
    let (address_field, _) =
        find_and_parse_address_field(&config, &address_field_data, 0).expect("Should parse");
    assert_eq!(address_field.volume, 0xFE);
    assert_eq!(address_field.track, 0x17);
    assert_eq!(address_field.sector, 0x05);
    assert_eq!(address_field.checksum, 0xEC);
}

/// A mismatched address checksum ends the decode with the exact message the
/// failure carries.
#[test]
fn find_and_parse_address_field_panics_with_invalid_checksum() {
    let address_field_data: [u8; 14] = [
        0xD5, 0xAA, 0x96, 0xFF, 0xFE, 0xAB, 0xBF, 0xAA, 0xAF, 0x00, 0x00, 0xDE, 0xAA, 0xEB,
    ];
    let config = Config::new(false);
    let result = find_and_parse_address_field(&config, &address_field_data, 0);
    match result {
        Ok(_) => panic!("Should fail with checksum error"),
        Err(e) => match e.kind {
            ErrorKind::Invalid(InvalidErrorKind::Invalid(m)) => {
                assert_eq!(
                    m,
                    "Address field computed checksum not equal to disk checksum: 236 0"
                );
            }
            _ => panic!("Wrong error kind"),
        },
    }
}

/// With checksum failures ignored, the same bad field parses.
#[test]
fn find_and_parse_address_field_ignore_checksums_works() {
    let address_field_data: [u8; 14] = [
        0xD5, 0xAA, 0x96, 0xFF, 0xFE, 0xAB, 0xBF, 0xAA, 0xAF, 0x00, 0x00, 0xDE, 0xAA, 0xEB,
    ];
    let config = Config::new(true);
    let (address_field, _) =
        find_and_parse_address_field(&config, &address_field_data, 0).expect("Should parse");
    assert_eq!(address_field.checksum, 0x00);
}

#[test]
fn transform_data_field_works() {
    let mut data: [u8; 342] = [0; 342];
    for i in 0..=341 {
        data[i] = write_table_entry((i % 0x40) as u8);
    }
    let data_field = DataField {
        data: data.to_vec(),
        checksum: 0x96,
    };
    let (_buffer, checksum) = data_field_build_buffer(&data_field);
    assert_eq!(checksum, 1);
}

#[test]
fn data_field_round_trip() {
    let mut original_data: [u8; 256] = [0; 256];
    for i in 0_u8..=255_u8 {
        original_data[i as usize] = i;
    }
    original_data[255] = 1;

    let data_field = build_nibble_sector(&original_data);
    let config = Config::new(false);
    let sector = transform_data_field(&config, &data_field).expect("Should decode");
    assert_eq!(sector.data, original_data);
}

#[test]
fn parse_prologue_dos_33_works() {
    let data = [0xD5, 0xAA, 0x96];
    let (start, next) = parse_prologue(&data, 0).expect("Shouldn't fail parsing data");
    assert_eq!(start, 0);
    assert_eq!(next, 3);
    assert_eq!(&data[start..start + 3], &[0xD5, 0xAA, 0x96]);
}

#[test]
fn parse_prologue_dos_33_skip_works() {
    let data = [0x00, 0x00, 0xD5, 0xAA, 0x96];
    let (start, _) = parse_prologue(&data, 0).expect("Shouldn't fail parsing data");
    assert_eq!(&data[start..start + 3], &[0xD5, 0xAA, 0x96]);
}

#[test]
fn parse_prologue_dos_32_works() {
    let data = [0xD5, 0xAA, 0xB5];
    let (start, _) = parse_prologue(&data, 0).expect("Shouldn't fail parsing data");
    assert_eq!(&data[start..start + 3], &[0xD5, 0xAA, 0xB5]);
}

#[test]
fn parse_no_prologue_fails() {
    let data = [0x00, 0x00, 0x00];
    let result = parse_prologue(&data, 0);
    match result {
        Ok(_) => panic!("Should fail parsing data"),
        Err(e) => assert_eq!(e.message(), "An error occurred: Parsing requires more data"),
    }
}

#[test]
fn parse_incomplete_prologue_fails() {
    let data = [0xD5, 0xAA, 0x00];
    let result = parse_prologue(&data, 0);
    match result {
        Ok(_) => panic!("Should fail parsing data"),
        Err(e) => assert_eq!(e.message(), "An error occurred: Parsing requires more data"),
    }
}

#[test]
fn parse_incomplete_prologue_two_bytes_fails() {
    let data = [0xD5, 0xAA];
    let result = parse_prologue(&data, 0);
    match result {
        Ok(_) => panic!("Should fail parsing data"),
        Err(e) => assert_eq!(e.message(), "An error occurred: Parsing requires more data"),
    }
}

/// The recognizer hands back the byte that ends the first prologue.
#[test]
fn recognize_prologue_works() {
    let data = [0x00, 0xD5, 0xAA, 0xB5];
    assert_eq!(recognize_prologue(&data), Some(0xB5));
    let none = [0x00, 0x00, 0x00, 0x00];
    assert_eq!(recognize_prologue(&none), None);
}

/// The read table decodes what the write table encodes; masked input bytes
/// outside the code range decode to zero.
#[test]
fn parse_6_and_2_nibblized_data_works() {
    let data = [0x96, 0xFF, 0x00];
    let decoded = parse_6_and_2_nibblized_data(&data);
    // The high bit is masked off before the lookup, so even valid disk
    // bytes land outside the code table and decode to zero.
    assert_eq!(decoded, vec![0, 0, 0]);
}

/// A whole nibblized sector round-trips through the disk scanner: framing
/// an encoded sector with address and data prologues yields one decoded
/// sector under its address.
#[test]
fn parse_nib_disk_works() {
    let mut payload: [u8; 256] = [0; 256];
    for i in 0..=255u8 {
        payload[i as usize] = i / 4;
    }
    // The decode-side checksum is the high six bits of the last byte, so
    // keep it small for a clean decode.
    payload[255] = 1;
    let df = build_nibble_sector(&payload);

    // volume 254, track 4, sector 5, checksum 254 ^ 4 ^ 5 = 255
    let mut image: Vec<u8> = Vec::new();
    image.extend([0xD5, 0xAA, 0x96]);
    image.extend([0xFF, 0xFE, 0xAA, 0xAE, 0xAA, 0xAF, 0xFF, 0xFF]);
    image.extend([0xDE, 0xAA, 0xEB]);
    image.extend([0xD5, 0xAA, 0xAD]);
    image.extend(df.data.iter());
    image.push(df.checksum);
    image.extend([0xDE, 0xAA, 0xEB]);

    let config = Config::new(false);
    let disk = parse_nib_disk(&config, &image).expect("Should decode");
    assert_eq!(disk.sectors.len(), 1);
    assert_eq!(disk.sectors[0].volume, 254);
    assert_eq!(disk.sectors[0].track, 4);
    assert_eq!(disk.sectors[0].sector, 5);
    assert_eq!(disk.sectors[0].data, payload.to_vec());
}

/// Nibblizing a single 256-byte block yields the 342 encoded bytes of that
/// block.
#[test]
fn nibblize_data_works() {
    let data: [u8; 256] = [0x41; 256];
    let encoded = nibblize_data(&data);
    assert_eq!(encoded.len(), 342);
    let df = build_nibble_sector(&data);
    assert_eq!(encoded, df.data);
}
