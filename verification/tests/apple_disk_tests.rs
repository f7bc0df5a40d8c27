//! Tests for Apple disk-level parsing and format guessing.
use image_rider::apple::disk::{
    apple_disk_parser, format_from_data, format_from_filename_and_data,
    parse_volume_table_of_contents, AppleDiskData, AppleDiskGuess, Encoding, Format,
};
use image_rider::config::Config;

const VTOC_DATA: [u8; 256] = [
    0x00, 0x11, 0x0F, 0x03, 0x00, 0x00, 0xFE, 0x00, 0x00, 0x00, 0x00, 0x00, 0x00, 0x00, 0x00,
    0x00, 0x00, 0x00, 0x00, 0x00, 0x00, 0x00, 0x00, 0x00, 0x00, 0x00, 0x00, 0x00, 0x00, 0x00,
    0x00, 0x00, 0x00, 0x00, 0x00, 0x00, 0x00, 0x00, 0x00, 0x7A, 0x00, 0x00, 0x00, 0x00, 0x00,
    0x00, 0x00, 0x00, 0x12, 0x01, 0x00, 0x00, 0x23, 0x10, 0x00, 0x01, 0x00, 0x00, 0x00, 0x00,
    0x00, 0x00, 0x00, 0x00, 0x00, 0x00, 0x00, 0x00, 0xFF, 0xFF, 0x00, 0x00, 0xFF, 0xFF, 0x00,
    0x00, 0xFF, 0xFF, 0x00, 0x00, 0xFF, 0xFF, 0x00, 0x00, 0xFF, 0xFF, 0x00, 0x00, 0xFF, 0xFF,
    0x00, 0x00, 0xFF, 0xFF, 0x00, 0x00, 0xFF, 0xFF, 0x00, 0x00, 0xFF, 0xFF, 0x00, 0x00, 0xFF,
    0xFF, 0x00, 0x00, 0xFF, 0xFF, 0x00, 0x00, 0xFF, 0xFF, 0x00, 0x00, 0xFF, 0xFF, 0x00, 0x00,
    0xFF, 0xFF, 0x00, 0x00, 0x00, 0x00, 0x00, 0x00, 0x3F, 0xFF, 0x00, 0x00, 0xFF, 0xFF, 0x00,
    0x00, 0xFF, 0xFF, 0x00, 0x00, 0xFF, 0xFF, 0x00, 0x00, 0xFF, 0xFF, 0x00, 0x00, 0xFF, 0xFF,
    0x00, 0x00, 0xFF, 0xFF, 0x00, 0x00, 0xFF, 0xFF, 0x00, 0x00, 0xFF, 0xFF, 0x00, 0x00, 0xFF,
    0xFF, 0x00, 0x00, 0xFF, 0xFF, 0x00, 0x00, 0xFF, 0xFF, 0x00, 0x00, 0xFF, 0xFF, 0x00, 0x00,
    0xFF, 0xFF, 0x00, 0x00, 0xFF, 0xFF, 0x00, 0x00, 0xFF, 0xFF, 0x00, 0x00, 0xFF, 0xFF, 0x00,
    0x00, 0x00, 0x00, 0x00, 0x00, 0x00, 0x00, 0x00, 0x00, 0x00, 0x00, 0x00, 0x00, 0x00, 0x00,
    0x00, 0x00, 0x00, 0x00, 0x00, 0x00, 0x00, 0x00, 0x00, 0x00, 0x00, 0x00, 0x00, 0x00, 0x00,
    0x00, 0x00, 0x00, 0x00, 0x00, 0x00, 0x00, 0x00, 0x00, 0x00, 0x00, 0x00, 0x00, 0x00, 0x00,
    0x00, 0x00, 0x00, 0x00, 0x00, 0x00, 0x00, 0x00, 0x00, 0x00, 0x00, 0x00, 0x00, 0x00, 0x00,
    0x00,
];

#[test]
fn disk_format_from_filename_works() {
    let filename = "testdata/test-disk_format_from_filename_works.dsk";
    let data: Vec<u8> = vec![0; 143360];

    let guess = format_from_filename_and_data(filename, &data).unwrap_or_else(|| {
        panic!("Invalid filename guess");
    });

    assert_eq!(
        guess,
        AppleDiskGuess::new(Encoding::Plain, Format::DOS33(143360), data)
    );
}

/// The `nib` extension names a nibble image; the format is chosen by the
/// first prologue byte found in the data.
#[test]
fn nib_format_from_filename_works() {
    let mut data: Vec<u8> = vec![0; 64];
    data[10] = 0xD5;
    data[11] = 0xAA;
    data[12] = 0xB5;
    let guess = format_from_filename_and_data("image.NIB", &data).expect("Should guess");
    assert_eq!(guess.encoding, Encoding::Nibble);
    assert_eq!(guess.format, Format::DOS32(64));
}

/// An unknown extension yields no guess.
#[test]
fn unknown_format_from_filename_fails() {
    let data: Vec<u8> = vec![0; 16];
    assert!(format_from_filename_and_data("image.rom", &data).is_none());
}

#[test]
fn format_from_data_works() {
    let mut data: Vec<u8> = vec![0; 143360];
    let magic_number_start = [0x01, 0xA5, 0x27, 0xC9, 0x09, 0xD0, 0x18, 0xA5, 0x2B];
    let magic_number_vtoc = [0x11, 0x0F, 0x03];

    data[0..9].copy_from_slice(&magic_number_start);
    data[0x11001..0x11004].copy_from_slice(&magic_number_vtoc);

    let guess = format_from_data(&data)
        .expect("Data guess failed")
        .expect("Invalid data guess");
    assert_eq!(guess.encoding, Encoding::Plain);
    assert_eq!(guess.format, Format::DOS33(143360));
    assert_eq!(guess.data, data);
}

#[test]
fn format_from_data_fails() {
    let mut data: Vec<u8> = vec![0; 143360];
    let magic_number_start = [0x01, 0xA5, 0x27, 0xC9, 0x09, 0xD0, 0x18, 0xA5, 0x2B];
    data[0..9].copy_from_slice(&magic_number_start);

    let guess = format_from_data(&data).expect("Data guess failed");
    assert!(guess.is_none(), "Correct data guess for invalid DOS 3.3 data");
}

#[test]
fn parse_volume_table_of_contents_works() {
    let vtoc_data = VTOC_DATA;
    let (vtoc, _) = parse_volume_table_of_contents(&vtoc_data, 0).expect("Couldn't parse VTOC");
    assert_eq!(vtoc.track_number_of_first_catalog_sector, 17);
    assert_eq!(vtoc.sector_number_of_first_catalog_sector, 15);
    assert_eq!(vtoc.release_number_of_dos, 3);
    assert_eq!(vtoc.diskette_volume_number, 254);
    assert_eq!(vtoc.number_of_tracks_per_diskette, 35);
    assert_eq!(vtoc.number_of_sectors_per_track, 16);
    assert_eq!(vtoc.number_of_bytes_per_sector, 256);
    assert_eq!(vtoc.last_track_where_sectors_were_allocated, 18);
}

#[test]
fn apple_disk_parser_disk_works() {
    let mut data: Vec<u8> = Vec::new();
    let data_prefix: [u8; 0x11000] = [0; 0x11000];
    let data_vtoc = VTOC_DATA;
    let data_suffix: [u8; 0x11F00] = [0; 0x11F00];
    data.extend(data_prefix);
    data.extend(data_vtoc);
    data.extend(data_suffix);

    let guess = AppleDiskGuess::new(Encoding::Plain, Format::DOS33(143360), data);
    let config = Config::new(false);
    let disk = apple_disk_parser(&guess, &config).expect("This should have succeeded");

    match disk.data {
        AppleDiskData::DOS(apple_dos_disk) => {
            let vtoc = apple_dos_disk.volume_table_of_contents;
            assert_eq!(disk.encoding, Encoding::Plain);
            assert_eq!(disk.format, Format::DOS33(143360));
            assert_eq!(vtoc.track_number_of_first_catalog_sector, 17);
            assert_eq!(vtoc.sector_number_of_first_catalog_sector, 15);
            assert_eq!(vtoc.release_number_of_dos, 3);
            assert_eq!(vtoc.diskette_volume_number, 254);
            assert_eq!(vtoc.number_of_tracks_per_diskette, 35);
            assert_eq!(vtoc.number_of_sectors_per_track, 16);
            assert_eq!(vtoc.number_of_bytes_per_sector, 256);
            assert_eq!(vtoc.last_track_where_sectors_were_allocated, 18);
        }
        _ => panic!("Invalid format"),
    }
}

#[test]
fn apple_disk_parser_nonstandard_disk_panics() {
    let data: Vec<u8> = vec![0; 143360];
    let guess = AppleDiskGuess::new(Encoding::Plain, Format::DOS33(143360), data);
    let config = Config::new(false);
    let res = apple_disk_parser(&guess, &config);
    assert!(res.is_err(), "This should have failed parsing");
}

/// An image whose size does not match a 140K DOS 3.3 disk fails to parse.
#[test]
fn apple_disk_parser_wrong_size_fails() {
    let data: Vec<u8> = vec![0; 100];
    let guess = AppleDiskGuess::new(Encoding::Plain, Format::DOS33(100), data);
    let config = Config::new(false);
    assert!(apple_disk_parser(&guess, &config).is_err());
}
