//! Tests for the unified disk image interface.
use image_rider::apple::disk::{apple_disk_parser, AppleDiskGuess, Encoding, Format};
use image_rider::commodore::disk::CommodoreDiskGuess;
use image_rider::config::Config;
use image_rider::error::ErrorKind;
use image_rider::image::{
    disk_image_data, file_parser, format_from_filename_and_data, DiskImage, DiskImageGuess,
};
use image_rider::serialize::little_endian_word_to_bytes;

#[test]
fn image_format_from_filename_works() {
    let filename = "testdata/test-image_format_from_filename_works.dsk";
    let data: Vec<u8> = vec![0; 143360];

    let guess = format_from_filename_and_data(filename, &data).unwrap_or_else(|| {
        panic!("Invalid filename guess");
    });

    match guess {
        DiskImageGuess::Apple(g) => {
            assert_eq!(
                g,
                AppleDiskGuess::new(Encoding::Plain, Format::DOS33(143360), data)
            );
        }
        _ => panic!("Invalid filename guess"),
    }
}

/// A `d64` filename guesses a Commodore disk ahead of any Apple guess.
#[test]
fn image_format_from_filename_d64_works() {
    let data: Vec<u8> = vec![0; 16];
    match format_from_filename_and_data("disk.d64", &data) {
        Some(DiskImageGuess::Commodore(_)) => {}
        _ => panic!("Expected a Commodore guess"),
    }
}

/// Error kind constructor keeps the message.
#[test]
fn error_kind_new_works() {
    let ek1 = ErrorKind::new("Test1");
    let ek2 = ErrorKind::new("Test1");
    assert!(matches!(ek1, ErrorKind::Message(x) if x == "Test1"));
    assert!(matches!(ek2, ErrorKind::Message(x) if x == "Test1"));
}

#[test]
fn error_kind_not_found_works() {
    let ek = ErrorKind::NotFound(String::from("Test1"));
    assert!(matches!(ek, ErrorKind::NotFound(x) if x == "Test1"));
}

/// The little-endian serializer splits a word into its two bytes.
#[test]
fn little_endian_word_to_bytes_works() {
    assert_eq!(little_endian_word_to_bytes(0x1234), vec![0x34, 0x12]);
    assert_eq!(little_endian_word_to_bytes(0x00FF), vec![0xFF, 0x00]);
}

/// Parsing a file by name dispatches on the guessed format; a broken image
/// of a guessed format is an error.
#[test]
fn file_parser_dispatches() {
    let config = Config::new(false);
    let apple_data: Vec<u8> = vec![0; 143360];
    // An all-zero 140K image has no valid VTOC, so the Apple path errors.
    assert!(file_parser("disk.dsk", &apple_data, &config).is_err());
    // An all-zero D64-sized image has no BAM magic, so the D64 path errors.
    let d64_data: Vec<u8> = vec![0; 174848];
    assert!(file_parser("disk.d64", &d64_data, &config).is_err());
}

/// The flat payload of a non-STX image is nothing.
#[test]
fn disk_image_data_none_for_non_stx() {
    let mut data: Vec<u8> = vec![0; 0x16600 + 242];
    data[0x16500] = 0x12;
    data[0x16501] = 0x01;
    data[0x16502] = 0x41;
    data[0x165A5] = 0x32;
    data[0x165A6] = 0x41;
    let (disk, _) = image_rider::commodore::d64::d64_disk_parser(&data).expect("Should parse");
    assert!(disk_image_data(&DiskImage::D64(disk)).is_none());
}

/// Saving a D64 image is unimplemented; saving an Apple DOS image without a
/// selected filename is an error.
#[test]
fn save_disk_image_payload_errors() {
    let mut data: Vec<u8> = vec![0; 0x16600 + 242];
    data[0x16500] = 0x12;
    data[0x16501] = 0x01;
    data[0x16502] = 0x41;
    data[0x165A5] = 0x32;
    data[0x165A6] = 0x41;
    let (disk, _) = image_rider::commodore::d64::d64_disk_parser(&data).expect("Should parse");
    let image = DiskImage::D64(disk);
    match image.save_disk_image_payload(None) {
        Err(e) => assert!(matches!(e.kind, ErrorKind::Unimplemented(_))),
        Ok(_) => panic!("Should be unimplemented"),
    }
}

/// Selecting a file the catalog does not list is a not-found error, and
/// selecting nothing at all is an error of its own.
#[test]
fn save_apple_dos_payload_not_found() {

    let mut data: Vec<u8> = vec![0; 143360];
    // A minimal VTOC at track 17: catalog chain at (17, 2), 35 tracks of
    // 16 sectors of 256 bytes.
    let vtoc = 17 * 4096;
    data[vtoc + 1] = 0x11;
    data[vtoc + 2] = 0x02;
    data[vtoc + 52] = 35;
    data[vtoc + 53] = 16;
    data[vtoc + 55] = 0x01;

    let guess = AppleDiskGuess::new(Encoding::Plain, Format::DOS33(143360), data);
    let config = Config::new(false);
    let disk = apple_disk_parser(&guess, &config).expect("Should parse");
    let image = DiskImage::Apple(disk);

    match image.save_disk_image_payload(Some("MISSING")) {
        Err(e) => assert!(matches!(e.kind, ErrorKind::NotFound(_))),
        Ok(_) => panic!("Should be a missing file"),
    }
    match image.save_disk_image_payload(None) {
        Err(e) => assert!(matches!(e.kind, ErrorKind::Message(_))),
        Ok(_) => panic!("Should require a selected filename"),
    }
}

/// When no extension is recognised, the Apple DOS 3.3 magic bytes inside
/// the image identify it; without them there is no guess.
#[test]
fn image_format_from_magic_works() {
    let mut data: Vec<u8> = vec![0; 143360];
    let magic_number_start = [0x01, 0xA5, 0x27, 0xC9, 0x09, 0xD0, 0x18, 0xA5, 0x2B];
    let magic_number_vtoc = [0x11, 0x0F, 0x03];
    data[0..9].copy_from_slice(&magic_number_start);
    data[0x11001..0x11004].copy_from_slice(&magic_number_vtoc);

    match format_from_filename_and_data("image.rom", &data) {
        Some(DiskImageGuess::Apple(g)) => {
            assert_eq!(g.encoding, Encoding::Plain);
            assert_eq!(g.format, Format::DOS33(143360));
        }
        _ => panic!("Expected an Apple guess from the magic bytes"),
    }

    let plain: Vec<u8> = vec![0; 143360];
    assert!(format_from_filename_and_data("image.rom", &plain).is_none());
}

/// Parsing a Commodore guess through the guess-dispatch path is
/// unimplemented, with the exact message.
#[test]
fn parse_disk_image_from_commodore_guess_unimplemented() {
    let data: Vec<u8> = vec![0; 16];
    let guess = CommodoreDiskGuess::guess("disk.d64", &data).expect("Should guess");
    let config = Config::new(false);
    match DiskImageGuess::Commodore(guess).parse_disk_image(&config) {
        Err(e) => match e.kind {
            ErrorKind::Unimplemented(m) => assert_eq!(m, "Error parsing image from guess"),
            _ => panic!("Wrong error kind"),
        },
        Ok(_) => panic!("Should be unimplemented"),
    }
}
