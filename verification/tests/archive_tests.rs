use std::io::Read;

use buddhabrot::archive::read_bundle_data;
use buddhabrot::archive::write_bundle_archive;
use buddhabrot::codec::encode_bundle;
use buddhabrot::codec::BundleError;

#[test]
fn archive_round_trip() {
    let payload: Vec<u32> = vec![3, 1, 4, 1];
    let archive = write_bundle_archive(250, 2, 2, &payload).unwrap();
    let (width, height, max_iters, decoded) = read_bundle_data(&archive).unwrap();
    assert_eq!((width, height, max_iters), (2, 2, 250));
    assert_eq!(decoded, payload);
}

#[test]
fn archive_round_trip_all_zero() {
    let payload: Vec<u32> = vec![0; 4];
    let archive = write_bundle_archive(9, 4, 1, &payload).unwrap();
    let (width, height, max_iters, decoded) = read_bundle_data(&archive).unwrap();
    assert_eq!((width, height, max_iters), (4, 1, 9));
    assert_eq!(decoded, payload);
}

#[test]
fn archive_holds_single_compressed_entry() {
    let payload: Vec<u32> = vec![8, 6, 7, 5];
    let archive = write_bundle_archive(11, 2, 2, &payload).unwrap();
    let mut zip = zip::ZipArchive::new(std::io::Cursor::new(archive.as_slice())).unwrap();
    assert_eq!(zip.len(), 1);
    let mut entry = zip.by_name("data.bin").unwrap();
    let mut contents = Vec::new();
    entry.read_to_end(&mut contents).unwrap();
    assert_eq!(contents, encode_bundle(11, 2, 2, &payload));
}

#[test]
fn read_rejects_uncompressed_bytes() {
    // A bare bundle byte string is not an archive around one.
    let bytes = encode_bundle(5, 1, 1, &vec![1]);
    assert_eq!(read_bundle_data(&bytes), Err(BundleError::ArchiveRead));
}

#[test]
fn read_rejects_garbage() {
    let bytes: Vec<u8> = vec![0xde, 0xad, 0xbe, 0xef];
    assert_eq!(read_bundle_data(&bytes), Err(BundleError::ArchiveRead));
}

#[test]
fn read_rejects_crafted_encryption_marking() {
    // A hand-built archive holding one stored, empty `data.bin` whose
    // central directory carries a well-formed AES extra field (id 0x9901,
    // vendor AE, strength 1) while the encryption flag stays clear. Reading
    // it must return an error, not abort the process.
    let mut bytes: Vec<u8> = Vec::new();
    // Local file header: stored, no flags, empty contents.
    bytes.extend_from_slice(&[0x50, 0x4b, 0x03, 0x04, 0x14, 0x00, 0x00, 0x00, 0x00, 0x00]);
    bytes.extend_from_slice(&[0; 16]);
    bytes.extend_from_slice(&[8, 0, 0, 0]);
    bytes.extend_from_slice(b"data.bin");
    // Central directory entry for it, with the AES extra field appended.
    bytes.extend_from_slice(&[0x50, 0x4b, 0x01, 0x02, 0x14, 0x00, 0x14, 0x00, 0x00, 0x00]);
    bytes.extend_from_slice(&[0; 18]);
    bytes.extend_from_slice(&[8, 0, 11, 0, 0, 0, 0, 0, 0, 0]);
    bytes.extend_from_slice(&[0; 8]);
    bytes.extend_from_slice(b"data.bin");
    bytes.extend_from_slice(&[0x01, 0x99, 0x07, 0x00, 0x02, 0x00, 0x41, 0x45, 0x01, 0x00, 0x00]);
    // End of central directory: one entry, directory of 65 bytes at offset 38.
    bytes.extend_from_slice(&[0x50, 0x4b, 0x05, 0x06, 0, 0, 0, 0, 1, 0, 1, 0]);
    bytes.extend_from_slice(&[65, 0, 0, 0, 38, 0, 0, 0, 0, 0]);
    assert_eq!(read_bundle_data(&bytes), Err(BundleError::ArchiveRead));
}

#[test]
fn read_rejects_unreadable_compression_method() {
    // A hand-built archive whose `data.bin` is flagged encrypted with
    // method 99 (the AES method itself, inside the extra field too) and a
    // salt chosen so the empty password passes the two verification bytes
    // (0x27, 0xe9 for the all-zero salt). Building a decompression reader
    // for that method would abort; the read must return an error instead.
    let mut bytes: Vec<u8> = Vec::new();
    // Local file header: encrypted flag, method 99, 20 bytes of entry data.
    bytes.extend_from_slice(&[0x50, 0x4b, 0x03, 0x04, 0x14, 0x00, 0x01, 0x00, 0x63, 0x00]);
    bytes.extend_from_slice(&[0; 8]);
    bytes.extend_from_slice(&[20, 0, 0, 0, 0, 0, 0, 0, 8, 0, 0, 0]);
    bytes.extend_from_slice(b"data.bin");
    // Entry data: zero salt, the matching verification value, the code.
    bytes.extend_from_slice(&[0; 8]);
    bytes.extend_from_slice(&[0x27, 0xe9]);
    bytes.extend_from_slice(&[0; 10]);
    // Central directory entry, with the AES extra field naming method 99.
    bytes.extend_from_slice(&[0x50, 0x4b, 0x01, 0x02, 0x14, 0x00, 0x14, 0x00, 0x01, 0x00]);
    bytes.extend_from_slice(&[0x63, 0x00, 0, 0, 0, 0, 0, 0, 0, 0]);
    bytes.extend_from_slice(&[20, 0, 0, 0, 0, 0, 0, 0]);
    bytes.extend_from_slice(&[8, 0, 11, 0, 0, 0, 0, 0, 0, 0]);
    bytes.extend_from_slice(&[0; 8]);
    bytes.extend_from_slice(b"data.bin");
    bytes.extend_from_slice(&[0x01, 0x99, 0x07, 0x00, 0x02, 0x00, 0x41, 0x45, 0x01, 0x63, 0x00]);
    // End of central directory: one entry, directory of 65 bytes at offset 58.
    bytes.extend_from_slice(&[0x50, 0x4b, 0x05, 0x06, 0, 0, 0, 0, 1, 0, 1, 0]);
    bytes.extend_from_slice(&[65, 0, 0, 0, 58, 0, 0, 0, 0, 0]);
    assert_eq!(read_bundle_data(&bytes), Err(BundleError::ArchiveRead));
}
