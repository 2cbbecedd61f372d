//! The compressed archive around a bundle: a deflate-compressed archive
//! holding one entry named `data.bin`, written with the large-file flag so
//! snapshots past 4 GiB stay readable. The compression itself is the zip
//! crate's work; this module states only what an archive holds.

use crate::codec::encode_bundle;
use crate::codec::parse_bundle;
use crate::codec::spec_bundle_bytes;
use crate::codec::spec_parse_bundle;
use crate::codec::BundleError;
use std::io::Cursor;
use std::io::Read;
use std::io::Write;
use vstd::prelude::*;

verus! {

#[verifier::external_type_specification]
#[verifier::external_body]
pub struct ExZipError(zip::result::ZipError);

/// The bytes of the sole `data.bin` entry that a byte string holds when read
/// as a compressed archive; `None` where it holds no readable such entry.
pub uninterp spec fn archive_entry(bytes: Seq<u8>) -> Option<Seq<u8>>;

/// Relies on zip's ZipWriter protocol (new, start_file, write_all, finish):
/// an archive written with the sole entry `data.bin` holding `data` reads
/// back as exactly that entry. The write succeeds: the sink is an in-memory
/// cursor, whose writes cannot fail, and every other error branch on this
/// path concerns an option not used here.
#[verifier::external_body]
fn compress_archive(data: &Vec<u8>) -> (r: Result<Vec<u8>, zip::result::ZipError>)
    ensures
        r is Ok,
        r matches Ok(out) ==> archive_entry(out@) == Some(data@),
{
    let mut writer = zip::ZipWriter::new(Cursor::new(Vec::new()));
    let options = zip::write::FileOptions::default().compression_method(
        zip::CompressionMethod::Deflated,
    ).large_file(true);
    writer.start_file("data.bin", options)?;
    writer.write_all(data)?;
    Ok(writer.finish()?.into_inner())
}

/// Relies on zip's ZipArchive (new, by_name_decrypt, compression,
/// read_to_end): reading the `data.bin` entry of an in-memory archive is a
/// function of the archive's bytes alone, and succeeds exactly where such an
/// entry can be read whole. The lookup goes through by_name_decrypt because
/// by_name unwraps an internal invalid-password result and would abort the
/// process on an entry with a crafted encryption marking. Reading is
/// attempted only for the stored and deflated methods: for any other, zip's
/// reader construction aborts rather than failing, so such an entry — one
/// whose marking names the AES method itself included — is no readable entry.
#[verifier::external_body]
fn extract_archive(bytes: &Vec<u8>) -> (r: Option<Vec<u8>>)
    ensures
        r matches Some(entry) ==> archive_entry(bytes@) == Some(entry@),
        r is None ==> archive_entry(bytes@) is None,
{
    let mut archive = zip::ZipArchive::new(Cursor::new(bytes.as_slice())).ok()?;
    let mut entry = match archive.by_name_decrypt("data.bin", b"") {
        Ok(Ok(entry)) => entry,
        _ => return None,
    };
    match entry.compression() {
        zip::CompressionMethod::Stored | zip::CompressionMethod::Deflated => (),
        _ => return None,
    }
    let mut out = Vec::new();
    entry.read_to_end(&mut out).ok()?;
    Some(out)
}

/// What an archive decodes to as a bundle: its `data.bin` entry, parsed.
pub open spec fn spec_decode_archive(bytes: Seq<u8>) -> Result<
    (u32, u32, u32, Seq<u32>),
    BundleError,
> {
    match archive_entry(bytes) {
        Some(entry) => spec_parse_bundle(entry),
        None => Err(BundleError::ArchiveRead),
    }
}

/// A bundle decoded out of an archive has exactly one payload word per pixel.
pub proof fn lemma_decode_payload_len(bytes: Seq<u8>)
    ensures
        spec_decode_archive(bytes) matches Ok((width, height, max_iters, p)) ==> p.len() == width
            * height,
{
    match archive_entry(bytes) {
        Some(entry) => crate::codec::lemma_parse_payload_len(entry),
        None => (),
    }
}

/// Serialize one histogram snapshot and wrap it as a compressed archive.
pub fn write_bundle_archive(max_iters: u32, width: u32, height: u32, payload: &Vec<u32>) -> (r:
    Result<Vec<u8>, BundleError>)
    requires
        payload@.len() == width * height,
    ensures
        r is Ok,
        r matches Ok(out) ==> archive_entry(out@) == Some(
            spec_bundle_bytes(max_iters, width, height, payload@),
        ),
{
    let data = encode_bundle(max_iters, width, height, payload);
    match compress_archive(&data) {
        Ok(out) => Ok(out),
        Err(_) => Err(BundleError::ArchiveRead),
    }
}

/// Read one bundle out of an archive's bytes, as
/// (width, height, max_iters, payload).
pub fn read_bundle_data(bytes: &Vec<u8>) -> (r: Result<(u32, u32, u32, Vec<u32>), BundleError>)
    ensures
        match r {
            Ok((width, height, max_iters, payload)) => spec_decode_archive(bytes@) == Ok::<
                (u32, u32, u32, Seq<u32>),
                BundleError,
            >((width, height, max_iters, payload@)),
            Err(e) => spec_decode_archive(bytes@) == Err::<(u32, u32, u32, Seq<u32>), BundleError>(
                e,
            ),
        },
{
    let entry = match extract_archive(bytes) {
        Some(entry) => entry,
        None => {
            return Err(BundleError::ArchiveRead);
        },
    };
    parse_bundle(&entry)
}

/// Round trip through the archive layer: an archive whose entry is the
/// serialized form of a histogram decodes back to exactly that histogram.
pub proof fn lemma_archive_round_trip(
    bytes: Seq<u8>,
    max_iters: u32,
    width: u32,
    height: u32,
    p: Seq<u32>,
)
    requires
        p.len() == width * height,
        archive_entry(bytes) == Some(spec_bundle_bytes(max_iters, width, height, p)),
    ensures
        spec_decode_archive(bytes) == Ok::<(u32, u32, u32, Seq<u32>), BundleError>(
            (width, height, max_iters, p),
        ),
{
    crate::codec::lemma_bundle_round_trip(max_iters, width, height, p);
}

} // verus!
