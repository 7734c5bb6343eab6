//! The compressors: gzip, bzip2 and xz.
//!
//! The algorithms live in the `flate2`, `bzip2` and `xz2` crates. Nothing in
//! this module is proved about them. What their encoders and decoders return
//! is given a name, and the functions at the top of the module state what
//! this crate takes for granted about each call.

use std::io::Read;
use std::io::Write;
use vstd::prelude::*;
use crate::error::Error;
use crate::format::CompressionFormat;

verus! {

/// `std::io::Error`, as the encoders and decoders hand it out. It is passed
/// on as it is; nothing is known of what it holds.
#[verifier::external_type_specification]
#[verifier::external_body]
pub struct ExIoError(std::io::Error);

/// The gzip stream that `flate2` writes for `data` at its default level,
/// if it writes one.
pub uninterp spec fn gzip_encoded(data: Seq<u8>) -> Option<Seq<u8>>;

/// The data that `flate2` reads out of a gzip stream, if it accepts the stream.
pub uninterp spec fn gzip_decoded(stream: Seq<u8>) -> Option<Seq<u8>>;

/// The bzip2 stream that `bzip2` writes for `data` at its default level,
/// if it writes one.
pub uninterp spec fn bzip_encoded(data: Seq<u8>) -> Option<Seq<u8>>;

/// The data that `bzip2` reads out of a bzip2 stream, if it accepts the stream.
pub uninterp spec fn bzip_decoded(stream: Seq<u8>) -> Option<Seq<u8>>;

/// The xz stream that `xz2` writes for `data` at the preset `level`, if it
/// writes one.
pub uninterp spec fn xz_encoded(data: Seq<u8>, level: u32) -> Option<Seq<u8>>;

/// The data that `xz2` reads out of an xz stream, if it accepts the stream.
pub uninterp spec fn xz_decoded(stream: Seq<u8>) -> Option<Seq<u8>>;

/// The preset at which xz streams are written.
pub const XZ_LEVEL: u32 = 6;

/// Runs `flate2::write::GzEncoder` over `data`, at `flate2::Compression::default()`
/// and into memory. Trusted: whether a stream is written, and which, depends
/// on `data` alone, and
/// `flate2::read::GzDecoder` reads `data` back out of it.
#[verifier::external_body]
fn gzip_encode(data: &Vec<u8>) -> (outcome: Result<Vec<u8>, std::io::Error>)
    ensures
        gzip_encoded(data@) == match outcome {
            Ok(stream) => Some(stream@),
            Err(_) => None,
        },
        outcome matches Ok(stream) ==> gzip_decoded(stream@) == Some(data@),
{
    let mut encoder = flate2::write::GzEncoder::new(Vec::new(), flate2::Compression::default());
    encoder.write_all(data)?;
    encoder.finish()
}

/// Reads `stream` to its end through `flate2::read::GzDecoder`. Trusted:
/// whether the stream is accepted, and what comes out, depends on `stream`
/// alone.
#[verifier::external_body]
fn gzip_decode(stream: &Vec<u8>) -> (outcome: Result<Vec<u8>, std::io::Error>)
    ensures
        gzip_decoded(stream@) == match outcome {
            Ok(data) => Some(data@),
            Err(_) => None,
        },
{
    let mut data = Vec::new();
    flate2::read::GzDecoder::new(stream.as_slice()).read_to_end(&mut data)?;
    Ok(data)
}

/// Runs `bzip2::write::BzEncoder` over `data`, at `bzip2::Compression::default()`
/// and into memory. Trusted: whether a stream is written, and which, depends
/// on `data` alone, and
/// `bzip2::read::BzDecoder` reads `data` back out of it.
#[verifier::external_body]
fn bzip_encode(data: &Vec<u8>) -> (outcome: Result<Vec<u8>, std::io::Error>)
    ensures
        bzip_encoded(data@) == match outcome {
            Ok(stream) => Some(stream@),
            Err(_) => None,
        },
        outcome matches Ok(stream) ==> bzip_decoded(stream@) == Some(data@),
{
    let mut encoder = bzip2::write::BzEncoder::new(Vec::new(), bzip2::Compression::default());
    encoder.write_all(data)?;
    encoder.finish()
}

/// Reads `stream` to its end through `bzip2::read::BzDecoder`. Trusted:
/// whether the stream is accepted, and what comes out, depends on `stream`
/// alone.
#[verifier::external_body]
fn bzip_decode(stream: &Vec<u8>) -> (outcome: Result<Vec<u8>, std::io::Error>)
    ensures
        bzip_decoded(stream@) == match outcome {
            Ok(data) => Some(data@),
            Err(_) => None,
        },
{
    let mut data = Vec::new();
    bzip2::read::BzDecoder::new(stream.as_slice()).read_to_end(&mut data)?;
    Ok(data)
}

/// Runs `xz2::write::XzEncoder` over `data`, at the preset `level` and into
/// memory. The encoder panics on a preset that liblzma does not know; the
/// presets are 0 to 9. Trusted: whether a stream is written, and which,
/// depends on `data` and `level` alone, and `xz2::read::XzDecoder` reads
/// `data` back out of it.
#[verifier::external_body]
fn xz_encode(data: &Vec<u8>, level: u32) -> (outcome: Result<Vec<u8>, std::io::Error>)
    requires
        level <= 9,
    ensures
        xz_encoded(data@, level) == match outcome {
            Ok(stream) => Some(stream@),
            Err(_) => None,
        },
        outcome matches Ok(stream) ==> xz_decoded(stream@) == Some(data@),
{
    let mut encoder = xz2::write::XzEncoder::new(Vec::new(), level);
    encoder.write_all(data)?;
    encoder.finish()
}

/// Reads `stream` to its end through `xz2::read::XzDecoder`. Trusted: whether
/// the stream is accepted, and what comes out, depends on `stream` alone.
#[verifier::external_body]
fn xz_decode(stream: &Vec<u8>) -> (outcome: Result<Vec<u8>, std::io::Error>)
    ensures
        xz_decoded(stream@) == match outcome {
            Ok(data) => Some(data@),
            Err(_) => None,
        },
{
    let mut data = Vec::new();
    xz2::read::XzDecoder::new(stream.as_slice()).read_to_end(&mut data)?;
    Ok(data)
}

/// `to_string` of a `std::io::Error`: the text that the error displays.
/// Nothing is claimed of the text.
#[verifier::external_body]
pub(crate) fn io_error_text(error: &std::io::Error) -> String {
    error.to_string()
}

/// What one compressor makes of `data`, if it makes anything of it. A
/// bundler is no compressor and leaves the data as it is.
pub open spec fn layer_encoded(format: CompressionFormat, data: Seq<u8>) -> Option<Seq<u8>> {
    match format {
        CompressionFormat::Gzip => gzip_encoded(data),
        CompressionFormat::Bzip => bzip_encoded(data),
        CompressionFormat::Lzma => xz_encoded(data, XZ_LEVEL),
        CompressionFormat::Tar | CompressionFormat::Zip => Some(data),
    }
}

/// What one compressor reads out of `stream`, if it accepts it.
pub open spec fn layer_decoded(format: CompressionFormat, stream: Seq<u8>) -> Option<Seq<u8>> {
    match format {
        CompressionFormat::Gzip => gzip_decoded(stream),
        CompressionFormat::Bzip => bzip_decoded(stream),
        CompressionFormat::Lzma => xz_decoded(stream),
        CompressionFormat::Tar | CompressionFormat::Zip => Some(stream),
    }
}

/// What a call that writes handed back, as this crate reports it: the
/// value, or the failure as an `IoError`.
pub fn written_or_error<T>(outcome: Result<T, std::io::Error>) -> (result: Result<T, Error>)
    ensures
        match outcome {
            Ok(value) => result == Ok::<T, Error>(value),
            Err(_) => result matches Err(Error::IoError { .. }),
        },
{
    match outcome {
        Ok(value) => Ok(value),
        Err(error) => Err(Error::IoError { reason: io_error_text(&error) }),
    }
}

/// What a decoder handed back, as this crate reports it: the data, or the
/// failure as a `CorruptOrUnreadableArchive` that names the format.
pub fn decoded_or_error(
    format: CompressionFormat,
    outcome: Result<Vec<u8>, std::io::Error>,
) -> (result: Result<Vec<u8>, Error>)
    ensures
        match outcome {
            Ok(data) => result == Ok::<Vec<u8>, Error>(data),
            Err(_) => result matches Err(error) && error.is_corrupt(format),
        },
{
    match outcome {
        Ok(data) => Ok(data),
        Err(error) => Err(
            Error::CorruptOrUnreadableArchive { format, reason: io_error_text(&error) },
        ),
    }
}

/// Sends `data` through the compressor `format`. Where the compressor
/// writes no stream, that is reported as an `IoError`.
pub fn encode_layer(format: CompressionFormat, data: &Vec<u8>) -> (result: Result<Vec<u8>, Error>)
    requires
        !format.bundles(),
    ensures
        match layer_encoded(format, data@) {
            Some(stream) => result matches Ok(written) && written@ == stream && layer_decoded(
                format,
                stream,
            ) == Some(data@),
            None => result matches Err(error) && error is IoError,
        },
{
    match format {
        CompressionFormat::Gzip => written_or_error(gzip_encode(data)),
        CompressionFormat::Bzip => written_or_error(bzip_encode(data)),
        _ => written_or_error(xz_encode(data, XZ_LEVEL)),
    }
}

/// Reads the data out of a stream that the compressor `format` wrote.
pub fn decode_layer(format: CompressionFormat, stream: &Vec<u8>) -> (result: Result<Vec<u8>, Error>)
    requires
        !format.bundles(),
    ensures
        match result {
            Ok(data) => layer_decoded(format, stream@) == Some(data@),
            Err(error) => layer_decoded(format, stream@) is None && error.is_corrupt(format),
        },
{
    match format {
        CompressionFormat::Gzip => decoded_or_error(format, gzip_decode(stream)),
        CompressionFormat::Bzip => decoded_or_error(format, bzip_decode(stream)),
        _ => decoded_or_error(format, xz_decode(stream)),
    }
}

} // verus!
