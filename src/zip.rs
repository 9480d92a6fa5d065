use vstd::prelude::*;

use std::io::{Read, Write};

verus! {

/// The three stream formats that the codec speaks.
#[derive(Clone, Copy, Debug, PartialEq, Eq, Structural)]
pub enum CompressionFormat {
    Gzip,
    Zlib,
    Raw,
}

impl CompressionFormat {
    /// Reads the numeric format code used at the flat boundary.
    pub fn from_code(code: i32) -> (r: Option<CompressionFormat>)
        ensures
            code == 0 <==> r == Some(CompressionFormat::Gzip),
            code == 1 <==> r == Some(CompressionFormat::Zlib),
            code == 2 <==> r == Some(CompressionFormat::Raw),
            r is None <==> !(0 <= code <= 2),
    {
        match code {
            0 => Some(CompressionFormat::Gzip),
            1 => Some(CompressionFormat::Zlib),
            2 => Some(CompressionFormat::Raw),
            _ => None,
        }
    }
}

/// The gzip stream that flate2 writes for `data` at the default level.
pub uninterp spec fn gzip_of(data: Seq<u8>) -> Seq<u8>;

/// The zlib stream that flate2 writes for `data` at the default level.
pub uninterp spec fn zlib_of(data: Seq<u8>) -> Seq<u8>;

/// The raw deflate stream that flate2 writes for `data` at the default level.
pub uninterp spec fn deflate_of(data: Seq<u8>) -> Seq<u8>;

/// What the gzip stream `data` inflates to, or `None` when it is malformed.
pub uninterp spec fn gunzip_of(data: Seq<u8>) -> Option<Seq<u8>>;

/// What the zlib stream `data` inflates to, or `None` when it is malformed.
pub uninterp spec fn unzlib_of(data: Seq<u8>) -> Option<Seq<u8>>;

/// What the raw deflate stream `data` inflates to, or `None` when it is
/// malformed.
pub uninterp spec fn inflate_of(data: Seq<u8>) -> Option<Seq<u8>>;

/// The stream `compress` writes for `data` in `format`.
pub open spec fn compressed(format: CompressionFormat, data: Seq<u8>) -> Seq<u8> {
    match format {
        CompressionFormat::Gzip => gzip_of(data),
        CompressionFormat::Zlib => zlib_of(data),
        CompressionFormat::Raw => deflate_of(data),
    }
}

/// What `decompress` reads from the stream `data` in `format`.
pub open spec fn decompressed(format: CompressionFormat, data: Seq<u8>) -> Option<Seq<u8>> {
    match format {
        CompressionFormat::Gzip => gunzip_of(data),
        CompressionFormat::Zlib => unzlib_of(data),
        CompressionFormat::Raw => inflate_of(data),
    }
}

/// Relies on flate2's write::GzEncoder over a Vec at the default level:
/// writing into a Vec never fails, and write_all then finish give the whole
/// gzip stream, which starts with the gzip magic bytes and which a
/// GzDecoder reads back to the input.
#[verifier::external_body]
fn gzip_encode(data: &[u8]) -> (r: Result<Vec<u8>, String>)
    ensures
        r is Ok,
        r matches Ok(v) ==> v@ == gzip_of(data@) && gunzip_of(v@) == Some(data@),
        r matches Ok(v) ==> v@.len() >= 2 && v@[0] == 0x1f && v@[1] == 0x8b,
{
    let mut e = flate2::write::GzEncoder::new(Vec::new(), flate2::Compression::default());
    match e.write_all(data) {
        Ok(()) => e.finish().map_err(|err| err.to_string()),
        Err(err) => Err(err.to_string()),
    }
}

/// Relies on flate2's write::ZlibEncoder over a Vec at the default level:
/// writing into a Vec never fails, and write_all then finish give the whole
/// zlib stream, never empty, which a ZlibDecoder reads back to the input.
#[verifier::external_body]
fn zlib_encode(data: &[u8]) -> (r: Result<Vec<u8>, String>)
    ensures
        r is Ok,
        r matches Ok(v) ==> v@ == zlib_of(data@) && unzlib_of(v@) == Some(data@),
        r matches Ok(v) ==> v@.len() > 0,
{
    let mut e = flate2::write::ZlibEncoder::new(Vec::new(), flate2::Compression::default());
    match e.write_all(data) {
        Ok(()) => e.finish().map_err(|err| err.to_string()),
        Err(err) => Err(err.to_string()),
    }
}

/// Relies on flate2's write::DeflateEncoder over a Vec at the default level:
/// writing into a Vec never fails, and write_all then finish give the whole
/// raw deflate stream, never empty (it ends with a final block), which a
/// DeflateDecoder reads back to the input.
#[verifier::external_body]
fn deflate_encode(data: &[u8]) -> (r: Result<Vec<u8>, String>)
    ensures
        r is Ok,
        r matches Ok(v) ==> v@ == deflate_of(data@) && inflate_of(v@) == Some(data@),
        r matches Ok(v) ==> v@.len() > 0,
{
    let mut e = flate2::write::DeflateEncoder::new(Vec::new(), flate2::Compression::default());
    match e.write_all(data) {
        Ok(()) => e.finish().map_err(|err| err.to_string()),
        Err(err) => Err(err.to_string()),
    }
}

/// Relies on flate2's bufread::GzDecoder: read_to_end inflates the stream.
#[verifier::external_body]
fn gzip_decode(data: &[u8]) -> (r: Result<Vec<u8>, String>)
    ensures
        r is Ok <==> gunzip_of(data@) is Some,
        r matches Ok(v) ==> gunzip_of(data@) == Some(v@),
{
    let mut out = Vec::new();
    match flate2::bufread::GzDecoder::new(data).read_to_end(&mut out) {
        Ok(_) => Ok(out),
        Err(err) => Err(err.to_string()),
    }
}

/// Relies on flate2's bufread::ZlibDecoder: read_to_end inflates the stream.
#[verifier::external_body]
fn zlib_decode(data: &[u8]) -> (r: Result<Vec<u8>, String>)
    ensures
        r is Ok <==> unzlib_of(data@) is Some,
        r matches Ok(v) ==> unzlib_of(data@) == Some(v@),
{
    let mut out = Vec::new();
    match flate2::bufread::ZlibDecoder::new(data).read_to_end(&mut out) {
        Ok(_) => Ok(out),
        Err(err) => Err(err.to_string()),
    }
}

/// Relies on flate2's bufread::DeflateDecoder: read_to_end inflates the
/// stream.
#[verifier::external_body]
fn deflate_decode(data: &[u8]) -> (r: Result<Vec<u8>, String>)
    ensures
        r is Ok <==> inflate_of(data@) is Some,
        r matches Ok(v) ==> inflate_of(data@) == Some(v@),
{
    let mut out = Vec::new();
    match flate2::bufread::DeflateDecoder::new(data).read_to_end(&mut out) {
        Ok(_) => Ok(out),
        Err(err) => Err(err.to_string()),
    }
}

/// Compresses `data` into a stream of `format`; this always succeeds.
/// Decompressing the result in the same format gives `data` back, the empty
/// input included; the stream is never empty, and a gzip stream starts with
/// the gzip magic bytes.
pub fn compress(data: &[u8], format: CompressionFormat) -> (r: Result<Vec<u8>, String>)
    ensures
        r is Ok,
        r matches Ok(v) ==> v@.len() > 0,
        r matches Ok(v) ==> format == CompressionFormat::Gzip ==> v@[0] == 0x1f && v@[1] == 0x8b,
        r matches Ok(v) ==> v@ == compressed(format, data@) && decompressed(format, v@) == Some(
            data@,
        ),
{
    match format {
        CompressionFormat::Gzip => gzip_encode(data),
        CompressionFormat::Zlib => zlib_encode(data),
        CompressionFormat::Raw => deflate_encode(data),
    }
}

/// Decompresses the stream `data` of `format`; fails, with the codec's
/// error text, exactly when the stream is malformed.
pub fn decompress(data: &[u8], format: CompressionFormat) -> (r: Result<Vec<u8>, String>)
    ensures
        r is Ok <==> decompressed(format, data@) is Some,
        r matches Ok(v) ==> decompressed(format, data@) == Some(v@),
{
    match format {
        CompressionFormat::Gzip => gzip_decode(data),
        CompressionFormat::Zlib => zlib_decode(data),
        CompressionFormat::Raw => deflate_decode(data),
    }
}

} // verus!
