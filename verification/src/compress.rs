use std::io::Read;

use vstd::prelude::*;

verus! {

/// The zstd frame that holds `data`, compressed at `level`.
pub uninterp spec fn zstd_frame(data: Seq<u8>, level: i32) -> Seq<u8>;

/// What a zstd stream holds; none if it is damaged or cut off.
pub uninterp spec fn zstd_content(stream: Seq<u8>) -> Option<Seq<u8>>;

/// Where the compression of bytes failed.
#[derive(Debug)]
pub enum CompressFailure {
    /// There was no encoder.
    Create(std::io::Error),
    /// The bytes could not be compressed.
    Write(std::io::Error),
    /// The frame could not be ended.
    Finish(std::io::Error),
}

/// Compresses the bytes, by `zstd::Encoder`, `std::io::copy` and `zstd::Encoder::finish`.
///
/// Trusted: the frame is a function of the bytes and of the level, it is not empty, and
/// decompressing it gives the bytes back. With memory to spare this does not fail: an encoder takes
/// every level, and it writes to memory.
#[verifier::external_body]
pub(crate) fn zstd_compress(data: &[u8], level: i32) -> (frame: Result<Vec<u8>, CompressFailure>)
    ensures
        frame is Ok,
        frame matches Ok(f) ==> f@ == zstd_frame(data@, level) && zstd_content(f@) == Some(data@)
            && f@.len() > 0,
{
    let mut source = data;
    let mut encoder = zstd::Encoder::new(Vec::new(), level).map_err(CompressFailure::Create)?;
    std::io::copy(&mut source, &mut encoder).map_err(CompressFailure::Write)?;
    encoder.finish().map_err(CompressFailure::Finish)
}

/// Decompresses a zstd stream, by `zstd::Decoder`: what came out, and the failure where the end
/// was not reached. An error means that there was no decoder.
///
/// Trusted: there is always a decoder. Whether the end is reached, and what comes out then, is a
/// function of the stream. How much comes out of a damaged stream is left open: it depends on how
/// the decoder is read from.
#[verifier::external_body]
pub(crate) fn zstd_decompress(stream: &[u8]) -> (output: Result<
    (Vec<u8>, Option<std::io::Error>),
    std::io::Error,
>)
    ensures
        output is Ok,
        output matches Ok((data, failure)) ==> zstd_content(stream@) == if failure is None {
            Some(data@)
        } else {
            None
        },
{
    let mut data = Vec::new();
    let failure = zstd::Decoder::new(stream)?.read_to_end(&mut data).err();
    Ok((data, failure))
}

/// What a gzip stream holds; none if it is damaged or cut off.
pub uninterp spec fn gzip_content(stream: Seq<u8>) -> Option<Seq<u8>>;

/// Decompresses a gzip stream, by `flate2::read::MultiGzDecoder`: what came out, and the failure
/// where the end was not reached.
///
/// Trusted: whether the end is reached, and what comes out then, is a function of the stream. How
/// much comes out of a damaged stream is left open.
#[verifier::external_body]
pub(crate) fn gzip_decompress(stream: &[u8]) -> (output: (Vec<u8>, Option<std::io::Error>))
    ensures
        gzip_content(stream@) == if output.1 is None {
            Some(output.0@)
        } else {
            None
        },
{
    let mut data = Vec::new();
    let failure = flate2::read::MultiGzDecoder::new(stream).read_to_end(&mut data).err();
    (data, failure)
}

} // verus!
