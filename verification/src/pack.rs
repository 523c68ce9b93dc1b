//! Compressed regions: the two stream compressors, behind calls from bytes
//! to bytes.

use crate::error::{io_error_at_end, DeserializeError, ReadFault, SerializeError};
use crate::reader::WrapRead;
use std::io::{Read, Write};
use vstd::prelude::*;

verus! {

/// The zlib stream that the compressor makes of `data` at its default
/// level, or nothing where it fails.
pub uninterp spec fn zlib_stream(data: Seq<u8>) -> Option<Seq<u8>>;

/// What the zlib decompressor makes of `input`: the content of the stream
/// at its front and the number of bytes of that stream; or, where it fails,
/// whether it failed because the input ended.
pub uninterp spec fn zlib_content(input: Seq<u8>) -> Result<(Seq<u8>, nat), bool>;

/// The zstd frame that the compressor makes of `data` at its default level,
/// or nothing where it fails.
pub uninterp spec fn zstd_frame(data: Seq<u8>) -> Option<Seq<u8>>;

/// What the zstd decompressor makes of `input`: the content of the frame at
/// its front and the number of bytes of that frame; or, where it fails,
/// whether it failed because the input ended.
pub uninterp spec fn zstd_content(input: Seq<u8>) -> Result<(Seq<u8>, nat), bool>;

/// `flate2::write::ZlibEncoder` over a vector, at `Compression::default()`:
/// `new`, std's `write_all`, then `finish`. The contract only gives the
/// outcome a name.
#[verifier::external_body]
pub(crate) fn zlib_pack(data: &[u8]) -> (r: Result<Vec<u8>, std::io::Error>)
    ensures
        match r {
            Ok(v) => zlib_stream(data@) == Some(v@),
            Err(_) => zlib_stream(data@) is None,
        },
{
    let mut encoder = flate2::write::ZlibEncoder::new(Vec::new(), flate2::Compression::default());
    encoder.write_all(data)?;
    encoder.finish()
}

/// `flate2::bufread::ZlibDecoder` over the bytes: `new`, std's
/// `read_to_end`, then `into_inner`, which hands back the bytes that the
/// decoder did not consume. The contract gives the outcome a name and says
/// that what is handed back is no longer than the input.
#[verifier::external_body]
pub(crate) fn zlib_unpack<'a>(input: &'a [u8]) -> (r: Result<(Vec<u8>, &'a [u8]), std::io::Error>)
    ensures
        match r {
            Ok((v, rest)) => rest@.len() <= input@.len() && zlib_content(input@) == Ok::<
                (Seq<u8>, nat),
                bool,
            >((v@, (input@.len() - rest@.len()) as nat)),
            Err(e) => zlib_content(input@) == Err::<(Seq<u8>, nat), bool>(io_error_at_end(e)),
        },
{
    let mut decoder = flate2::bufread::ZlibDecoder::new(input);
    let mut out = Vec::new();
    decoder.read_to_end(&mut out)?;
    Ok((out, decoder.into_inner()))
}

/// `zstd::stream::write::Encoder` over a vector, at level 0: `new`, std's
/// `write_all`, then `finish`. The contract only gives the outcome a name.
#[verifier::external_body]
pub(crate) fn zstd_pack(data: &[u8]) -> (r: Result<Vec<u8>, std::io::Error>)
    ensures
        match r {
            Ok(v) => zstd_frame(data@) == Some(v@),
            Err(_) => zstd_frame(data@) is None,
        },
{
    let mut encoder = zstd::stream::write::Encoder::new(Vec::new(), 0)?;
    encoder.write_all(data)?;
    encoder.finish()
}

/// `zstd::stream::read::Decoder` over the bytes, set to stop after one
/// frame: `with_buffer`, `single_frame`, std's `read_to_end`, then
/// `into_inner`, which hands back the bytes that the decoder did not
/// consume. The contract gives the outcome a name and says that what is
/// handed back is no longer than the input.
#[verifier::external_body]
pub(crate) fn zstd_unpack<'a>(input: &'a [u8]) -> (r: Result<(Vec<u8>, &'a [u8]), std::io::Error>)
    ensures
        match r {
            Ok((v, rest)) => rest@.len() <= input@.len() && zstd_content(input@) == Ok::<
                (Seq<u8>, nat),
                bool,
            >((v@, (input@.len() - rest@.len()) as nat)),
            Err(e) => zstd_content(input@) == Err::<(Seq<u8>, nat), bool>(io_error_at_end(e)),
        },
{
    let mut decoder = zstd::stream::read::Decoder::with_buffer(input)?.single_frame();
    let mut out = Vec::new();
    decoder.read_to_end(&mut out)?;
    Ok((out, decoder.into_inner()))
}

/// The bytes of `body` after the compressors that are asked for: zlib
/// first, zstd around it. Nothing where one of them fails.
pub open spec fn packed(zlib: bool, zstd: bool, body: Seq<u8>) -> Option<Seq<u8>> {
    let first = if zlib {
        zlib_stream(body)
    } else {
        Some(body)
    };
    match first {
        None => None,
        Some(b) => if zstd {
            zstd_frame(b)
        } else {
            Some(b)
        },
    }
}

/// Compresses `body` as asked: with zlib, then with zstd around it. A
/// compressor that fails ends the call with its error.
pub fn pack(zlib: bool, zstd: bool, body: Vec<u8>) -> (r: Result<Vec<u8>, SerializeError>)
    ensures
        match r {
            Ok(v) => packed(zlib, zstd, body@) == Some(v@),
            Err(e) => packed(zlib, zstd, body@) is None && e@ == crate::error::WriteFault::Io,
        },
{
    let first = if zlib {
        match zlib_pack(body.as_slice()) {
            Ok(v) => v,
            Err(e) => {
                return Err(SerializeError::IoError(e));
            },
        }
    } else {
        body
    };
    if zstd {
        match zstd_pack(first.as_slice()) {
            Ok(v) => Ok(v),
            Err(e) => Err(SerializeError::IoError(e)),
        }
    } else {
        Ok(first)
    }
}

/// The fault of a decompressor that failed.
pub open spec fn stream_fault(at_end: bool) -> ReadFault {
    if at_end {
        ReadFault::UnexpectedEof
    } else {
        ReadFault::Io
    }
}

/// What is found inside the compressed region at the front of `input`,
/// zstd outermost, and the number of bytes of the region; or the fault of
/// the decompressor that failed.
pub open spec fn unpacked(zlib: bool, zstd: bool, input: Seq<u8>) -> Result<
    (Seq<u8>, nat),
    ReadFault,
> {
    if zstd {
        match zstd_content(input) {
            Err(at_end) => Err(stream_fault(at_end)),
            Ok((plain, used)) => if zlib {
                match zlib_content(plain) {
                    Err(at_end) => Err(stream_fault(at_end)),
                    Ok((inner, _)) => Ok((inner, used)),
                }
            } else {
                Ok((plain, used))
            },
        }
    } else if zlib {
        match zlib_content(input) {
            Err(at_end) => Err(stream_fault(at_end)),
            Ok((plain, used)) => Ok((plain, used)),
        }
    } else {
        Ok((input, 0))
    }
}

/// Decompresses the region at the front of `reader` and passes over it.
/// Where a decompressor fails, the reader is drained: an error because the
/// input ended is `UnexpectedEof`, every other one is carried along. Where
/// no compressor is asked for, the bytes that are left are handed out as
/// they are and the reader does not move.
pub fn unpack(zlib: bool, zstd: bool, reader: &mut WrapRead) -> (r: Result<
    Vec<u8>,
    DeserializeError,
>)
    ensures
        match r {
            Ok(v) => unpacked(zlib, zstd, old(reader)@) matches Ok((plain, used)) && plain == v@
                && used <= old(reader)@.len() && final(reader)@ == old(reader)@.skip(used as int),
            Err(e) => unpacked(zlib, zstd, old(reader)@) == Err::<(Seq<u8>, nat), ReadFault>(e@)
                && final(reader)@.len() == 0,
        },
{
    let input = reader.read_to_end();
    let whole = WrapRead::new(input);
    if zstd {
        match zstd_unpack(input) {
            Err(e) => Err(DeserializeError::from(e)),
            Ok((plain, rest)) => {
                if zlib {
                    match zlib_unpack(plain.as_slice()) {
                        Err(e) => Err(DeserializeError::from(e)),
                        Ok((inner, _)) => {
                            *reader = whole;
                            reader.advance(input.len() - rest.len());
                            Ok(inner)
                        },
                    }
                } else {
                    *reader = whole;
                    reader.advance(input.len() - rest.len());
                    Ok(plain)
                }
            },
        }
    } else if zlib {
        match zlib_unpack(input) {
            Err(e) => Err(DeserializeError::from(e)),
            Ok((plain, rest)) => {
                *reader = whole;
                reader.advance(input.len() - rest.len());
                Ok(plain)
            },
        }
    } else {
        *reader = whole;
        assert(input@.skip(0) == input@);
        Ok(vstd::slice::slice_to_vec(input))
    }
}

} // verus!
