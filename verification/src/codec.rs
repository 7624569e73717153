use vstd::prelude::*;

use crate::bytes::be_u32;
use crate::bytes::copy_range;
use crate::bytes::read_be_u32;
use crate::error::CompressionUnsupported;
use crate::error::ParseError;
use crate::error::RuneFsError;
use crate::error::ValidateError;

verus! {

/// Format tag of an uncompressed payload.
pub const FORMAT_NONE: u8 = 0;

/// Format tag of a bzip2-compressed payload, stored without its stream magic.
pub const FORMAT_BZIP2: u8 = 1;

/// Format tag of a gzip-compressed payload.
pub const FORMAT_GZIP: u8 = 2;

/// Bytes that bzip2 decompression yields for the stream `s`, or `None` when
/// `s` is not a complete well-formed bzip2 stream.
pub uninterp spec fn bunzip_of(s: Seq<u8>) -> Option<Seq<u8>>;

/// Bytes that gzip decompression yields for the stream `s`, or `None` when
/// `s` is not a complete well-formed gzip stream.
pub uninterp spec fn gunzip_of(s: Seq<u8>) -> Option<Seq<u8>>;

/// The CRC-32 checksum of `s`.
pub uninterp spec fn crc32_of(s: Seq<u8>) -> u32;

/// Relies on bzip2's `BzDecoder`: decompresses one complete bzip2 stream read
/// from a byte slice; the outcome depends on the input bytes alone.
#[verifier::external_body]
fn bunzip(data: &[u8]) -> (r: Result<Vec<u8>, std::io::Error>)
    ensures
        r is Ok <==> bunzip_of(data@) is Some,
        r matches Ok(v) ==> Some(v@) == bunzip_of(data@),
{
    let mut out = Vec::new();
    let mut dec = bzip2::read::BzDecoder::new(data);
    match std::io::Read::read_to_end(&mut dec, &mut out) {
        Ok(_) => Ok(out),
        Err(e) => Err(e),
    }
}

/// Relies on flate2's `GzDecoder`: decompresses one complete gzip stream read
/// from a byte slice; the outcome depends on the input bytes alone.
#[verifier::external_body]
fn gunzip(data: &[u8]) -> (r: Result<Vec<u8>, std::io::Error>)
    ensures
        r is Ok <==> gunzip_of(data@) is Some,
        r matches Ok(v) ==> Some(v@) == gunzip_of(data@),
{
    let mut out = Vec::new();
    let mut dec = flate2::read::GzDecoder::new(data);
    match std::io::Read::read_to_end(&mut dec, &mut out) {
        Ok(_) => Ok(out),
        Err(e) => Err(e),
    }
}

/// Relies on `crc32fast::hash`: the CRC-32 checksum of the bytes, which
/// depends on them alone.
#[verifier::external_body]
fn crc32(data: &[u8]) -> (r: u32)
    ensures
        r == crc32_of(data@),
{
    crc32fast::hash(data)
}

/// The four magic bytes `BZh1` that open a bzip2 stream; stored payloads omit
/// them and the codec restores them before decompressing.
pub open spec fn bzip_magic() -> Seq<u8> {
    seq![66u8, 90u8, 104u8, 49u8]
}

/// The format tag of the buffer.
pub open spec fn codec_tag(s: Seq<u8>) -> u8 {
    s[0]
}

/// The declared compressed-body length of the buffer.
pub open spec fn codec_clen(s: Seq<u8>) -> int {
    be_u32(s, 1)
}

/// The declared decompressed length of a compressed buffer.
pub open spec fn codec_dlen(s: Seq<u8>) -> int {
    be_u32(s, 5)
}

/// Whether the buffer is long enough to hold its header and declared body.
pub open spec fn codec_header_wf(s: Seq<u8>) -> bool {
    &&& s.len() >= 5
    &&& (codec_tag(s) == 0 ==> s.len() >= 5 + codec_clen(s))
    &&& (codec_tag(s) != 0 ==> s.len() >= 9 + codec_clen(s))
}

/// The declared compressed body bytes of the buffer.
pub open spec fn codec_body(s: Seq<u8>) -> Seq<u8> {
    if codec_tag(s) == 0 {
        s.subrange(5, 5 + codec_clen(s))
    } else {
        s.subrange(9, 9 + codec_clen(s))
    }
}

/// What decompression of a well-formed buffer yields, before the declared
/// decompressed length is enforced: the raw body for the uncompressed format,
/// the decompressor's output otherwise.
pub open spec fn codec_raw_out(s: Seq<u8>) -> Option<Seq<u8>> {
    if codec_tag(s) == 0 {
        Some(codec_body(s))
    } else if codec_tag(s) == 1 {
        bunzip_of(bzip_magic() + codec_body(s))
    } else {
        gunzip_of(codec_body(s))
    }
}

/// Whether decoding the buffer succeeds: a supported tag, a complete header
/// and body, a decompressible stream, and exactly the declared number of
/// decompressed bytes.
pub open spec fn decode_ok(s: Seq<u8>) -> bool {
    &&& s.len() >= 1
    &&& (codec_tag(s) == 0 || codec_tag(s) == 1 || codec_tag(s) == 2)
    &&& codec_header_wf(s)
    &&& codec_raw_out(s) is Some
    &&& (codec_tag(s) != 0 ==> codec_raw_out(s).unwrap().len() == codec_dlen(s))
}

/// Decompresses a tagged buffer: a 1-byte format tag, a 4-byte big-endian
/// declared compressed length, for compressed formats a 4-byte big-endian
/// declared decompressed length, then the body. Decoding never yields more or
/// fewer bytes than declared.
pub fn decode(buffer: &[u8]) -> (r: Result<Vec<u8>, RuneFsError>)
    ensures
        r is Ok <==> decode_ok(buffer@),
        r matches Ok(v) ==> Some(v@) == codec_raw_out(buffer@),
        buffer@.len() == 0 ==> r == Err::<Vec<u8>, RuneFsError>(RuneFsError::Parse(ParseError::Unknown)),
        buffer@.len() >= 1 && codec_tag(buffer@) != 0 && codec_tag(buffer@) != 1 && codec_tag(
            buffer@,
        ) != 2 ==> r == Err::<Vec<u8>, RuneFsError>(RuneFsError::Compression(CompressionUnsupported)),
        buffer@.len() >= 1 && (codec_tag(buffer@) == 0 || codec_tag(buffer@) == 1 || codec_tag(
            buffer@,
        ) == 2) && !codec_header_wf(buffer@) ==> r == Err::<Vec<u8>, RuneFsError>(
            RuneFsError::Parse(ParseError::Unknown),
        ),
        codec_header_wf(buffer@) && (codec_tag(buffer@) == 1 || codec_tag(buffer@) == 2)
            && codec_raw_out(buffer@) is None ==> (r matches Err(e) && e matches RuneFsError::Io(
            _,
        )),
        codec_header_wf(buffer@) && (codec_tag(buffer@) == 1 || codec_tag(buffer@) == 2)
            && codec_raw_out(buffer@) is Some && codec_raw_out(buffer@).unwrap().len()
            != codec_dlen(buffer@) ==> r == Err::<Vec<u8>, RuneFsError>(
            RuneFsError::Validate(
                ValidateError::InvalidLength(
                    codec_dlen(buffer@) as usize,
                    codec_raw_out(buffer@).unwrap().len() as usize,
                ),
            ),
        ),
{
    if buffer.len() == 0 {
        return Err(RuneFsError::Parse(ParseError::Unknown));
    }
    let tag = buffer[0];
    if tag != FORMAT_NONE && tag != FORMAT_BZIP2 && tag != FORMAT_GZIP {
        return Err(RuneFsError::Compression(CompressionUnsupported));
    }
    if buffer.len() < 5 {
        return Err(RuneFsError::Parse(ParseError::Unknown));
    }
    let clen: u32 = read_be_u32(buffer, 1);
    if tag == FORMAT_NONE {
        if (buffer.len() as u64) < 5 + clen as u64 {
            return Err(RuneFsError::Parse(ParseError::Unknown));
        }
        return Ok(copy_range(buffer, 5, clen as usize));
    }
    if (buffer.len() as u64) < 9 + clen as u64 {
        return Err(RuneFsError::Parse(ParseError::Unknown));
    }
    let dlen: u32 = read_be_u32(buffer, 5);
    let out = if tag == FORMAT_BZIP2 {
        let mut stream: Vec<u8> = Vec::new();
        stream.push(66);
        stream.push(90);
        stream.push(104);
        stream.push(49);
        append_body(&mut stream, buffer, clen as usize);
        proof {
            assert(stream@ =~= bzip_magic() + codec_body(buffer@));
        }
        bunzip(stream.as_slice())
    } else {
        let body = copy_range(buffer, 9, clen as usize);
        gunzip(body.as_slice())
    };
    match out {
        Err(e) => Err(RuneFsError::Io(e)),
        Ok(decoded) => {
            if decoded.len() as u64 != dlen as u64 {
                Err(
                    RuneFsError::Validate(
                        ValidateError::InvalidLength(dlen as usize, decoded.len()),
                    ),
                )
            } else {
                Ok(decoded)
            }
        },
    }
}

/// Appends the declared body, which starts behind the 9-byte header, to `dst`.
fn append_body(dst: &mut Vec<u8>, buffer: &[u8], body_len: usize) -> (r: ())
    requires
        9 + body_len <= buffer@.len(),
    ensures
        final(dst)@ == old(dst)@ + buffer@.subrange(9, 9 + body_len as int),
{
    crate::bytes::append_range(dst, buffer, 9, body_len);
}

/// Decompresses a tagged buffer and then checks the decoded bytes against an
/// expected CRC-32 checksum; `id` names the archive in the mismatch error.
pub fn decode_checked(buffer: &[u8], expected_crc: u32, id: usize) -> (r: Result<
    Vec<u8>,
    RuneFsError,
>)
    ensures
        r is Ok <==> decode_ok(buffer@) && crc32_of(codec_raw_out(buffer@).unwrap())
            == expected_crc,
        r matches Ok(v) ==> Some(v@) == codec_raw_out(buffer@),
        decode_ok(buffer@) && crc32_of(codec_raw_out(buffer@).unwrap()) != expected_crc
            ==> r == Err::<Vec<u8>, RuneFsError>(
            RuneFsError::Validate(
                ValidateError::InvalidCrc(
                    expected_crc,
                    crc32_of(codec_raw_out(buffer@).unwrap()),
                    id,
                ),
            ),
        ),
        buffer@.len() == 0 ==> r == Err::<Vec<u8>, RuneFsError>(RuneFsError::Parse(ParseError::Unknown)),
        buffer@.len() >= 1 && codec_tag(buffer@) != 0 && codec_tag(buffer@) != 1 && codec_tag(
            buffer@,
        ) != 2 ==> r == Err::<Vec<u8>, RuneFsError>(RuneFsError::Compression(CompressionUnsupported)),
        buffer@.len() >= 1 && (codec_tag(buffer@) == 0 || codec_tag(buffer@) == 1 || codec_tag(
            buffer@,
        ) == 2) && !codec_header_wf(buffer@) ==> r == Err::<Vec<u8>, RuneFsError>(
            RuneFsError::Parse(ParseError::Unknown),
        ),
        codec_header_wf(buffer@) && (codec_tag(buffer@) == 1 || codec_tag(buffer@) == 2)
            && codec_raw_out(buffer@) is None ==> (r matches Err(e) && e matches RuneFsError::Io(
            _,
        )),
        codec_header_wf(buffer@) && (codec_tag(buffer@) == 1 || codec_tag(buffer@) == 2)
            && codec_raw_out(buffer@) is Some && codec_raw_out(buffer@).unwrap().len()
            != codec_dlen(buffer@) ==> r == Err::<Vec<u8>, RuneFsError>(
            RuneFsError::Validate(
                ValidateError::InvalidLength(
                    codec_dlen(buffer@) as usize,
                    codec_raw_out(buffer@).unwrap().len() as usize,
                ),
            ),
        ),
{
    let decoded = match decode(buffer) {
        Ok(v) => v,
        Err(e) => {
            return Err(e);
        },
    };
    let actual = crc32(decoded.as_slice());
    if actual != expected_crc {
        return Err(RuneFsError::Validate(ValidateError::InvalidCrc(expected_crc, actual, id)));
    }
    Ok(decoded)
}

} // verus!
