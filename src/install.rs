//! The decisions of the payload installer. It walks a stream of zstd frames
//! and chooses, frame by frame, between an encoded write of the compressed
//! bytes and a positioned write of the decompressed ones. The caller performs
//! each write and reports the kernel's answer back.
use crate::codec::{
    zstd_content_size, zstd_decoded, zstd_decompress, zstd_find_frame_size, zstd_frame_content_size,
    zstd_frame_size,
};
use crate::compression::bytes_eq;
use vstd::prelude::*;
use vstd::string::StringSliceAdditionalSpecFns;

verus! {

/// The largest compressed extent that one encoded write takes.
pub const MAX_COMPRESSED: usize = 131072;

/// The largest uncompressed extent that one encoded write describes.
pub const MAX_UNCOMPRESSED: u64 = 131072;

/// Frames that decompress to fewer bytes are written decompressed.
pub const MIN_UNCOMPRESSED: u64 = 4096;

/// The largest file offset that the kernel request can carry.
pub const MAX_FILE_OFFSET: u64 = 9223372036854775807;

/// The encoded-write compression identifier of zstd.
pub const ENCODED_IO_COMPRESSION_ZSTD: u32 = 2;

/// The encoded-write encryption identifier for no encryption.
pub const ENCODED_IO_ENCRYPTION_NONE: u32 = 0;

/// An error while installing a payload.
#[derive(Debug, PartialEq, Eq, Structural)]
pub enum InstallError {
    /// The next frame's header cannot be read.
    HeaderUnreadable,
    /// The next frame does not declare its content size.
    MissingContentSize,
    /// The next frame is cut short: zstd cannot find its end, or it is
    /// empty, or it runs past the end of the buffer.
    Truncated,
    /// The next frame is larger than one encoded write can take.
    Oversized,
    /// The file offset after the next frame is beyond what a write can reach.
    OffsetOverflow,
    /// zstd could not decompress a frame (its error code).
    Decompress(usize),
    /// A copy, decompression or encoded write gave another length than expected.
    LengthMismatch { expected: u64, got: u64 },
    /// The encoded write failed with this (negative) result.
    Os(i64),
}

/// Where the installer stands: the start of the next frame in the payload,
/// and the file offset at which its content goes.
#[derive(Clone, Copy, Debug, PartialEq, Eq, Structural)]
pub struct PayloadCursor {
    pub data_off: usize,
    pub uncompressed_off: u64,
}

impl PayloadCursor {
    /// The start of a payload.
    pub fn start() -> (r: PayloadCursor)
        ensures
            r.data_off == 0,
            r.uncompressed_off == 0,
    {
        PayloadCursor { data_off: 0, uncompressed_off: 0 }
    }
}

/// One encoded write: the compressed bytes `data_off .. data_off + data_len`
/// of the payload, stored at file offset `offset` as an extent of `len`
/// bytes once decompressed.
#[derive(Clone, Copy, Debug, PartialEq, Eq, Structural)]
pub struct EncodedWrite {
    pub data_off: usize,
    pub data_len: usize,
    pub offset: i64,
    pub len: u64,
    pub unencoded_len: u64,
    pub unencoded_offset: u64,
    pub compression: u32,
    pub encryption: u32,
}

/// What to do for the next frame.
#[derive(Debug, PartialEq, Eq)]
pub enum FrameStep {
    /// The payload is fully walked.
    Done,
    /// Write `data`, the decompressed frame, at file offset `offset`.
    Plain { offset: u64, data: Vec<u8>, next: PayloadCursor },
    /// Issue the encoded write `request`.
    Encoded { request: EncodedWrite, next: PayloadCursor },
}

/// How the next frame is to be handled.
#[derive(Clone, Copy, Debug, PartialEq, Eq, Structural)]
pub enum FrameClass {
    Done,
    HeaderUnreadable,
    MissingContentSize,
    Truncated,
    Oversized,
    OffsetOverflow,
    /// A frame of this many compressed and uncompressed bytes, too small to
    /// gain from an encoded write.
    Small(usize, u64),
    /// A frame of this many compressed and uncompressed bytes, for an
    /// encoded write.
    Large(usize, u64),
}

/// How a frame is handled, from the bytes left in the payload, the frame's
/// length and declared content size as zstd reads them, and the file offset
/// `uoff` at which its content goes.
pub open spec fn frame_class(
    remaining: nat,
    frame_size: Result<usize, usize>,
    content_size: Option<Option<u64>>,
    uoff: u64,
) -> FrameClass {
    if remaining == 0 {
        FrameClass::Done
    } else {
        match frame_size {
            Err(_) => FrameClass::Truncated,
            Ok(c) => match content_size {
                None => FrameClass::HeaderUnreadable,
                Some(None) => FrameClass::MissingContentSize,
                Some(Some(u)) => {
                    if c == 0 || c > remaining {
                        FrameClass::Truncated
                    } else if c > MAX_COMPRESSED || u > MAX_UNCOMPRESSED {
                        FrameClass::Oversized
                    } else if uoff + u > MAX_FILE_OFFSET {
                        FrameClass::OffsetOverflow
                    } else if u < MIN_UNCOMPRESSED {
                        FrameClass::Small(c, u)
                    } else {
                        FrameClass::Large(c, u)
                    }
                },
            },
        }
    }
}

/// How the frame at the start of `rest` is handled.
pub open spec fn classify(rest: Seq<u8>, uoff: u64) -> FrameClass {
    frame_class(rest.len(), zstd_frame_size(rest), zstd_content_size(rest), uoff)
}

/// Decides how a frame is handled from what zstd read of it: cut short,
/// unreadable, without a content size, too large for one encoded write,
/// beyond the largest file offset, small (written decompressed) or large
/// (an encoded write).
pub fn classify_frame(
    remaining: usize,
    frame_size: Result<usize, usize>,
    content_size: Option<Option<u64>>,
    uoff: u64,
) -> (r: FrameClass)
    ensures
        r == frame_class(remaining as nat, frame_size, content_size, uoff),
{
    if remaining == 0 {
        return FrameClass::Done;
    }
    let c = match frame_size {
        Err(_) => {
            return FrameClass::Truncated;
        },
        Ok(c) => c,
    };
    let u = match content_size {
        None => {
            return FrameClass::HeaderUnreadable;
        },
        Some(None) => {
            return FrameClass::MissingContentSize;
        },
        Some(Some(u)) => u,
    };
    if c == 0 || c > remaining {
        FrameClass::Truncated
    } else if c > MAX_COMPRESSED || u > MAX_UNCOMPRESSED {
        FrameClass::Oversized
    } else if uoff > MAX_FILE_OFFSET - u {
        FrameClass::OffsetOverflow
    } else if u < MIN_UNCOMPRESSED {
        FrameClass::Small(c, u)
    } else {
        FrameClass::Large(c, u)
    }
}

/// The cursor past a frame of `c` compressed and `u` uncompressed bytes.
pub open spec fn advanced(cur: PayloadCursor, c: usize, u: u64) -> PayloadCursor {
    PayloadCursor {
        data_off: (cur.data_off + c) as usize,
        uncompressed_off: (cur.uncompressed_off + u) as u64,
    }
}

/// The encoded write of a frame of `c` compressed and `u` uncompressed bytes.
pub open spec fn encoded_request(cur: PayloadCursor, c: usize, u: u64) -> EncodedWrite {
    EncodedWrite {
        data_off: cur.data_off,
        data_len: c,
        offset: cur.uncompressed_off as i64,
        len: u,
        unencoded_len: u,
        unencoded_offset: 0,
        compression: ENCODED_IO_COMPRESSION_ZSTD,
        encryption: ENCODED_IO_ENCRYPTION_NONE,
    }
}

/// What `next_frame` gives for the payload `buf` at `cur`.
pub open spec fn next_frame_result(
    buf: Seq<u8>,
    cur: PayloadCursor,
    r: Result<FrameStep, InstallError>,
) -> bool {
    let rest = buf.subrange(cur.data_off as int, buf.len() as int);
    match classify(rest, cur.uncompressed_off) {
        FrameClass::Done => r == Ok::<FrameStep, InstallError>(FrameStep::Done),
        FrameClass::HeaderUnreadable => r == Err::<FrameStep, InstallError>(
            InstallError::HeaderUnreadable,
        ),
        FrameClass::MissingContentSize => r == Err::<FrameStep, InstallError>(
            InstallError::MissingContentSize,
        ),
        FrameClass::Truncated => r == Err::<FrameStep, InstallError>(InstallError::Truncated),
        FrameClass::Oversized => r == Err::<FrameStep, InstallError>(InstallError::Oversized),
        FrameClass::OffsetOverflow => r == Err::<FrameStep, InstallError>(
            InstallError::OffsetOverflow,
        ),
        FrameClass::Small(c, u) => match r {
            Ok(FrameStep::Plain { offset, data, next }) => {
                &&& offset == cur.uncompressed_off
                &&& data@ == zstd_decoded(rest.subrange(0, c as int))
                &&& data@.len() == u
                &&& next == advanced(cur, c, u)
            },
            Err(InstallError::Decompress(_)) => true,
            Err(InstallError::LengthMismatch { expected, got }) => expected == u && got != u,
            _ => false,
        },
        FrameClass::Large(c, u) => r == Ok::<FrameStep, InstallError>(
            FrameStep::Encoded { request: encoded_request(cur, c, u), next: advanced(cur, c, u) },
        ),
    }
}

/// The step for a small frame, from what decompressing it gave: the bytes
/// are written only when they are exactly as many as the frame declares.
pub fn plain_step(
    decoded: Result<Vec<u8>, usize>,
    offset: u64,
    declared: u64,
    next: PayloadCursor,
) -> (r: Result<FrameStep, InstallError>)
    ensures
        match decoded {
            Err(e) => r == Err::<FrameStep, InstallError>(InstallError::Decompress(e)),
            Ok(v) => if v@.len() == declared {
                r == Ok::<FrameStep, InstallError>(FrameStep::Plain { offset, data: v, next })
            } else {
                r matches Err(InstallError::LengthMismatch { expected, got }) && expected
                    == declared && got == v@.len() && got != declared
            },
        },
{
    match decoded {
        Err(e) => Err(InstallError::Decompress(e)),
        Ok(v) => {
            let n: usize = v.len();
            if n as u64 == declared {
                Ok(FrameStep::Plain { offset, data: v, next })
            } else {
                let got = n as u64;
                Err(InstallError::LengthMismatch { expected: declared, got })
            }
        },
    }
}

/// Decides what to do with the frame of `buf` at `cur`: nothing left,
/// an error, a decompressed write (for frames below `MIN_UNCOMPRESSED`) or
/// an encoded write. Each write comes with the cursor past its frame.
pub fn next_frame(buf: &[u8], cur: &PayloadCursor) -> (r: Result<FrameStep, InstallError>)
    requires
        cur.data_off <= buf@.len(),
    ensures
        next_frame_result(buf@, *cur, r),
        r matches Ok(FrameStep::Plain { next, .. }) ==> cur.data_off < next.data_off <= buf@.len(),
        r matches Ok(FrameStep::Encoded { next, .. }) ==> cur.data_off < next.data_off
            <= buf@.len(),
{
    let ghost rest_spec = buf@.subrange(cur.data_off as int, buf@.len() as int);
    if cur.data_off == buf.len() {
        return Ok(FrameStep::Done);
    }
    let rest = &buf[cur.data_off..buf.len()];
    let frame_size = zstd_find_frame_size(rest);
    let content_size = zstd_frame_content_size(rest);
    match classify_frame(rest.len(), frame_size, content_size, cur.uncompressed_off) {
        FrameClass::Done => Ok(FrameStep::Done),
        FrameClass::HeaderUnreadable => Err(InstallError::HeaderUnreadable),
        FrameClass::MissingContentSize => Err(InstallError::MissingContentSize),
        FrameClass::Truncated => Err(InstallError::Truncated),
        FrameClass::Oversized => Err(InstallError::Oversized),
        FrameClass::OffsetOverflow => Err(InstallError::OffsetOverflow),
        FrameClass::Small(c, u) => {
            let next = PayloadCursor {
                data_off: cur.data_off + c,
                uncompressed_off: cur.uncompressed_off + u,
            };
            let frame = &rest[0..c];
            assert(frame@ == rest_spec.subrange(0, c as int));
            let decoded = zstd_decompress(frame, u as usize);
            plain_step(decoded, cur.uncompressed_off, u, next)
        },
        FrameClass::Large(c, u) => {
            let next = PayloadCursor {
                data_off: cur.data_off + c,
                uncompressed_off: cur.uncompressed_off + u,
            };
            let request = EncodedWrite {
                data_off: cur.data_off,
                data_len: c,
                offset: cur.uncompressed_off as i64,
                len: u,
                unencoded_len: u,
                unencoded_offset: 0,
                compression: ENCODED_IO_COMPRESSION_ZSTD,
                encryption: ENCODED_IO_ENCRYPTION_NONE,
            };
            Ok(FrameStep::Encoded { request, next })
        },
    }
}

impl PayloadCursor {
    /// Takes the kernel's answer `ret` to the encoded write `request`, which
    /// `next_frame` gave together with `next`. The cursor moves to `next` only
    /// when the kernel took exactly the frame's compressed bytes.
    pub fn after_encoded_write(
        &mut self,
        request: &EncodedWrite,
        next: PayloadCursor,
        ret: i64,
    ) -> (r: Result<(), InstallError>)
        ensures
            ret < 0 ==> r == Err::<(), InstallError>(InstallError::Os(ret))
                && *final(self) == *old(self),
            ret >= 0 && ret != request.data_len ==> r == Err::<(), InstallError>(
                InstallError::LengthMismatch { expected: request.data_len as u64, got: ret as u64 },
            ) && *final(self) == *old(self),
            ret >= 0 && ret == request.data_len ==> r is Ok && *final(self) == next,
    {
        if ret < 0 {
            return Err(InstallError::Os(ret));
        }
        let got = ret as u64;
        if got != request.data_len as u64 {
            return Err(InstallError::LengthMismatch { expected: request.data_len as u64, got });
        }
        *self = next;
        Ok(())
    }
}

/// Whether a payload of this format and compressor is a stream of frames
/// that encoded writes can take: a cpio archive compressed with zstd.
pub fn payload_is_frame_addressable(format: &str, compressor: &str) -> (r: bool)
    ensures
        r == (format.spec_bytes() == seq![99u8, 112, 105, 111] && compressor.spec_bytes()
            == seq![122u8, 115, 116, 100]),
{
    let cpio: Vec<u8> = vec![99u8, 112, 105, 111];
    let zstd: Vec<u8> = vec![122u8, 115, 116, 100];
    proof {
        assert(cpio@ =~= seq![99u8, 112, 105, 111]);
        assert(zstd@ =~= seq![122u8, 115, 116, 100]);
    }
    bytes_eq(format.as_bytes(), cpio.as_slice()) && bytes_eq(
        compressor.as_bytes(),
        zstd.as_slice(),
    )
}

/// Checks that a verbatim copy moved exactly the expected number of bytes.
pub fn check_copy_len(copied: u64, expected: u64) -> (r: Result<(), InstallError>)
    ensures
        copied == expected ==> r is Ok,
        copied != expected ==> r == Err::<(), InstallError>(
            InstallError::LengthMismatch { expected, got: copied },
        ),
{
    if copied == expected {
        Ok(())
    } else {
        Err(InstallError::LengthMismatch { expected, got: copied })
    }
}

/// A whole frame that declares its content size, fits one encoded write
/// and stays within the largest file offset is written decompressed when it
/// declares fewer than `MIN_UNCOMPRESSED` bytes, and by an encoded write of
/// exactly its compressed bytes otherwise.
pub proof fn lemma_routing(remaining: nat, c: usize, u: u64, uoff: u64)
    requires
        0 < c <= remaining,
        c <= MAX_COMPRESSED,
        u <= MAX_UNCOMPRESSED,
        uoff + u <= MAX_FILE_OFFSET,
    ensures
        u < MIN_UNCOMPRESSED ==> frame_class(remaining, Ok(c), Some(Some(u)), uoff)
            == FrameClass::Small(c, u),
        u >= MIN_UNCOMPRESSED ==> frame_class(remaining, Ok(c), Some(Some(u)), uoff)
            == FrameClass::Large(c, u),
{
}

/// The encoded write that the installer issues for a large frame carries the
/// frame's place in the payload, its file offset and its declared length.
pub proof fn lemma_encoded_request(buf: Seq<u8>, cur: PayloadCursor, r: Result<FrameStep, InstallError>)
    requires
        cur.data_off <= buf.len() <= usize::MAX,
        next_frame_result(buf, cur, r),
        classify(buf.subrange(cur.data_off as int, buf.len() as int), cur.uncompressed_off) matches FrameClass::Large(c, u),
    ensures
        r matches Ok(FrameStep::Encoded { request, next }) && request.data_off == cur.data_off
            && request.offset == cur.uncompressed_off && request.len == request.unencoded_len
            && request.unencoded_offset == 0 && request.compression == ENCODED_IO_COMPRESSION_ZSTD
            && request.encryption == ENCODED_IO_ENCRYPTION_NONE && next.data_off == cur.data_off
            + request.data_len && next.uncompressed_off == cur.uncompressed_off + request.len,
{
}

/// A frame that claims more bytes than remain in the buffer, or whose end
/// zstd cannot find, is refused as truncated, and nothing is written for it.
pub proof fn lemma_truncated_frame_refused(
    buf: Seq<u8>,
    cur: PayloadCursor,
    r: Result<FrameStep, InstallError>,
)
    requires
        cur.data_off < buf.len(),
        next_frame_result(buf, cur, r),
        zstd_frame_size(buf.subrange(cur.data_off as int, buf.len() as int)) is Err || (zstd_frame_size(
            buf.subrange(cur.data_off as int, buf.len() as int),
        ) matches Ok(c) && c > buf.len() - cur.data_off && zstd_content_size(
            buf.subrange(cur.data_off as int, buf.len() as int),
        ) matches Some(Some(_))),
    ensures
        r == Err::<FrameStep, InstallError>(InstallError::Truncated),
{
}

} // verus!
