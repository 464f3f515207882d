//! The calls this library makes into outside codec crates, each with the
//! contract that the crate's documentation and source give it.
use std::io::Write;
use vstd::prelude::*;

verus! {

/// A zstd compression context set up for independent frames: the level it
/// was made with, a window log of 17, no checksum, and the content size
/// written into every frame header. Only `zstd_frame_ctx` makes one, so the
/// compress contract below holds of every value of this type.
#[verifier::external_body]
pub struct FrameCtx {
    ctx: zstd_safe::CCtx<'static>,
}

#[verifier::external_type_specification]
#[verifier::external_body]
pub struct ExIoError(std::io::Error);

/// A gzip encoder writing into a memory buffer (Verus refuses a declaration
/// of the encoder type itself, whose parameter is bound by `std::io::Write`).
#[verifier::external_body]
pub struct GzStream {
    enc: flate2::write::GzEncoder<Vec<u8>>,
}

/// A xz encoder writing into a memory buffer (Verus refuses a declaration
/// of the encoder type itself, whose parameter is bound by `std::io::Write`).
#[verifier::external_body]
pub struct XzStream {
    enc: xz2::write::XzEncoder<Vec<u8>>,
}

/// A bzip2 encoder writing into a memory buffer (Verus refuses a declaration
/// of the encoder type itself, whose parameter is bound by `std::io::Write`).
#[verifier::external_body]
pub struct BzStream {
    enc: bzip2::write::BzEncoder<Vec<u8>>,
}

/// `ZSTD_MAX_INPUT_SIZE`: the smallest input that zstd refuses to bound.
pub open spec fn zstd_max_input() -> nat {
    if usize::MAX as nat == 0xffff_ffff_ffff_ffff {
        0xFF00FF00FF00FF00
    } else {
        0xFF00FF00
    }
}

/// `ZSTD_COMPRESSBOUND(n)`: the worst-case size of one frame holding `n`
/// bytes, for `n` below `zstd_max_input()`.
pub open spec fn zstd_bound(n: nat) -> nat {
    n + n / 256 + if n < 131072 {
        ((131072 - n) as nat) / 2048
    } else {
        0
    }
}

/// What `ZSTD_findFrameCompressedSize` reports for a buffer: the byte length
/// of the frame it starts with, or a zstd error code.
pub uninterp spec fn zstd_frame_size(src: Seq<u8>) -> Result<usize, usize>;

/// What `ZSTD_getFrameContentSize` reads from the header of the frame that a
/// buffer starts with: `None` when the header cannot be read, `Some(None)`
/// when the frame declares no content size.
pub uninterp spec fn zstd_content_size(src: Seq<u8>) -> Option<Option<u64>>;

/// The bytes that `ZSTD_decompress` produces from a buffer when it succeeds.
pub uninterp spec fn zstd_decoded(src: Seq<u8>) -> Seq<u8>;

/// Relies on `zstd_safe::CCtx::create` and `zstd_safe::CCtx::set_parameter`:
/// a new context whose frames declare their content size (zstd's default,
/// set again here) and carry no checksum (also the default). It panics only
/// when zstd cannot allocate a context; a level out of range is clamped.
#[verifier::external_body]
pub(crate) fn zstd_frame_ctx(level: i32, window_log: u32) -> (r: FrameCtx) {
    let mut ctx = zstd_safe::CCtx::create();
    let _ = ctx.set_parameter(zstd_safe::CParameter::CompressionLevel(level));
    let _ = ctx.set_parameter(zstd_safe::CParameter::WindowLog(window_log));
    let _ = ctx.set_parameter(zstd_safe::CParameter::ChecksumFlag(false));
    let _ = ctx.set_parameter(zstd_safe::CParameter::ContentSizeFlag(true));
    FrameCtx { ctx }
}

/// Relies on `zstd_safe::compress_bound` (`ZSTD_compressBound`): the
/// `ZSTD_COMPRESSBOUND` formula for inputs below `ZSTD_MAX_INPUT_SIZE`.
#[verifier::external_body]
pub(crate) fn zstd_compress_bound(n: usize) -> (r: usize)
    ensures
        n < zstd_max_input() ==> r == zstd_bound(n as nat),
{
    zstd_safe::compress_bound(n)
}

/// Whether `bytes` is one complete zstd frame of `input`: it decodes to
/// `input`, zstd finds its end at its last byte, and its header declares
/// the length of `input`.
pub open spec fn is_frame_of(bytes: Seq<u8>, input: Seq<u8>) -> bool {
    &&& zstd_decoded(bytes) == input
    &&& zstd_frame_size(bytes) == Ok::<usize, usize>(bytes.len() as usize)
    &&& zstd_content_size(bytes) == Some(Some(input.len() as u64))
}

/// Relies on `zstd_safe::CCtx::compress2` (`ZSTD_compress2`): compresses
/// `src` as one complete frame, with the settings of `zstd_frame_ctx`, into
/// a new buffer of the given capacity. With room for `ZSTD_compressBound`
/// bytes zstd does not fail but for a failed allocation inside zstd.
#[verifier::external_body]
pub(crate) fn zstd_compress_frame(ctx: &mut FrameCtx, src: &[u8], capacity: usize) -> (r: Result<
    Vec<u8>,
    usize,
>)
    ensures
        src@.len() < zstd_max_input() && capacity >= zstd_bound(src@.len()) ==> r is Ok,
        r matches Ok(v) ==> is_frame_of(v@, src@),
{
    let mut out: Vec<u8> = Vec::with_capacity(capacity);
    ctx.ctx.compress2(&mut out, src).map(|_| out)
}

/// Relies on `zstd_safe::find_frame_compressed_size`: the length of the
/// frame at the start of `src`, read from the frame itself.
#[verifier::external_body]
pub(crate) fn zstd_find_frame_size(src: &[u8]) -> (r: Result<usize, usize>)
    ensures
        r == zstd_frame_size(src@),
{
    zstd_safe::find_frame_compressed_size(src)
}

/// Relies on `zstd_safe::get_frame_content_size`: the content size that the
/// header of the frame at the start of `src` declares.
#[verifier::external_body]
pub(crate) fn zstd_frame_content_size(src: &[u8]) -> (r: Option<Option<u64>>)
    ensures
        r == zstd_content_size(src@),
{
    zstd_safe::get_frame_content_size(src).ok()
}

/// Relies on `zstd_safe::decompress`: decodes `src` into a buffer of the
/// given capacity; when it succeeds, the bytes depend on `src` alone.
#[verifier::external_body]
pub(crate) fn zstd_decompress(src: &[u8], capacity: usize) -> (r: Result<Vec<u8>, usize>)
    ensures
        r matches Ok(v) ==> v@ == zstd_decoded(src@),
{
    let mut out: Vec<u8> = Vec::with_capacity(capacity);
    zstd_safe::decompress(&mut out, src).map(|_| out)
}

/// Relies on `flate2::write::GzEncoder::new` with `flate2::Compression::new`:
/// a gzip encoder into an empty buffer. In this build flate2's `zlib-rs`
/// feature is on, which selects the `zlib_rs` backend (flate2 src/ffi/mod.rs),
/// and that backend debug-asserts a level of at most 9 (src/ffi/zlib_rs.rs).
#[verifier::external_body]
pub(crate) fn gz_new(level: u32) -> (r: GzStream)
    requires
        level <= 9,
{
    GzStream { enc: flate2::write::GzEncoder::new(Vec::new(), flate2::Compression::new(level)) }
}

/// Relies on `Write::write` of `GzEncoder`: `Ok(n)` means that the first `n`
/// bytes were taken.
#[verifier::external_body]
pub(crate) fn gz_write(e: &mut GzStream, b: &[u8]) -> (r: Result<
    usize,
    std::io::Error,
>)
    ensures
        r matches Ok(n) ==> n <= b.len(),
{
    e.enc.write(b)
}

/// Relies on `Write::flush` of `GzEncoder`.
#[verifier::external_body]
pub(crate) fn gz_flush(e: &mut GzStream) -> (r: Result<
    (),
    std::io::Error,
>) {
    e.enc.flush()
}

/// Relies on `GzEncoder::finish`: ends the gzip stream and hands back the buffer.
#[verifier::external_body]
pub(crate) fn gz_finish(e: GzStream) -> (r: Result<
    Vec<u8>,
    std::io::Error,
>) {
    e.enc.finish()
}

/// Relies on `xz2::write::XzEncoder::new`: an xz encoder into an empty buffer
/// (it panics on a preset that liblzma refuses; presets 0 to 9 are valid).
#[verifier::external_body]
pub(crate) fn xz_new(level: u32) -> (r: XzStream)
    requires
        level <= 9,
{
    XzStream { enc: xz2::write::XzEncoder::new(Vec::new(), level) }
}

/// Relies on `Write::write` of `XzEncoder`: `Ok(n)` means that the first `n`
/// bytes were taken.
#[verifier::external_body]
pub(crate) fn xz_write(e: &mut XzStream, b: &[u8]) -> (r: Result<
    usize,
    std::io::Error,
>)
    ensures
        r matches Ok(n) ==> n <= b.len(),
{
    e.enc.write(b)
}

/// Relies on `Write::flush` of `XzEncoder`.
#[verifier::external_body]
pub(crate) fn xz_flush(e: &mut XzStream) -> (r: Result<
    (),
    std::io::Error,
>) {
    e.enc.flush()
}

/// Relies on `XzEncoder::finish`: ends the xz stream and hands back the buffer.
#[verifier::external_body]
pub(crate) fn xz_finish(e: XzStream) -> (r: Result<
    Vec<u8>,
    std::io::Error,
>) {
    e.enc.finish()
}

/// Relies on `bzip2::write::BzEncoder::new` with `bzip2::Compression::new`:
/// a bzip2 encoder into an empty buffer (levels outside 1 to 9 panic).
#[verifier::external_body]
pub(crate) fn bz_new(level: u32) -> (r: BzStream)
    requires
        1 <= level <= 9,
{
    BzStream { enc: bzip2::write::BzEncoder::new(Vec::new(), bzip2::Compression::new(level)) }
}

/// Relies on `Write::write` of `BzEncoder`: `Ok(n)` means that the first `n`
/// bytes were taken.
#[verifier::external_body]
pub(crate) fn bz_write(e: &mut BzStream, b: &[u8]) -> (r: Result<
    usize,
    std::io::Error,
>)
    ensures
        r matches Ok(n) ==> n <= b.len(),
{
    e.enc.write(b)
}

/// Relies on `Write::flush` of `BzEncoder`.
#[verifier::external_body]
pub(crate) fn bz_flush(e: &mut BzStream) -> (r: Result<
    (),
    std::io::Error,
>) {
    e.enc.flush()
}

/// Relies on `BzEncoder::finish`: ends the bzip2 stream and hands back the buffer.
#[verifier::external_body]
pub(crate) fn bz_finish(e: BzStream) -> (r: Result<
    Vec<u8>,
    std::io::Error,
>) {
    e.enc.finish()
}

} // verus!
