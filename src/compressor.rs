//! Payload compressors. The zstd one emits a stream of independent frames,
//! each holding at most a configured number of input bytes and declaring its
//! content size, as encoded writes need.
use crate::codec::{
    bz_finish, bz_flush, bz_new, bz_write, gz_finish, gz_flush, gz_new, gz_write, xz_finish,
    is_frame_of, xz_flush, xz_new, xz_write, zstd_bound, zstd_compress_bound, zstd_compress_frame,
    zstd_decoded, zstd_frame_ctx, zstd_max_input, BzStream, FrameCtx, GzStream, XzStream,
};
use crate::compression::{type_of, CompressionType, CompressionWithLevel, Error};
use vstd::prelude::*;

verus! {

/// The default limit of input bytes per zstd frame.
pub const FRAME_MAX_DEFAULT: usize = 131072;

/// The window log that the zstd compressor uses.
pub const ZSTD_WINDOW_LOG: u32 = 17;

/// The concatenation of a sequence of byte sequences, in order.
pub open spec fn concat_all(s: Seq<Seq<u8>>) -> Seq<u8>
    decreases s.len(),
{
    if s.len() == 0 {
        Seq::empty()
    } else {
        concat_all(s.drop_last()) + s.last()
    }
}

proof fn lemma_concat_all_push(s: Seq<Seq<u8>>, x: Seq<u8>)
    ensures
        concat_all(s.push(x)) == concat_all(s) + x,
{
    assert(s.push(x).drop_last() =~= s);
}

proof fn lemma_concat_all_append(a: Seq<Seq<u8>>, b: Seq<Seq<u8>>)
    ensures
        concat_all(a + b) == concat_all(a) + concat_all(b),
    decreases b.len(),
{
    if b.len() == 0 {
        assert(a + b =~= a);
        assert(concat_all(a) + concat_all(b) =~= concat_all(a));
    } else {
        lemma_concat_all_append(a, b.drop_last());
        assert((a + b).drop_last() =~= a + b.drop_last());
        assert(concat_all(a) + concat_all(b.drop_last()) + b.last() =~= concat_all(a) + (
        concat_all(b.drop_last()) + b.last()));
    }
}

/// A zstd compressor that cuts its input into frames of a bounded size.
pub struct CompressorZstd {
    ctx: FrameCtx,
    inbuf: Vec<u8>,
    outbuf: Vec<u8>,
    frame_max_content: usize,
    accepted: Ghost<Seq<u8>>,
    frames: Ghost<Seq<Seq<u8>>>,
    encoded: Ghost<Seq<Seq<u8>>>,
}

impl CompressorZstd {
    /// Input taken but not yet compressed.
    pub closed spec fn pending(&self) -> Seq<u8> {
        self.inbuf@
    }

    /// The compressed stream emitted so far.
    pub closed spec fn output(&self) -> Seq<u8> {
        self.outbuf@
    }

    /// The limit of input bytes per frame.
    pub closed spec fn frame_max(&self) -> nat {
        self.frame_max_content as nat
    }

    /// Every byte taken by `write`, in order.
    pub closed spec fn accepted(&self) -> Seq<u8> {
        self.accepted@
    }

    /// The input of each frame emitted so far, in order.
    pub closed spec fn frames(&self) -> Seq<Seq<u8>> {
        self.frames@
    }

    /// The bytes of each frame emitted so far, in order.
    pub closed spec fn encoded(&self) -> Seq<Seq<u8>> {
        self.encoded@
    }

    /// Each emitted frame is one complete zstd frame of its input.
    pub open spec fn frames_valid(&self) -> bool {
        &&& self.encoded().len() == self.frames().len()
        &&& forall|i: int|
            0 <= i < self.frames().len() ==> is_frame_of(
                #[trigger] self.encoded()[i],
                self.frames()[i],
            )
    }

    pub closed spec fn wf(&self) -> bool {
        &&& self.frame_max_content > 0
        &&& self.frame_max_content < zstd_max_input()
        &&& forall|i: int|
            0 <= i < self.frames@.len() ==> is_frame_of(
                #[trigger] self.encoded@[i],
                self.frames@[i],
            )
        &&& self.inbuf@.len() < self.frame_max_content
        &&& concat_all(self.frames@) + self.inbuf@ == self.accepted@
        &&& self.outbuf@ == concat_all(self.encoded@)
        &&& self.frames@.len() == self.encoded@.len()
        &&& forall|i: int| 0 <= i < self.frames@.len() ==> (#[trigger] self.frames@[i]).len() > 0
    }

    /// The observable state, but for the zstd context.
    pub open spec fn same_model(&self, o: &CompressorZstd) -> bool {
        &&& self.pending() == o.pending()
        &&& self.output() == o.output()
        &&& self.frame_max() == o.frame_max()
        &&& self.accepted() == o.accepted()
        &&& self.frames() == o.frames()
        &&& self.encoded() == o.encoded()
    }

    fn new(level: i32) -> (r: CompressorZstd)
        ensures
            r.wf(),
            r.pending().len() == 0,
            r.output().len() == 0,
            r.accepted().len() == 0,
            r.frames().len() == 0,
            r.frame_max() == FRAME_MAX_DEFAULT,
    {
        // no checksum (the container checksums the payload itself), and each
        // frame declares its content size, which encoded writes need
        let ctx = zstd_frame_ctx(level, ZSTD_WINDOW_LOG);
        let r = CompressorZstd {
            ctx,
            inbuf: Vec::new(),
            outbuf: Vec::new(),
            frame_max_content: FRAME_MAX_DEFAULT,
            accepted: Ghost(Seq::empty()),
            frames: Ghost(Seq::empty()),
            encoded: Ghost(Seq::empty()),
        };
        assert(concat_all(r.frames@) + r.inbuf@ =~= r.accepted@);
        r
    }

    /// Takes `content`, and compresses every whole frame's worth of pending
    /// input as one frame; what is left stays pending. On an error of the
    /// codec nothing is taken.
    pub fn write(&mut self, content: &[u8]) -> (r: Result<usize, Error>)
        requires
            old(self).wf(),
        ensures
            final(self).wf(),
            final(self).frames_valid(),
            final(self).frame_max() == old(self).frame_max(),
            r is Ok,
            match r {
                Ok(n) => {
                    &&& n == content@.len()
                    &&& final(self).accepted() == old(self).accepted() + content@
                    &&& old(self).frames().len() <= final(self).frames().len()
                    &&& final(self).frames().subrange(0, old(self).frames().len() as int)
                        == old(self).frames()
                    &&& final(self).encoded().subrange(0, old(self).encoded().len() as int)
                        == old(self).encoded()
                    &&& forall|i: int|
                        old(self).frames().len() <= i < final(self).frames().len()
                            ==> (#[trigger] final(self).frames()[i]).len()
                            == old(self).frame_max()
                    &&& concat_all(
                        final(self).frames().subrange(
                            old(self).frames().len() as int,
                            final(self).frames().len() as int,
                        ),
                    ) + final(self).pending() == old(self).pending() + content@
                },
                Err(_) => final(self).same_model(old(self)),
            },
    {
        let m = self.frame_max_content;
        let mut pending: Vec<u8> = Vec::new();
        append_bytes(&mut pending, self.inbuf.as_slice());
        append_bytes(&mut pending, content);
        let n = pending.len();
        let bound = zstd_compress_bound(m);
        let mut new_out: Vec<u8> = Vec::new();
        let ghost mut done: Seq<Seq<u8>> = Seq::empty();
        let ghost mut done_enc: Seq<Seq<u8>> = Seq::empty();
        let mut off: usize = 0;
        while m <= n - off
            invariant
                m == self.frame_max_content,
                m > 0,
                n == pending@.len(),
                pending@ == self.inbuf@ + content@,
                self.wf(),
                self.same_model(old(self)),
                off <= n,
                concat_all(done) == pending@.subrange(0, off as int),
                new_out@ == concat_all(done_enc),
                done.len() == done_enc.len(),
                forall|i: int| 0 <= i < done.len() ==> (#[trigger] done[i]).len() == m,
                forall|i: int| 0 <= i < done.len() ==> is_frame_of(#[trigger] done_enc[i], done[i]),
                bound == zstd_bound(m as nat),
            decreases n - off,
        {
            let chunk = &pending.as_slice()[off..off + m];
            match zstd_compress_frame(&mut self.ctx, chunk, bound) {
                Err(e) => {
                    return Err(Error::Zstd(e));
                },
                Ok(frame) => {
                    let mut frame = frame;
                    proof {
                        lemma_concat_all_push(done, chunk@);
                        lemma_concat_all_push(done_enc, frame@);
                        assert(pending@.subrange(0, off as int) + chunk@ =~= pending@.subrange(
                            0,
                            off + m,
                        ));
                        done = done.push(chunk@);
                        done_enc = done_enc.push(frame@);
                    }
                    new_out.append(&mut frame);
                    off = off + m;
                },
            }
        }
        let mut rest: Vec<u8> = Vec::new();
        append_bytes(&mut rest, &pending.as_slice()[off..n]);
        proof {
            let old_frames = self.frames@;
            let old_enc = self.encoded@;
            lemma_concat_all_append(old_frames, done);
            lemma_concat_all_append(old_enc, done_enc);
            assert(rest@ =~= pending@.subrange(off as int, n as int));
            assert(rest@.len() < m);
            assert(pending@.subrange(0, off as int) + rest@ =~= pending@);
            assert((old_frames + done).subrange(0, old_frames.len() as int) =~= old_frames);
            assert((old_enc + done_enc).subrange(0, old_enc.len() as int) =~= old_enc);
            assert((old_frames + done).subrange(
                old_frames.len() as int,
                (old_frames + done).len() as int,
            ) =~= done);
            assert forall|i: int| 0 <= i < (old_frames + done).len() implies (#[trigger] (
            old_frames + done)[i]).len() > 0 && is_frame_of((old_enc + done_enc)[i], (old_frames
                + done)[i]) by {
                if i >= old_frames.len() {
                    assert((old_frames + done)[i] == done[i - old_frames.len()]);
                    assert((old_enc + done_enc)[i] == done_enc[i - old_frames.len()]);
                } else {
                    assert((old_frames + done)[i] == old_frames[i]);
                    assert((old_enc + done_enc)[i] == old_enc[i]);
                }
            }
            assert(concat_all(old_frames) + (concat_all(done) + rest@) =~= concat_all(old_frames)
                + self.inbuf@ + content@);
            self.frames@ = old_frames + done;
            self.encoded@ = old_enc + done_enc;
            self.accepted@ = self.accepted@ + content@;
            assert(concat_all(self.frames@) + rest@ =~= self.accepted@);
        }
        self.inbuf = rest;
        self.outbuf.append(&mut new_out);
        Ok(content.len())
    }

    /// Compresses all pending input as one last, possibly shorter, frame.
    /// With nothing pending nothing is emitted. On an error of the codec the
    /// state is kept.
    pub fn flush(&mut self) -> (r: Result<(), Error>)
        requires
            old(self).wf(),
        ensures
            final(self).wf(),
            final(self).frames_valid(),
            final(self).frame_max() == old(self).frame_max(),
            r is Ok,
            match r {
                Ok(_) => {
                    &&& final(self).pending().len() == 0
                    &&& final(self).accepted() == old(self).accepted()
                    &&& final(self).frames() == if old(self).pending().len() == 0 {
                        old(self).frames()
                    } else {
                        old(self).frames().push(old(self).pending())
                    }
                    &&& final(self).encoded().len() == final(self).frames().len()
                    &&& final(self).encoded().subrange(0, old(self).encoded().len() as int)
                        == old(self).encoded()
                },
                Err(_) => final(self).same_model(old(self)),
            },
    {
        if self.inbuf.len() == 0 {
            return Ok(());
        }
        let bound = zstd_compress_bound(self.inbuf.len());
        match zstd_compress_frame(&mut self.ctx, self.inbuf.as_slice(), bound) {
            Err(e) => Err(Error::Zstd(e)),
            Ok(frame) => {
                let mut frame = frame;
                proof {
                    let p = self.inbuf@;
                    lemma_concat_all_push(self.frames@, p);
                    lemma_concat_all_push(self.encoded@, frame@);
                    assert(self.encoded@.push(frame@).subrange(0, self.encoded@.len() as int)
                        =~= self.encoded@);
                    assert(concat_all(self.frames@.push(p)) + Seq::<u8>::empty() =~= self.accepted@);
                    assert forall|i: int| 0 <= i < self.frames@.push(p).len() implies (
                    #[trigger] self.frames@.push(p)[i]).len() > 0 && is_frame_of(
                        self.encoded@.push(frame@)[i],
                        self.frames@.push(p)[i],
                    ) by {
                        if i < self.frames@.len() {
                            assert(self.frames@.push(p)[i] == self.frames@[i]);
                            assert(self.encoded@.push(frame@)[i] == self.encoded@[i]);
                        }
                    }
                    self.frames@ = self.frames@.push(p);
                    self.encoded@ = self.encoded@.push(frame@);
                }
                self.outbuf.append(&mut frame);
                self.inbuf = Vec::new();
                Ok(())
            },
        }
    }

    /// Sets the limit of input bytes per frame for later writes.
    pub fn set_frame_max(&mut self, max: usize)
        requires
            old(self).wf(),
            old(self).pending().len() == 0,
            0 < max < zstd_max_input(),
        ensures
            final(self).wf(),
            final(self).frames_valid(),
            final(self).frame_max() == max,
            final(self).pending() == old(self).pending(),
            final(self).output() == old(self).output(),
            final(self).accepted() == old(self).accepted(),
            final(self).frames() == old(self).frames(),
            final(self).encoded() == old(self).encoded(),
    {
        self.frame_max_content = max;
    }

    /// The compressed stream, once nothing is pending.
    pub fn finish(self) -> (r: Vec<u8>)
        requires
            self.wf(),
            self.pending().len() == 0,
        ensures
            r@ == self.output(),
            r@ == concat_all(self.encoded()),
    {
        self.outbuf
    }
}

/// Appends `src` to `dst`.
fn append_bytes(dst: &mut Vec<u8>, src: &[u8])
    ensures
        final(dst)@ == old(dst)@ + src@,
{
    let mut i: usize = 0;
    while i < src.len()
        invariant
            i <= src@.len(),
            dst@ == old(dst)@ + src@.subrange(0, i as int),
        decreases src@.len() - i,
    {
        dst.push(src[i]);
        assert(src@.subrange(0, i + 1) =~= src@.subrange(0, i as int).push(src@[i as int]));
        i = i + 1;
    }
    assert(src@.subrange(0, i as int) =~= src@);
}

/// A payload compressor of one of the supported kinds.
pub enum Compressor {
    Uncompressed(Vec<u8>),
    Gzip(GzStream),
    Zstd(CompressorZstd),
    Xz(XzStream),
    Bzip2(BzStream),
}

impl Compressor {
    pub open spec fn wf(&self) -> bool {
        match self {
            Compressor::Zstd(cz) => cz.wf(),
            _ => true,
        }
    }

    /// The kind of codec.
    pub open spec fn kind(&self) -> CompressionType {
        match self {
            Compressor::Uncompressed(_) => CompressionType::Uncompressed,
            Compressor::Gzip(_) => CompressionType::Gzip,
            Compressor::Zstd(_) => CompressionType::Zstd,
            Compressor::Xz(_) => CompressionType::Xz,
            Compressor::Bzip2(_) => CompressionType::Bzip2,
        }
    }

    /// The number of bytes taken and not yet compressed into a frame.
    pub open spec fn pending_len(&self) -> nat {
        match self {
            Compressor::Zstd(cz) => cz.pending().len(),
            _ => 0,
        }
    }

    /// A compressor for the given setting. Levels that the codec refuses
    /// (gzip and xz above 9, bzip2 outside 1 to 9) are an error.
    pub fn try_from(value: CompressionWithLevel) -> (r: Result<Compressor, Error>)
        ensures
            match value {
                CompressionWithLevel::Gzip(l) if l > 9 => r matches Err(Error::InvalidLevel(e))
                    && e == l,
                CompressionWithLevel::Xz(l) if l > 9 => r matches Err(Error::InvalidLevel(e))
                    && e == l,
                CompressionWithLevel::Bzip2(l) if l < 1 || l > 9 => r matches Err(
                    Error::InvalidLevel(e),
                ) && e == l,
                _ => r matches Ok(c) && c.wf() && c.kind() == type_of(value) && c.pending_len()
                    == 0 && (c matches Compressor::Uncompressed(d) ==> d@.len() == 0) && (
                c matches Compressor::Zstd(cz) ==> cz.output().len() == 0 && cz.accepted().len()
                    == 0 && cz.frames().len() == 0 && cz.frames_valid() && cz.frame_max()
                    == FRAME_MAX_DEFAULT),
            },
    {
        match value {
            CompressionWithLevel::Uncompressed => Ok(Compressor::Uncompressed(Vec::new())),
            CompressionWithLevel::Gzip(level) => {
                if level > 9 {
                    Err(Error::InvalidLevel(level))
                } else {
                    Ok(Compressor::Gzip(gz_new(level)))
                }
            },
            CompressionWithLevel::Zstd(level) => Ok(Compressor::Zstd(CompressorZstd::new(level))),
            CompressionWithLevel::Xz(level) => {
                if level > 9 {
                    Err(Error::InvalidLevel(level))
                } else {
                    Ok(Compressor::Xz(xz_new(level)))
                }
            },
            CompressionWithLevel::Bzip2(level) => {
                if level < 1 || level > 9 {
                    Err(Error::InvalidLevel(level))
                } else {
                    Ok(Compressor::Bzip2(bz_new(level)))
                }
            },
        }
    }

    /// Takes `content`. Uncompressed, it is appended as it is; zstd cuts
    /// frames as `CompressorZstd::write` says; the streaming codecs take what
    /// their encoder takes.
    pub fn write(&mut self, content: &[u8]) -> (r: Result<usize, Error>)
        requires
            old(self).wf(),
        ensures
            final(self).wf(),
            final(self).kind() == old(self).kind(),
            r matches Ok(n) ==> n <= content@.len(),
            match (*old(self), *final(self)) {
                (Compressor::Uncompressed(d0), Compressor::Uncompressed(d1)) => r == Ok::<
                    usize,
                    Error,
                >(content@.len() as usize) && d1@ == d0@ + content@,
                (Compressor::Zstd(c0), Compressor::Zstd(c1)) => c1.frame_max() == c0.frame_max()
                    && c1.frames_valid() && r is Ok && match r {
                    Ok(n) => {
                        &&& n == content@.len()
                        &&& c1.accepted() == c0.accepted() + content@
                        &&& c0.frames().len() <= c1.frames().len()
                        &&& c1.frames().subrange(0, c0.frames().len() as int) == c0.frames()
                        &&& forall|i: int|
                            c0.frames().len() <= i < c1.frames().len() ==> (
                            #[trigger] c1.frames()[i]).len() == c0.frame_max()
                        &&& concat_all(
                            c1.frames().subrange(c0.frames().len() as int, c1.frames().len() as int),
                        ) + c1.pending() == c0.pending() + content@
                    },
                    Err(_) => c1.same_model(&c0),
                },
                _ => true,
            },
    {
        match self {
            Compressor::Uncompressed(data) => {
                append_bytes(data, content);
                Ok(content.len())
            },
            Compressor::Gzip(encoder) => match gz_write(encoder, content) {
                Ok(n) => Ok(n),
                Err(e) => Err(Error::Io(e)),
            },
            Compressor::Zstd(cz) => cz.write(content),
            Compressor::Xz(encoder) => match xz_write(encoder, content) {
                Ok(n) => Ok(n),
                Err(e) => Err(Error::Io(e)),
            },
            Compressor::Bzip2(encoder) => match bz_write(encoder, content) {
                Ok(n) => Ok(n),
                Err(e) => Err(Error::Io(e)),
            },
        }
    }

    /// Flushes the codec. For zstd, all pending input becomes one last frame
    /// as `CompressorZstd::flush` says; uncompressed, nothing changes.
    pub fn flush(&mut self) -> (r: Result<(), Error>)
        requires
            old(self).wf(),
        ensures
            final(self).wf(),
            final(self).kind() == old(self).kind(),
            match (*old(self), *final(self)) {
                (Compressor::Uncompressed(d0), Compressor::Uncompressed(d1)) => r is Ok && d1@
                    == d0@,
                (Compressor::Zstd(c0), Compressor::Zstd(c1)) => c1.frame_max() == c0.frame_max()
                    && c1.frames_valid() && r is Ok && match r {
                    Ok(_) => {
                        &&& c1.pending().len() == 0
                        &&& c1.accepted() == c0.accepted()
                        &&& c1.frames() == if c0.pending().len() == 0 {
                            c0.frames()
                        } else {
                            c0.frames().push(c0.pending())
                        }
                    },
                    Err(_) => c1.same_model(&c0),
                },
                _ => true,
            },
    {
        match self {
            Compressor::Uncompressed(_) => Ok(()),
            Compressor::Gzip(encoder) => match gz_flush(encoder) {
                Ok(_) => Ok(()),
                Err(e) => Err(Error::Io(e)),
            },
            Compressor::Zstd(cz) => cz.flush(),
            Compressor::Xz(encoder) => match xz_flush(encoder) {
                Ok(_) => Ok(()),
                Err(e) => Err(Error::Io(e)),
            },
            Compressor::Bzip2(encoder) => match bz_flush(encoder) {
                Ok(_) => Ok(()),
                Err(e) => Err(Error::Io(e)),
            },
        }
    }

    /// Ends the stream and gives the compressed payload. Pending zstd input
    /// must have been flushed first.
    pub fn finish_compression(self) -> (r: Result<Vec<u8>, Error>)
        requires
            self.wf(),
            self.pending_len() == 0,
        ensures
            self matches Compressor::Uncompressed(d) ==> (r matches Ok(v) && v@ == d@),
            self matches Compressor::Zstd(cz) ==> (r matches Ok(v) && v@ == cz.output() && v@
                == concat_all(cz.encoded())),
    {
        match self {
            Compressor::Uncompressed(data) => Ok(data),
            Compressor::Gzip(encoder) => match gz_finish(encoder) {
                Ok(v) => Ok(v),
                Err(e) => Err(Error::Io(e)),
            },
            Compressor::Zstd(cz) => Ok(cz.finish()),
            Compressor::Xz(encoder) => match xz_finish(encoder) {
                Ok(v) => Ok(v),
                Err(e) => Err(Error::Io(e)),
            },
            Compressor::Bzip2(encoder) => match bz_finish(encoder) {
                Ok(v) => Ok(v),
                Err(e) => Err(Error::Io(e)),
            },
        }
    }

    /// Sets the limit of input bytes per frame for later writes; only the
    /// zstd codec has frames. Nothing may be pending.
    pub fn set_frame_content_limit(&mut self, max: usize) -> (r: Result<(), Error>)
        requires
            old(self).wf(),
            old(self).pending_len() == 0,
            old(self).kind() == CompressionType::Zstd ==> 0 < max < zstd_max_input(),
        ensures
            final(self).wf(),
            final(self).kind() == old(self).kind(),
            old(self).kind() == CompressionType::Zstd ==> r is Ok,
            old(self).kind() != CompressionType::Zstd ==> (r matches Err(Error::Unsupported)
                && *final(self) == *old(self)),
            match (*old(self), *final(self)) {
                (Compressor::Zstd(c0), Compressor::Zstd(c1)) => {
                    &&& c1.frames_valid()
                    &&& c1.frame_max() == max
                    &&& c1.pending() == c0.pending()
                    &&& c1.output() == c0.output()
                    &&& c1.accepted() == c0.accepted()
                    &&& c1.frames() == c0.frames()
                    &&& c1.encoded() == c0.encoded()
                },
                _ => true,
            },
    {
        match self {
            Compressor::Zstd(cz) => {
                cz.set_frame_max(max);
                Ok(())
            },
            _ => Err(Error::Unsupported),
        }
    }
}

/// What the frames of `encoded` decode to, frame by frame.
pub open spec fn decoded_frames(encoded: Seq<Seq<u8>>) -> Seq<Seq<u8>> {
    encoded.map_values(|f: Seq<u8>| zstd_decoded(f))
}

/// Decoding the frames of a zstd compressor in order, followed by what is
/// still pending, gives back exactly the bytes written to it; its output is
/// those frames' bytes in order; every frame is one complete zstd frame that
/// declares the length of its input, which is never empty; less than one
/// frame limit of input is pending.
pub proof fn lemma_frames_round_trip(c: &CompressorZstd)
    requires
        c.wf(),
    ensures
        concat_all(decoded_frames(c.encoded())) + c.pending() == c.accepted(),
        concat_all(c.frames()) + c.pending() == c.accepted(),
        c.output() == concat_all(c.encoded()),
        c.frames_valid(),
        forall|i: int| 0 <= i < c.frames().len() ==> (#[trigger] c.frames()[i]).len() > 0,
        c.pending().len() < c.frame_max(),
{
    assert(decoded_frames(c.encoded()) =~= c.frames());
}

proof fn lemma_concat_all_len(f: Seq<Seq<u8>>, m: nat)
    requires
        forall|i: int| 0 <= i < f.len() ==> (#[trigger] f[i]).len() == m,
    ensures
        concat_all(f).len() == f.len() * m,
    decreases f.len(),
{
    if f.len() > 0 {
        let g = f.drop_last();
        assert forall|i: int| 0 <= i < g.len() implies (#[trigger] g[i]).len() == m by {
            assert(g[i] == f[i]);
        }
        lemma_concat_all_len(g, m);
        assert(f.len() * m == g.len() * m + m) by (nonlinear_arith)
            requires
                f.len() == g.len() + 1,
        ;
    }
}

proof fn lemma_concat_all_injective(fa: Seq<Seq<u8>>, fb: Seq<Seq<u8>>, m: nat)
    requires
        fa.len() == fb.len(),
        forall|i: int| 0 <= i < fa.len() ==> (#[trigger] fa[i]).len() == m,
        forall|i: int| 0 <= i < fb.len() ==> (#[trigger] fb[i]).len() == m,
        concat_all(fa) == concat_all(fb),
    ensures
        fa == fb,
    decreases fa.len(),
{
    if fa.len() > 0 {
        let (ga, gb) = (fa.drop_last(), fb.drop_last());
        assert forall|i: int| 0 <= i < ga.len() implies (#[trigger] ga[i]).len() == m by {
            assert(ga[i] == fa[i]);
        }
        assert forall|i: int| 0 <= i < gb.len() implies (#[trigger] gb[i]).len() == m by {
            assert(gb[i] == fb[i]);
        }
        lemma_concat_all_len(ga, m);
        lemma_concat_all_len(gb, m);
        let n = concat_all(ga).len();
        assert(concat_all(fa) == concat_all(ga) + fa.last());
        assert(concat_all(fb) == concat_all(gb) + fb.last());
        assert(concat_all(ga) =~= concat_all(fa).subrange(0, n as int));
        assert(concat_all(gb) =~= concat_all(fb).subrange(0, n as int));
        assert(fa.last() =~= concat_all(fa).subrange(n as int, concat_all(fa).len() as int));
        assert(fb.last() =~= concat_all(fb).subrange(n as int, concat_all(fb).len() as int));
        lemma_concat_all_injective(ga, gb, m);
        assert(fa =~= ga.push(fa.last()));
        assert(fb =~= gb.push(fb.last()));
    }
}

/// Where every frame holds exactly the frame limit (as `write` cuts them),
/// the frames and the pending input depend only on the bytes written, not on
/// how they were split into calls: two such compressors that took the same
/// bytes have the same frames, which decode to the same bytes and declare
/// the same sizes. `flush` then adds the same pending bytes as the last frame.
pub proof fn lemma_frames_depend_only_on_input(a: &CompressorZstd, b: &CompressorZstd)
    requires
        a.wf(),
        b.wf(),
        a.accepted() == b.accepted(),
        a.frame_max() == b.frame_max(),
        forall|i: int| 0 <= i < a.frames().len() ==> (#[trigger] a.frames()[i]).len() == a.frame_max(),
        forall|i: int| 0 <= i < b.frames().len() ==> (#[trigger] b.frames()[i]).len() == b.frame_max(),
    ensures
        a.frames() == b.frames(),
        a.pending() == b.pending(),
        decoded_frames(a.encoded()) == decoded_frames(b.encoded()),
{
    let m = a.frame_max();
    lemma_frames_round_trip(a);
    lemma_frames_round_trip(b);
    let (fa, fb) = (a.frames(), b.frames());
    lemma_concat_all_len(fa, m);
    lemma_concat_all_len(fb, m);
    let (ka, kb) = (fa.len(), fb.len());
    let (pa, pb) = (a.pending().len(), b.pending().len());
    assert(concat_all(fa) + a.pending() == concat_all(fb) + b.pending());
    assert((concat_all(fa) + a.pending()).len() == concat_all(fa).len() + pa);
    assert((concat_all(fb) + b.pending()).len() == concat_all(fb).len() + pb);
    assert(ka * m + pa == kb * m + pb);
    assert(ka == kb) by (nonlinear_arith)
        requires
            ka * m + pa == kb * m + pb,
            pa < m,
            pb < m,
    ;
    let n = concat_all(fa).len();
    assert(concat_all(fa) =~= a.accepted().subrange(0, n as int));
    assert(concat_all(fb) =~= b.accepted().subrange(0, n as int));
    assert(a.pending() =~= a.accepted().subrange(n as int, a.accepted().len() as int));
    assert(b.pending() =~= b.accepted().subrange(n as int, b.accepted().len() as int));
    lemma_concat_all_injective(fa, fb, m);
    assert(decoded_frames(a.encoded()) =~= fa);
    assert(decoded_frames(b.encoded()) =~= fb);
}

} // verus!
