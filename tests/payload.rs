use std::io::{Read, Write};
use encodio::align::{align_name, archive_padlen, hdr_fname_align, NEWC_HDR_LEN};
use encodio::compression::{CompressionType, CompressionWithLevel, Error};
use encodio::compressor::{Compressor, FRAME_MAX_DEFAULT};
use encodio::install::{
    check_copy_len, classify_frame, next_frame, FrameClass, payload_is_frame_addressable, plain_step, FrameStep,
    InstallError, PayloadCursor, ENCODED_IO_COMPRESSION_ZSTD, ENCODED_IO_ENCRYPTION_NONE,
};

/// Compressible bytes that still vary along the buffer.
fn sample(n: usize) -> Vec<u8> {
    let mut v = Vec::with_capacity(n);
    let mut x: u32 = 12345;
    for i in 0..n {
        x = x.wrapping_mul(1103515245).wrapping_add(12345);
        let b = if i % 7 == 0 { (x >> 24) as u8 % 16 } else { b"usr/bin/tool "[i % 13] };
        v.push(b);
    }
    v
}

fn zstd_payload(data: &[u8], frame_max: Option<usize>) -> Vec<u8> {
    let mut c = Compressor::try_from(CompressionWithLevel::Zstd(15)).ok().unwrap();
    if let Some(m) = frame_max {
        assert!(c.set_frame_content_limit(m).is_ok());
    }
    assert_eq!(c.write(data).ok(), Some(data.len()));
    assert!(c.flush().is_ok());
    c.finish_compression().ok().unwrap()
}

/// Splits a payload into its frames.
fn frames_of(payload: &[u8]) -> Vec<Vec<u8>> {
    let mut out = Vec::new();
    let mut off = 0;
    while off < payload.len() {
        let n = zstd_safe::find_frame_compressed_size(&payload[off..]).unwrap();
        out.push(payload[off..off + n].to_vec());
        off += n;
    }
    out
}

fn decompress(frame: &[u8], cap: usize) -> Vec<u8> {
    let mut out: Vec<u8> = Vec::with_capacity(cap);
    zstd_safe::decompress(&mut out, frame).unwrap();
    out
}

/// Installs a payload into memory, doing what the kernel would for an
/// encoded write.
fn install_in_memory(payload: &[u8]) -> Result<(Vec<u8>, usize, usize), InstallError> {
    let mut file: Vec<u8> = Vec::new();
    let mut cur = PayloadCursor::start();
    let (mut plain, mut encoded) = (0, 0);
    loop {
        match next_frame(payload, &cur)? {
            FrameStep::Done => return Ok((file, plain, encoded)),
            FrameStep::Plain { offset, data, next } => {
                let end = offset as usize + data.len();
                if file.len() < end {
                    file.resize(end, 0);
                }
                file[offset as usize..end].copy_from_slice(&data);
                cur = next;
                plain += 1;
            }
            FrameStep::Encoded { request, next } => {
                let frame = &payload[request.data_off..request.data_off + request.data_len];
                let data = decompress(frame, request.unencoded_len as usize);
                assert_eq!(data.len() as u64, request.len);
                let off = request.offset as usize;
                if file.len() < off + data.len() {
                    file.resize(off + data.len(), 0);
                }
                file[off..off + data.len()].copy_from_slice(&data);
                cur.after_encoded_write(&request, next, request.data_len as i64)?;
                encoded += 1;
            }
        }
    }
}

#[test]
fn round_trip_for_several_frame_limits() {
    let data = sample(300_000);
    for m in [1usize, 4096, 10_000, 131_072, 500_000] {
        if m == 1 {
            let small = sample(50);
            let frames = frames_of(&zstd_payload(&small, Some(1)));
            assert_eq!(frames.len(), 50);
            let joined: Vec<u8> = frames.iter().flat_map(|f| decompress(f, 1)).collect();
            assert_eq!(joined, small);
            continue;
        }
        let payload = zstd_payload(&data, Some(m));
        let frames = frames_of(&payload);
        assert_eq!(frames.len(), (data.len() + m - 1) / m);
        let joined: Vec<u8> = frames.iter().flat_map(|f| decompress(f, m)).collect();
        assert_eq!(joined, data);
    }
}

#[test]
fn frames_declare_their_content_size() {
    let data = sample(200_000);
    let frames = frames_of(&zstd_payload(&data, Some(65_536)));
    let sizes: Vec<u64> = frames
        .iter()
        .map(|f| zstd_safe::get_frame_content_size(f).unwrap().unwrap())
        .collect();
    assert_eq!(sizes, vec![65_536, 65_536, 65_536, 3_392]);
}

#[test]
fn writes_keep_remainder_until_flush() {
    let data = sample(10_000);
    let mut c = Compressor::try_from(CompressionWithLevel::Zstd(3)).ok().unwrap();
    assert!(c.set_frame_content_limit(4_096).is_ok());
    for piece in data.chunks(1_000) {
        assert_eq!(c.write(piece).ok(), Some(piece.len()));
    }
    assert!(c.flush().is_ok());
    assert!(c.flush().is_ok());
    let payload = c.finish_compression().ok().unwrap();
    let frames = frames_of(&payload);
    assert_eq!(frames.len(), 3);
    let joined: Vec<u8> = frames.iter().flat_map(|f| decompress(f, 4096)).collect();
    assert_eq!(joined, data);
}

#[test]
fn end_to_end_500k_tool_in_four_frames() {
    let tool = sample(500 * 1024);

    // the archive entry, its name padded so that the data is block aligned
    let name = String::from_utf8(hdr_fname_align("./usr/bin/tool")).unwrap();
    let mut entry = cpio::NewcBuilder::new(&name).mode(0o100755).write(Vec::new(), tool.len() as u32);
    entry.write_all(&tool).unwrap();
    let archive = cpio::newc::trailer(entry.finish().unwrap()).unwrap();
    assert_eq!(&archive[4096..4096 + tool.len()], &tool[..]);

    let payload = zstd_payload(&archive, None);
    let frames = frames_of(&payload);
    assert_eq!(frames.len(), 4);
    let sizes: Vec<u64> = frames
        .iter()
        .map(|f| zstd_safe::get_frame_content_size(f).unwrap().unwrap())
        .collect();
    assert_eq!(sizes[..3], [131_072, 131_072, 131_072]);
    assert!(sizes[3] > 0 && sizes[3] < 131_072);
    assert_eq!(sizes.iter().sum::<u64>(), archive.len() as u64);

    let (decoded, plain, encoded) = install_in_memory(&payload).unwrap();
    assert_eq!(decoded, archive);
    assert_eq!((plain, encoded), (0, 4));

    let mut reader = cpio::NewcReader::new(&decoded[..]).unwrap();
    assert_eq!(reader.entry().name().trim_end_matches('\0'), "./usr/bin/tool");
    assert_eq!(reader.entry().file_size() as usize, 500 * 1024);
    let mut extracted = Vec::new();
    reader.read_to_end(&mut extracted).unwrap();
    assert_eq!(extracted, tool);
    let rest = reader.finish().unwrap();
    assert!(cpio::NewcReader::new(rest).unwrap().entry().is_trailer());
}

#[test]
fn small_frames_are_written_decompressed() {
    let data = sample(10_000);
    let payload = zstd_payload(&data, Some(3_000));
    let (file, plain, encoded) = install_in_memory(&payload).unwrap();
    assert_eq!(file, data);
    assert_eq!((plain, encoded), (4, 0));
}

#[test]
fn routing_at_the_threshold() {
    let data = sample(4_096 + 4_095);
    let payload = zstd_payload(&data, Some(4_096));
    let cur = PayloadCursor::start();
    let first = next_frame(&payload, &cur).unwrap();
    let next = match first {
        FrameStep::Encoded { request, next } => {
            assert_eq!(request.data_off, 0);
            assert_eq!(request.offset, 0);
            assert_eq!(request.len, 4_096);
            assert_eq!(request.unencoded_len, 4_096);
            assert_eq!(request.unencoded_offset, 0);
            assert_eq!(request.compression, ENCODED_IO_COMPRESSION_ZSTD);
            assert_eq!(request.compression, 2);
            assert_eq!(request.encryption, ENCODED_IO_ENCRYPTION_NONE);
            assert_eq!(next.data_off, request.data_len);
            assert_eq!(next.uncompressed_off, 4_096);
            next
        }
        other => panic!("expected an encoded write, got {:?}", other),
    };
    match next_frame(&payload, &next).unwrap() {
        FrameStep::Plain { offset, data: d, next: after } => {
            assert_eq!(offset, 4_096);
            assert_eq!(d, data[4_096..].to_vec());
            assert_eq!(after.data_off, payload.len());
            assert_eq!(next_frame(&payload, &after).unwrap(), FrameStep::Done);
        }
        other => panic!("expected a decompressed write, got {:?}", other),
    }
}

#[test]
fn truncated_last_frame_is_refused() {
    let data = sample(9_000);
    let payload = zstd_payload(&data, Some(4_500));
    let cut = &payload[..payload.len() - 3];
    let first = next_frame(cut, &PayloadCursor::start()).unwrap();
    let next = match first {
        FrameStep::Encoded { next, .. } => next,
        other => panic!("expected an encoded write, got {:?}", other),
    };
    assert_eq!(next_frame(cut, &next), Err(InstallError::Truncated));
}

#[test]
fn frame_without_content_size_is_refused() {
    let mut ctx = zstd_safe::CCtx::create();
    ctx.set_parameter(zstd_safe::CParameter::ContentSizeFlag(false)).unwrap();
    let mut cstream: Vec<u8> = Vec::with_capacity(1024);
    ctx.compress2(&mut cstream, b"plain bytes").unwrap();
    assert_eq!(zstd_safe::get_frame_content_size(&cstream).unwrap(), None);
    assert_eq!(
        next_frame(&cstream, &PayloadCursor::start()),
        Err(InstallError::MissingContentSize)
    );
}

#[test]
fn garbage_is_refused() {
    let junk = vec![1u8, 2, 3, 4, 5, 6, 7, 8, 9, 10, 11, 12];
    assert!(next_frame(&junk, &PayloadCursor::start()).is_err());
    assert_eq!(next_frame(&[], &PayloadCursor::start()), Ok(FrameStep::Done));
}

#[test]
fn oversized_frame_is_refused() {
    let data = sample(200_000);
    let payload = zstd_payload(&data, Some(200_000));
    assert_eq!(
        next_frame(&payload, &PayloadCursor::start()),
        Err(InstallError::Oversized)
    );
}

#[test]
fn short_encoded_write_keeps_cursor() {
    let data = sample(8_192);
    let payload = zstd_payload(&data, Some(8_192));
    let cur0 = PayloadCursor::start();
    let (request, next) = match next_frame(&payload, &cur0).unwrap() {
        FrameStep::Encoded { request, next } => (request, next),
        other => panic!("expected an encoded write, got {:?}", other),
    };
    let mut cur = cur0;
    let short = request.data_len as i64 - 1;
    assert_eq!(
        cur.after_encoded_write(&request, next, short),
        Err(InstallError::LengthMismatch {
            expected: request.data_len as u64,
            got: short as u64
        })
    );
    assert_eq!(cur, cur0);
    assert_eq!(cur.after_encoded_write(&request, next, -5), Err(InstallError::Os(-5)));
    assert_eq!(cur, cur0);
    assert_eq!(cur.after_encoded_write(&request, next, request.data_len as i64), Ok(()));
    assert_eq!(cur, next);
    assert_eq!(cur.uncompressed_off, 8_192);
}

#[test]
fn plain_step_checks_decompressed_length() {
    let next = PayloadCursor { data_off: 10, uncompressed_off: 3 };
    assert_eq!(
        plain_step(Ok(vec![7u8, 8, 9]), 0, 3, next),
        Ok(FrameStep::Plain { offset: 0, data: vec![7, 8, 9], next })
    );
    assert_eq!(
        plain_step(Ok(vec![7u8, 8]), 0, 3, next),
        Err(InstallError::LengthMismatch { expected: 3, got: 2 })
    );
    assert_eq!(plain_step(Err(42), 0, 3, next), Err(InstallError::Decompress(42)));
}

#[test]
fn payload_kind_detection() {
    assert!(payload_is_frame_addressable("cpio", "zstd"));
    assert!(!payload_is_frame_addressable("cpio", "gzip"));
    assert!(!payload_is_frame_addressable("tar", "zstd"));
    assert!(!payload_is_frame_addressable("cpio", "zstd "));
}

#[test]
fn copy_length_check() {
    assert_eq!(check_copy_len(10, 10), Ok(()));
    assert_eq!(
        check_copy_len(9, 10),
        Err(InstallError::LengthMismatch { expected: 10, got: 9 })
    );
}

#[test]
fn padlen_values() {
    assert_eq!(archive_padlen(0, 4096), 0);
    assert_eq!(archive_padlen(1, 4096), 4095);
    assert_eq!(archive_padlen(4096, 4096), 0);
    assert_eq!(archive_padlen(130, 4096), 3966);
    assert_eq!(archive_padlen(5, 4), 3);
}

#[test]
fn name_alignment() {
    let path = "./usr/bin/vim-nox11";
    let padded = hdr_fname_align(path);
    assert_eq!(&padded[..path.len()], path.as_bytes());
    assert!(padded[path.len()..].iter().all(|b| *b == 0));
    assert_eq!((NEWC_HDR_LEN + padded.len() + 1) % 4096, 0);
    assert_eq!(padded.len(), 4096 - 110 - 1);

    // header, name and NUL exactly fill the block: no padding
    let exact = vec![b'a'; 4096 - 110 - 1];
    assert_eq!(hdr_fname_align(std::str::from_utf8(&exact).unwrap()), exact);
    // too long: unchanged
    let long = vec![b'b'; 4000];
    assert_eq!(hdr_fname_align(std::str::from_utf8(&long).unwrap()), long);

    assert_eq!(align_name(b"abc", 10, 16), vec![b'a', b'b', b'c', 0, 0]);
    assert_eq!(align_name(b"abc", 13, 16), b"abc".to_vec());
    assert_eq!(align_name(b"abc", 12, 16), b"abc".to_vec());
}

#[test]
fn compression_type_names() {
    assert_eq!(CompressionType::from_str("gzip").ok(), Some(CompressionType::Gzip));
    assert_eq!(CompressionType::from_str("zstd").ok(), Some(CompressionType::Zstd));
    assert_eq!(CompressionType::from_str("xz").ok(), Some(CompressionType::Xz));
    assert_eq!(CompressionType::from_str("bzip2").ok(), Some(CompressionType::Bzip2));
    match CompressionType::from_str("lz4") {
        Err(Error::UnknownCompressorType(s)) => assert_eq!(s, "lz4"),
        _ => panic!("lz4 must be unknown"),
    }
    assert!(CompressionType::from_str("none").is_err());
    assert_eq!(CompressionType::default(), CompressionType::Uncompressed);
}

#[test]
fn compression_levels() {
    assert_eq!(CompressionWithLevel::default(), CompressionWithLevel::Gzip(9));
    assert_eq!(CompressionWithLevel::from(CompressionType::Zstd), CompressionWithLevel::Zstd(19));
    assert_eq!(CompressionWithLevel::from(CompressionType::Xz), CompressionWithLevel::Xz(9));
    assert_eq!(CompressionWithLevel::from(CompressionType::Bzip2), CompressionWithLevel::Bzip2(9));
    assert_eq!(
        CompressionWithLevel::from(CompressionType::Uncompressed),
        CompressionWithLevel::Uncompressed
    );
    assert_eq!(CompressionWithLevel::Xz(3).compression_type(), CompressionType::Xz);
    assert_eq!(CompressionWithLevel::Zstd(1).compression_type(), CompressionType::Zstd);
    assert_eq!(CompressionWithLevel::Uncompressed.compression_type(), CompressionType::Uncompressed);
}

#[test]
fn streaming_codecs_compress() {
    let data = sample(20_000);
    for setting in [
        CompressionWithLevel::Gzip(6),
        CompressionWithLevel::Xz(6),
        CompressionWithLevel::Bzip2(6),
    ] {
        let mut c = Compressor::try_from(setting).ok().unwrap();
        let mut taken = 0;
        while taken < data.len() {
            taken += c.write(&data[taken..]).ok().unwrap();
        }
        assert!(c.flush().is_ok());
        assert!(matches!(c.set_frame_content_limit(4096), Err(Error::Unsupported)));
        let out = c.finish_compression().ok().unwrap();
        assert!(!out.is_empty());
        assert!(out.len() < data.len());
    }
}

#[test]
fn uncompressed_passes_bytes_through() {
    let mut c = Compressor::try_from(CompressionWithLevel::Uncompressed).ok().unwrap();
    assert_eq!(c.write(b"abc").ok(), Some(3));
    assert_eq!(c.write(b"de").ok(), Some(2));
    assert!(c.flush().is_ok());
    assert!(matches!(c.set_frame_content_limit(4096), Err(Error::Unsupported)));
    assert_eq!(c.finish_compression().ok().unwrap(), b"abcde".to_vec());
}

#[test]
fn invalid_levels_are_refused() {
    assert!(matches!(
        Compressor::try_from(CompressionWithLevel::Gzip(10)),
        Err(Error::InvalidLevel(10))
    ));
    assert!(matches!(
        Compressor::try_from(CompressionWithLevel::Xz(12)),
        Err(Error::InvalidLevel(12))
    ));
    assert!(matches!(
        Compressor::try_from(CompressionWithLevel::Bzip2(0)),
        Err(Error::InvalidLevel(0))
    ));
    assert!(Compressor::try_from(CompressionWithLevel::Gzip(0)).is_ok());
}

#[test]
fn default_frame_limit() {
    assert_eq!(FRAME_MAX_DEFAULT, 128 * 1024);
    let data = sample(FRAME_MAX_DEFAULT + 1);
    let frames = frames_of(&zstd_payload(&data, None));
    assert_eq!(frames.len(), 2);
}

#[test]
fn frame_longer_than_buffer_is_truncated() {
    assert_eq!(classify_frame(100, Ok(101), Some(Some(8_192)), 0), FrameClass::Truncated);
    assert_eq!(classify_frame(100, Ok(100), Some(Some(8_192)), 0), FrameClass::Large(100, 8_192));
    assert_eq!(classify_frame(100, Err(72), Some(Some(8_192)), 0), FrameClass::Truncated);
    assert_eq!(classify_frame(100, Ok(0), Some(Some(8_192)), 0), FrameClass::Truncated);
}

#[test]
fn frame_classes_at_the_limits() {
    assert_eq!(classify_frame(0, Err(1), None, 0), FrameClass::Done);
    assert_eq!(classify_frame(500, Ok(50), Some(Some(4_095)), 7), FrameClass::Small(50, 4_095));
    assert_eq!(classify_frame(500, Ok(50), Some(Some(4_096)), 7), FrameClass::Large(50, 4_096));
    assert_eq!(classify_frame(500, Ok(50), Some(Some(0)), 7), FrameClass::Small(50, 0));
    assert_eq!(
        classify_frame(200_000, Ok(131_072), Some(Some(131_072)), 0),
        FrameClass::Large(131_072, 131_072)
    );
    assert_eq!(
        classify_frame(200_000, Ok(131_073), Some(Some(4_096)), 0),
        FrameClass::Oversized
    );
    assert_eq!(classify_frame(500, Ok(50), Some(Some(131_073)), 0), FrameClass::Oversized);
    assert_eq!(classify_frame(500, Ok(50), None, 0), FrameClass::HeaderUnreadable);
    assert_eq!(classify_frame(500, Ok(50), Some(None), 0), FrameClass::MissingContentSize);
    assert_eq!(
        classify_frame(500, Ok(50), Some(Some(4_096)), i64::MAX as u64 - 4_095),
        FrameClass::OffsetOverflow
    );
    assert_eq!(
        classify_frame(500, Ok(50), Some(Some(4_096)), i64::MAX as u64 - 4_096),
        FrameClass::Large(50, 4_096)
    );
}

#[test]
fn incompressible_input_still_compresses() {
    let mut x: u64 = 0x9E37_79B9_7F4A_7C15;
    let noise: Vec<u8> = (0..20_000)
        .map(|_| {
            x ^= x << 13;
            x ^= x >> 7;
            x ^= x << 17;
            (x >> 32) as u8
        })
        .collect();
    let payload = zstd_payload(&noise, Some(4_096));
    assert!(payload.len() > noise.len());
    let frames = frames_of(&payload);
    assert_eq!(frames.len(), 5);
    let joined: Vec<u8> = frames.iter().flat_map(|f| decompress(f, 4_096)).collect();
    assert_eq!(joined, noise);
    let (file, plain, encoded) = install_in_memory(&payload).unwrap();
    assert_eq!(file, noise);
    assert_eq!((plain, encoded), (1, 4));
}

#[test]
fn split_of_writes_does_not_change_frames() {
    let data = sample(30_000);
    let one = zstd_payload(&data, Some(8_192));
    let mut c = Compressor::try_from(CompressionWithLevel::Zstd(15)).ok().unwrap();
    assert!(c.set_frame_content_limit(8_192).is_ok());
    for piece in data.chunks(777) {
        assert_eq!(c.write(piece).ok(), Some(piece.len()));
    }
    assert!(c.flush().is_ok());
    let pieces = c.finish_compression().ok().unwrap();
    let (fa, fb) = (frames_of(&one), frames_of(&pieces));
    assert_eq!(fa.len(), fb.len());
    for (a, b) in fa.iter().zip(fb.iter()) {
        assert_eq!(
            zstd_safe::get_frame_content_size(a).unwrap(),
            zstd_safe::get_frame_content_size(b).unwrap()
        );
        assert_eq!(decompress(a, 8_192), decompress(b, 8_192));
    }
}

#[test]
fn flush_with_nothing_pending_emits_nothing() {
    let mut c = Compressor::try_from(CompressionWithLevel::Zstd(3)).ok().unwrap();
    assert!(c.flush().is_ok());
    assert!(c.finish_compression().ok().unwrap().is_empty());

    let data = sample(8_192);
    let mut c = Compressor::try_from(CompressionWithLevel::Zstd(3)).ok().unwrap();
    assert!(c.set_frame_content_limit(4_096).is_ok());
    assert_eq!(c.write(&data).ok(), Some(8_192));
    assert!(c.flush().is_ok());
    let frames = frames_of(&c.finish_compression().ok().unwrap());
    assert_eq!(frames.len(), 2);
    for f in &frames {
        assert_eq!(zstd_safe::get_frame_content_size(f).unwrap(), Some(4_096));
    }
}
