//! Payload compression kinds and levels.
use vstd::prelude::*;
use vstd::string::StringSliceAdditionalSpecFns;

verus! {

/// An error of the payload compressors.
pub enum Error {
    /// A compressor name that is not one of the supported kinds.
    UnknownCompressorType(String),
    /// A compression level outside the range that the codec accepts.
    InvalidLevel(u32),
    /// An operation that the selected codec does not offer.
    Unsupported,
    /// An error code of the zstd library.
    Zstd(usize),
    /// An I/O error reported by a streaming codec.
    Io(std::io::Error),
}

/// Supported payload compression types.
#[derive(Clone, Copy, Debug, PartialEq, Eq, Structural)]
pub enum CompressionType {
    Uncompressed,
    Gzip,
    Zstd,
    Xz,
    Bzip2,
}

impl Default for CompressionType {
    fn default() -> (r: Self)
        ensures
            r == CompressionType::Uncompressed,
    {
        CompressionType::Uncompressed
    }
}

/// The name under which a compression type is written in package metadata.
pub open spec fn kind_name(t: CompressionType) -> Seq<u8> {
    match t {
        CompressionType::Uncompressed => seq![110u8, 111, 110, 101],
        CompressionType::Gzip => seq![103u8, 122, 105, 112],
        CompressionType::Zstd => seq![122u8, 115, 116, 100],
        CompressionType::Xz => seq![120u8, 122],
        CompressionType::Bzip2 => seq![98u8, 122, 105, 112, 50],
    }
}

/// The compressed type that a name selects; "none" selects nothing.
pub open spec fn type_of_name(name: Seq<u8>) -> Option<CompressionType> {
    if name == kind_name(CompressionType::Gzip) {
        Some(CompressionType::Gzip)
    } else if name == kind_name(CompressionType::Zstd) {
        Some(CompressionType::Zstd)
    } else if name == kind_name(CompressionType::Xz) {
        Some(CompressionType::Xz)
    } else if name == kind_name(CompressionType::Bzip2) {
        Some(CompressionType::Bzip2)
    } else {
        None
    }
}

/// Whether two byte slices are equal.
pub(crate) fn bytes_eq(a: &[u8], b: &[u8]) -> (r: bool)
    ensures
        r == (a@ == b@),
{
    if a.len() != b.len() {
        return false;
    }
    let mut i: usize = 0;
    while i < a.len()
        invariant
            a@.len() == b@.len(),
            i <= a@.len(),
            a@.subrange(0, i as int) == b@.subrange(0, i as int),
        decreases a@.len() - i,
    {
        if a[i] != b[i] {
            assert(a@[i as int] != b@[i as int]);
            return false;
        }
        assert(a@.subrange(0, i + 1) =~= a@.subrange(0, i as int).push(a@[i as int]));
        assert(b@.subrange(0, i + 1) =~= b@.subrange(0, i as int).push(b@[i as int]));
        i = i + 1;
    }
    assert(a@ =~= a@.subrange(0, i as int));
    assert(b@ =~= b@.subrange(0, i as int));
    true
}

impl CompressionType {
    /// Parses the name of a compressed payload type.
    pub fn from_str(raw: &str) -> (r: Result<CompressionType, Error>)
        ensures
            match type_of_name(raw.spec_bytes()) {
                Some(t) => r == Ok::<CompressionType, Error>(t),
                None => r matches Err(Error::UnknownCompressorType(s)) && s@ == raw@,
            },
    {
        let b = raw.as_bytes();
        let gzip: Vec<u8> = vec![103u8, 122, 105, 112];
        let zstd: Vec<u8> = vec![122u8, 115, 116, 100];
        let xz: Vec<u8> = vec![120u8, 122];
        let bzip2: Vec<u8> = vec![98u8, 122, 105, 112, 50];
        assert(gzip@ =~= kind_name(CompressionType::Gzip));
        assert(zstd@ =~= kind_name(CompressionType::Zstd));
        assert(xz@ =~= kind_name(CompressionType::Xz));
        assert(bzip2@ =~= kind_name(CompressionType::Bzip2));
        if bytes_eq(b, gzip.as_slice()) {
            Ok(CompressionType::Gzip)
        } else if bytes_eq(b, zstd.as_slice()) {
            Ok(CompressionType::Zstd)
        } else if bytes_eq(b, xz.as_slice()) {
            Ok(CompressionType::Xz)
        } else if bytes_eq(b, bzip2.as_slice()) {
            Ok(CompressionType::Bzip2)
        } else {
            Err(Error::UnknownCompressorType(raw.to_owned()))
        }
    }
}

/// Supported compression types, with an associated compression level.
#[derive(Clone, Copy, Debug, PartialEq, Eq, Structural)]
pub enum CompressionWithLevel {
    Uncompressed,
    Zstd(i32),
    Gzip(u32),
    Xz(u32),
    Bzip2(u32),
}

/// The type of a compression setting, without its level.
pub open spec fn type_of(c: CompressionWithLevel) -> CompressionType {
    match c {
        CompressionWithLevel::Uncompressed => CompressionType::Uncompressed,
        CompressionWithLevel::Gzip(_) => CompressionType::Gzip,
        CompressionWithLevel::Zstd(_) => CompressionType::Zstd,
        CompressionWithLevel::Xz(_) => CompressionType::Xz,
        CompressionWithLevel::Bzip2(_) => CompressionType::Bzip2,
    }
}

/// The setting of each type at its default level.
pub open spec fn default_level(t: CompressionType) -> CompressionWithLevel {
    match t {
        CompressionType::Uncompressed => CompressionWithLevel::Uncompressed,
        CompressionType::Gzip => CompressionWithLevel::Gzip(9),
        CompressionType::Xz => CompressionWithLevel::Xz(9),
        CompressionType::Zstd => CompressionWithLevel::Zstd(19),
        CompressionType::Bzip2 => CompressionWithLevel::Bzip2(9),
    }
}

impl CompressionWithLevel {
    pub fn compression_type(&self) -> (r: CompressionType)
        ensures
            r == type_of(*self),
    {
        match self {
            Self::Uncompressed => CompressionType::Uncompressed,
            Self::Gzip(_) => CompressionType::Gzip,
            Self::Zstd(_) => CompressionType::Zstd,
            Self::Xz(_) => CompressionType::Xz,
            Self::Bzip2(_) => CompressionType::Bzip2,
        }
    }
}

impl Default for CompressionWithLevel {
    fn default() -> (r: Self)
        ensures
            r == CompressionWithLevel::Gzip(9),
    {
        CompressionWithLevel::from(CompressionType::Gzip)
    }
}

impl From<CompressionType> for CompressionWithLevel {
    fn from(value: CompressionType) -> (r: Self) {
        match value {
            CompressionType::Uncompressed => CompressionWithLevel::Uncompressed,
            CompressionType::Gzip => CompressionWithLevel::Gzip(9),
            CompressionType::Xz => CompressionWithLevel::Xz(9),
            CompressionType::Zstd => CompressionWithLevel::Zstd(19),
            CompressionType::Bzip2 => CompressionWithLevel::Bzip2(9),
        }
    }
}

impl vstd::std_specs::convert::FromSpecImpl<CompressionType> for CompressionWithLevel {
    open spec fn obeys_from_spec() -> bool {
        true
    }

    open spec fn from_spec(v: CompressionType) -> Self {
        default_level(v)
    }
}

} // verus!
