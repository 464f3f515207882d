//! Frame-bounded zstd payloads for encoded (pre-compressed) writes: a
//! compressor that emits size-capped frames, the alignment of archive entry
//! data, and the per-frame decisions of the payload installer.
pub mod align;
pub mod codec;
pub mod compression;
pub mod compressor;
pub mod install;
