//! Error kinds surfaced by every decode layer. Each failure mode is a
//! distinct variant; no layer reports errors as bare strings.

use vstd::prelude::*;

verus! {

/// The error type shared by the whole decoding pipeline.
#[derive(Debug)]
pub enum Error {
    /// The underlying byte source could not satisfy a read.
    Io,
    /// A buffer was exhausted in the middle of a primitive read.
    Truncated,
    /// An on-disk class version exceeds the newest one this reader handles.
    UnsupportedVersion { class: String, vers: i16, max: i16 },
    /// The file does not start with the expected magic bytes.
    MagicMismatch,
    /// A compressed block's stored checksum does not match its payload.
    ChecksumMismatch,
    /// No key with the requested name and cycle exists in the directory.
    KeyNotFound { name: String, cycle: i16 },
    /// The named object is not present in the top directory.
    ObjectNotInDirectory(String),
    /// A decoded branch violates the basket-table invariants.
    MalformedBranch,
    /// A class tag names neither a built-in decoder nor a catalogued schema.
    UnknownClass(String),
    /// The element layout of a branch does not fit the requested item type.
    TypeMismatch { branch_type: String, requested_type: String },
    /// A compressed block failed to decompress; carries the algorithm tag
    /// and what went wrong.
    Decompression(String, String),
}

pub type Result<T> = core::result::Result<T, Error>;

} // verus!
