//! Compression formats an image may be stored in.

use vstd::prelude::*;

verus! {

/// How an image file is compressed. `Identity` means not compressed; the logic
/// of this crate only tells the formats apart and decompresses nothing.
#[derive(Debug, Clone, Copy, PartialEq, Eq, Structural, Hash)]
pub enum CompressionFormat {
    /// Not compressed.
    Identity,
    Gzip,
    Bzip2,
    Xz,
    Lz4,
}

} // verus!
