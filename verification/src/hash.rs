//! Hash algorithms that an image can be checked against.

use vstd::prelude::*;

verus! {

/// A hash algorithm that an image's hash can be computed with. The logic of this
/// crate only tells the algorithms apart; it computes no hash.
#[derive(Debug, Clone, Copy, PartialEq, Eq, Structural, Hash)]
pub enum HashAlg {
    Md5,
    Sha1,
    Sha224,
    Sha256,
    Sha384,
    Sha512,
}

} // verus!
