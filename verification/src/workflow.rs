//! Parameters of the workflows the interface can start.

use std::path::PathBuf;
use vstd::prelude::*;

use crate::compression::CompressionFormat;
use crate::hash::HashAlg;

verus! {

/// Parameters for starting a new hashing operation.
#[derive(Debug, PartialEq, Eq, Clone)]
pub struct HashWorkflow {
    /// File to use
    pub file: PathBuf,
    /// Algorithm to run
    pub alg: HashAlg,
    /// How to decompress the file before performing hash (if at all).
    pub compression: CompressionFormat,
}

} // verus!
