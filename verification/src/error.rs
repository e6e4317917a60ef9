use vstd::prelude::*;

verus! {

/// The two ways a decode can fail: the raw bytes do not fit the format, or
/// the external codec could not reproduce a block's plaintext.
#[derive(Debug, Clone, Copy, PartialEq, Eq, Structural)]
pub enum BundleDataErr {
    DataCorrupted,
    DecompressionFailed,
}

impl BundleDataErr {
    /// A short human-readable description of the error.
    pub fn message(&self) -> (r: &'static str)
        ensures
            r@ == match self {
                BundleDataErr::DataCorrupted => "data corrupted"@,
                BundleDataErr::DecompressionFailed => "decompression failed"@,
            },
    {
        match self {
            BundleDataErr::DataCorrupted => "data corrupted",
            BundleDataErr::DecompressionFailed => "decompression failed",
        }
    }
}

} // verus!
