//! Decoder for a block-compressed game-asset archive format.
//!
//! Two binary layers are decoded: a *bundle* (a fixed-layout header, a block
//! size table, and a sequence of independently compressed payload blocks) and
//! an *index* (three tables mapping logical files into bundles, read from the
//! decompressed payload of the distinguished index bundle). Decompression
//! itself is an external capability; everything around it is verified.

pub mod bundle;
pub mod error;
pub mod header;
pub mod index;
pub mod raw;

pub use bundle::Bundle;
pub use bundle::DecompressCapability;
pub use error::BundleDataErr;
pub use header::BundleHeader;
pub use index::IndexBundle;
pub use index::IndexBundleInfo;
pub use index::IndexFileInfo;
pub use index::IndexPathInfo;
pub use raw::to_u32;
pub use raw::to_u64;
