//! The ways in which an extraction fails.

use vstd::prelude::*;

verus! {

/// Why an extraction stopped. Every failure ends the run: nothing is tried
/// again.
#[derive(Debug, Clone, Copy, PartialEq, Eq, Structural)]
pub enum UnpackError {
    /// The image is no executable of the expected format.
    InvalidImage,
    /// The image lacks a resource that is needed.
    ResourceNotFound,
    /// A compressed stream was rejected.
    ZlibError,
    /// The container was read, but holds no trainer definition.
    InvalidArchive,
    /// The container's bytes break its layout: a length runs past the end,
    /// or a name is no UTF-8. Also given where the expanded definition is
    /// shorter than the header to drop in front of it.
    MalformedArchive,
    /// The deobfuscated payload does not start with the trainer signature.
    BadMagic,
    /// No file name to derive the output's name from.
    BadFilename,
}

} // verus!
