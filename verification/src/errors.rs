//! Error kinds shared by the archive multiplexer, the atlas slicer and the
//! run driver. Every error aborts the whole run; there is no recovery.

use vstd::prelude::*;

use crate::pos::AtlasPos;

verus! {

/// What can go wrong while resolving entries and slicing atlases.
///
/// `ArchiveOpen` names the archive file that could not be opened or is not a
/// valid ZIP container. `NotFound` names the logical file absent from every
/// (archive, prefix) pair. `Decode` marks atlas bytes that are not a valid
/// PNG image. `OutOfBounds` carries the first mapped coordinate whose cell
/// exceeds the source image bounds.
#[derive(Debug, PartialEq, Eq)]
pub enum Error {
    ArchiveOpen(String),
    NotFound(String),
    Decode,
    OutOfBounds(AtlasPos),
}

} // verus!
