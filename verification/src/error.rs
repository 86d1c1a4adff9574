//! The conditions that end a conversion.

use vstd::prelude::*;

verus! {

/// Why a conversion cannot go on. None of these is recovered from.
#[derive(Debug, PartialEq, Eq)]
pub enum Cue2CCDError {
    /// The cuesheet cannot be worked with: it has no track where one is
    /// needed, more tracks or indices than a disc holds, a position out of
    /// range, or not one file length for each track.
    UnusableCuesheet,
    /// Files that the cuesheet names are missing; their names, in cuesheet
    /// order.
    MissingFilesError { missing_files: Vec<String> },
    /// A sidecar in the SBI format does not start with the SBI magic.
    InvalidSBIError,
    /// The entry count of an LSD sidecar is none that the requested
    /// protection scheme is known by.
    InvalidProtectionLSDError,
    /// The entry count of an SBI sidecar is none that the requested
    /// protection scheme is known by.
    InvalidProtectionSBIError,
    /// A track is stored in a wave file instead of a raw image.
    WaveFile,
    /// A track holds cooked data: sectors without their raw framing.
    CookedData,
    /// No track and index of the disc own this sector.
    CoverageGap { sector: i64 },
}

} // verus!
