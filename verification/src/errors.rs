use vstd::prelude::*;

verus! {

/// The error taxonomy of the platform core.
///
/// `InvalidArgument` marks caller-supplied data that violates a
/// precondition; `Malformed` marks persisted bytes that do not decode;
/// `IoError` a transient environmental failure; `MountFailure` a device
/// that no supported filesystem could mount; `SecurityViolation` a
/// master-key fingerprint mismatch; `ClockSkew` a system clock at or
/// before the epoch or beyond the signed 64-bit second range. The
/// remaining variants are the distinct outcomes of index-chunk
/// validation.
#[derive(Clone, Copy, Debug, PartialEq, Eq, Structural)]
pub enum TuffError {
    InvalidArgument,
    Malformed,
    IoError,
    MountFailure,
    SecurityViolation,
    ClockSkew,
    BadGeneration,
    Uncommitted,
    BadTimestamp,
    MissingVolumeName,
    EmptyVolumeName,
    BadRedundancy,
}

impl TuffError {
    /// A short human-readable description, for the binaries to print.
    pub fn describe(&self) -> (r: &'static str)
        ensures
            r@.len() > 0,
    {
        let s = match self {
            TuffError::InvalidArgument => "invalid argument",
            TuffError::Malformed => "malformed index chunk",
            TuffError::IoError => "I/O error",
            TuffError::MountFailure => "no supported filesystem for USB key",
            TuffError::SecurityViolation => "MK fingerprint mismatch",
            TuffError::ClockSkew => "system clock at or before the epoch, or out of range",
            TuffError::BadGeneration => "invalid generation",
            TuffError::Uncommitted => "index chunk not committed",
            TuffError::BadTimestamp => "invalid timestamp",
            TuffError::MissingVolumeName => "missing volume_name",
            TuffError::EmptyVolumeName => "volume_name is empty",
            TuffError::BadRedundancy => "invalid default_redundancy",
        };
        proof {
            reveal_strlit("invalid argument");
            reveal_strlit("malformed index chunk");
            reveal_strlit("I/O error");
            reveal_strlit("no supported filesystem for USB key");
            reveal_strlit("MK fingerprint mismatch");
            reveal_strlit("system clock at or before the epoch, or out of range");
            reveal_strlit("invalid generation");
            reveal_strlit("index chunk not committed");
            reveal_strlit("invalid timestamp");
            reveal_strlit("missing volume_name");
            reveal_strlit("volume_name is empty");
            reveal_strlit("invalid default_redundancy");
        }
        s
    }
}

} // verus!
