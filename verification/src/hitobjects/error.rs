//! Errors of the hit-object field codecs.

use vstd::prelude::*;

verus! {

/// Error of a combo skip count that does not fit in its three bits.
#[derive(Clone, Copy, Debug, PartialEq, Eq, Structural)]
pub struct ComboSkipCountTooHigh;

/// Error of reading a colon-separated sample set pair.
#[derive(Clone, Copy, Debug, PartialEq, Eq, Structural)]
pub enum ParseColonSetError {
    /// The set is not two elements long.
    InvalidLength,
    /// One of the two sample sets is invalid.
    InvalidSet(ParseSampleSetError),
}

/// Error of reading a curve point.
#[derive(Clone, Copy, Debug, PartialEq, Eq, Structural)]
pub enum ParseCurvePointError {
    /// The set is not two elements long.
    InvalidLength,
    InvalidX,
    InvalidY,
}

/// Error of reading a hit-object type number.
#[derive(Clone, Copy, Debug, PartialEq, Eq, Structural)]
pub enum ParseHitObjectTypeNumberError {
    /// Not exactly one object kind flag is set.
    InvalidObjType,
    /// The text is not an integer.
    ParseValueError,
    /// The combo skip count does not fit.
    ComboSkipCountTooHigh(ComboSkipCountTooHigh),
}

/// Error of reading a hit sample.
#[derive(Clone, Copy, Debug, PartialEq, Eq, Structural)]
pub enum ParseHitSampleError {
    /// The set is not at least four elements long.
    InvalidLength,
    InvalidNormalSet,
    InvalidAdditionSet,
    InvalidIndex,
    InvalidVolume,
}

/// Error of reading a sample set.
#[derive(Clone, Copy, Debug, PartialEq, Eq, Structural)]
pub enum ParseSampleSetError {
    /// The text is not an integer.
    ParseValueError,
}

/// Error of setting a sample volume outside `1` to `100`.
#[derive(Clone, Copy, Debug, PartialEq, Eq, Structural)]
pub enum VolumeSetError {
    VolumeTooHigh,
    /// Zero means "use the timing point's volume" in the file format, so
    /// setting zero directly is rejected.
    VolumeTooLow,
}

/// Error of reading a sample volume.
#[derive(Clone, Copy, Debug, PartialEq, Eq, Structural)]
pub enum ParseVolumeError {
    VolumeSetError(VolumeSetError),
    ParseIntError,
}

/// Error of reading a curve type.
#[derive(Clone, Copy, Debug, PartialEq, Eq, Structural)]
pub enum ParseCurveTypeError {
    UnknownVariant,
}

/// Error of reading a hit sound bit set.
#[derive(Clone, Copy, Debug, PartialEq, Eq, Structural)]
pub enum ParseHitSoundError {
    ParseIntError,
}

} // verus!
