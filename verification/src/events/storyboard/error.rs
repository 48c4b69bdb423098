//! Errors of the storyboard object and command grammars.

use vstd::prelude::*;
use vstd::string::StringExecFns;

verus! {

/// Error of attaching a command at an indentation depth the current tree
/// cannot accept: `InvalidIndentation(expected, actual)` carries the largest
/// depth that was open and the depth that was asked for.
#[derive(Clone, Copy, Debug, PartialEq, Eq, Structural)]
pub enum CommandPushError {
    InvalidIndentation(usize, usize),
}

/// A field of a storyboard object header line, named for error reports.
#[derive(Clone, Copy, Debug, PartialEq, Eq, Structural)]
pub enum ObjectField {
    Layer,
    Origin,
    FilePath,
    PositionX,
    PositionY,
    FrameCount,
    FrameDelay,
    LoopType,
}

/// Error of reading a storyboard object header line.
#[derive(Clone, Copy, Debug, PartialEq, Eq, Structural)]
pub enum ObjectParseError {
    /// The leading token is neither `Sprite` nor `Animation`; the stream
    /// parser takes this as the signal to retry the line as a normal event.
    UnknownObjectType,
    /// The named field is absent.
    MissingField(ObjectField),
    /// The named field is present but fails its codec.
    FieldParseError(ObjectField),
}

/// Error of building a sprite from a file path that is not relative.
#[derive(Clone, Copy, Debug, PartialEq, Eq, Structural)]
pub struct FilePathNotRelative;

/// Error of reading an easing selector.
#[derive(Clone, Copy, Debug, PartialEq, Eq, Structural)]
pub enum EasingParseError {
    /// The text is not an integer.
    ValueParseError,
    /// The integer names no easing.
    UnknownEasingType(usize),
}

/// Error of reading one storyboard command line.
#[derive(Clone, Copy, Debug, PartialEq, Eq, Structural)]
pub enum CommandParseError {
    UnknownCommandType,
    MissingStartTime,
    InvalidStartTime,
    MissingLoopCount,
    InvalidLoopCount,
    MissingTriggerType,
    InvalidTriggerType,
    InvalidGroupNumber,
    MissingEndTime,
    InvalidEndTime,
    MissingEasing,
    InvalidEasing,
    MissingRed,
    MissingGreen,
    MissingBlue,
    InvalidRed,
    InvalidGreen,
    InvalidBlue,
    InvalidContinuingColours,
    MissingParameterType,
    InvalidParameterType,
    InvalidContinuingParameters,
    MissingMoveX,
    InvalidMoveX,
    MissingMoveY,
    InvalidMoveY,
    InvalidContinuingMove,
    MissingScaleX,
    InvalidScaleX,
    MissingScaleY,
    InvalidScaleY,
    InvalidContinuingScales,
    MissingStartOpacity,
    InvalidStartOpacity,
    InvalidContinuingOpacities,
    MissingStartScale,
    InvalidStartScale,
    InvalidContinuingScale,
    MissingStartRotation,
    InvalidStartRotation,
    InvalidContinuingRotation,
}

impl CommandParseError {
    /// The report text of this error.
    pub open spec fn message_text(self) -> Seq<char> {
        match self {
            CommandParseError::UnknownCommandType => "Unknown command type"@,
            CommandParseError::MissingStartTime => "Missing `start_time` field"@,
            CommandParseError::InvalidStartTime => "Invalid `start_time` value"@,
            CommandParseError::MissingLoopCount => "Missing `loop_count` field"@,
            CommandParseError::InvalidLoopCount => "Invalid `loop_count` value"@,
            CommandParseError::MissingTriggerType => "Missing `trigger_type` field"@,
            CommandParseError::InvalidTriggerType => "Invalid `trigger_type` value"@,
            CommandParseError::InvalidGroupNumber => "Invalid `group_number` value"@,
            CommandParseError::MissingEndTime => "Missing `end_time` field"@,
            CommandParseError::InvalidEndTime => "Invalid `end_time` value"@,
            CommandParseError::MissingEasing => "Missing `easing` field"@,
            CommandParseError::InvalidEasing => "Invalid `easing` value"@,
            CommandParseError::MissingRed => "Missing `red` field"@,
            CommandParseError::MissingGreen => "Missing `green` field"@,
            CommandParseError::MissingBlue => "Missing `blue` field"@,
            CommandParseError::InvalidRed => "Invalid `red` value"@,
            CommandParseError::InvalidGreen => "Invalid `green` value"@,
            CommandParseError::InvalidBlue => "Invalid `blue` value"@,
            CommandParseError::InvalidContinuingColours => "Invalid continuing colour value"@,
            CommandParseError::MissingParameterType => "Missing `parameter_type` field"@,
            CommandParseError::InvalidParameterType => "Invalid `parameter_type` value"@,
            CommandParseError::InvalidContinuingParameters => "Invalid continuing parameter value"@,
            CommandParseError::MissingMoveX => "Missing `move_x` field"@,
            CommandParseError::InvalidMoveX => "Invalid `move_x` value"@,
            CommandParseError::MissingMoveY => "Missing `move_y` field"@,
            CommandParseError::InvalidMoveY => "Invalid `move_y` value"@,
            CommandParseError::InvalidContinuingMove => "Invalid continuing move value"@,
            CommandParseError::MissingScaleX => "Missing `scale_x` field"@,
            CommandParseError::InvalidScaleX => "Invalid `scale_x` value"@,
            CommandParseError::MissingScaleY => "Missing `scale_y` field"@,
            CommandParseError::InvalidScaleY => "Invalid `scale_y` value"@,
            CommandParseError::InvalidContinuingScales => "Invalid continuing scale value"@,
            CommandParseError::MissingStartOpacity => "Missing `start_opacity` field"@,
            CommandParseError::InvalidStartOpacity => "Invalid `start_opacity` value"@,
            CommandParseError::InvalidContinuingOpacities => "Invalid continuing opacity value"@,
            CommandParseError::MissingStartScale => "Missing `start_scale` field"@,
            CommandParseError::InvalidStartScale => "Invalid `start_scale` value"@,
            CommandParseError::InvalidContinuingScale => "Invalid continuing scale value"@,
            CommandParseError::MissingStartRotation => "Missing `start_rotation` field"@,
            CommandParseError::InvalidStartRotation => "Invalid `start_rotation` value"@,
            CommandParseError::InvalidContinuingRotation => "Invalid continuing rotation value"@,
        }
    }

    /// The report text of this error, as a `String`.
    pub fn to_string(&self) -> (r: String)
        ensures
            r@ == self.message_text(),
    {
        match self {
            CommandParseError::UnknownCommandType => String::from_str("Unknown command type"),
            CommandParseError::MissingStartTime => String::from_str("Missing `start_time` field"),
            CommandParseError::InvalidStartTime => String::from_str("Invalid `start_time` value"),
            CommandParseError::MissingLoopCount => String::from_str("Missing `loop_count` field"),
            CommandParseError::InvalidLoopCount => String::from_str("Invalid `loop_count` value"),
            CommandParseError::MissingTriggerType => String::from_str(
                "Missing `trigger_type` field",
            ),
            CommandParseError::InvalidTriggerType => String::from_str(
                "Invalid `trigger_type` value",
            ),
            CommandParseError::InvalidGroupNumber => String::from_str(
                "Invalid `group_number` value",
            ),
            CommandParseError::MissingEndTime => String::from_str("Missing `end_time` field"),
            CommandParseError::InvalidEndTime => String::from_str("Invalid `end_time` value"),
            CommandParseError::MissingEasing => String::from_str("Missing `easing` field"),
            CommandParseError::InvalidEasing => String::from_str("Invalid `easing` value"),
            CommandParseError::MissingRed => String::from_str("Missing `red` field"),
            CommandParseError::MissingGreen => String::from_str("Missing `green` field"),
            CommandParseError::MissingBlue => String::from_str("Missing `blue` field"),
            CommandParseError::InvalidRed => String::from_str("Invalid `red` value"),
            CommandParseError::InvalidGreen => String::from_str("Invalid `green` value"),
            CommandParseError::InvalidBlue => String::from_str("Invalid `blue` value"),
            CommandParseError::InvalidContinuingColours => String::from_str(
                "Invalid continuing colour value",
            ),
            CommandParseError::MissingParameterType => String::from_str(
                "Missing `parameter_type` field",
            ),
            CommandParseError::InvalidParameterType => String::from_str(
                "Invalid `parameter_type` value",
            ),
            CommandParseError::InvalidContinuingParameters => String::from_str(
                "Invalid continuing parameter value",
            ),
            CommandParseError::MissingMoveX => String::from_str("Missing `move_x` field"),
            CommandParseError::InvalidMoveX => String::from_str("Invalid `move_x` value"),
            CommandParseError::MissingMoveY => String::from_str("Missing `move_y` field"),
            CommandParseError::InvalidMoveY => String::from_str("Invalid `move_y` value"),
            CommandParseError::InvalidContinuingMove => String::from_str(
                "Invalid continuing move value",
            ),
            CommandParseError::MissingScaleX => String::from_str("Missing `scale_x` field"),
            CommandParseError::InvalidScaleX => String::from_str("Invalid `scale_x` value"),
            CommandParseError::MissingScaleY => String::from_str("Missing `scale_y` field"),
            CommandParseError::InvalidScaleY => String::from_str("Invalid `scale_y` value"),
            CommandParseError::InvalidContinuingScales => String::from_str(
                "Invalid continuing scale value",
            ),
            CommandParseError::MissingStartOpacity => String::from_str(
                "Missing `start_opacity` field",
            ),
            CommandParseError::InvalidStartOpacity => String::from_str(
                "Invalid `start_opacity` value",
            ),
            CommandParseError::InvalidContinuingOpacities => String::from_str(
                "Invalid continuing opacity value",
            ),
            CommandParseError::MissingStartScale => String::from_str("Missing `start_scale` field"),
            CommandParseError::InvalidStartScale => String::from_str("Invalid `start_scale` value"),
            CommandParseError::InvalidContinuingScale => String::from_str(
                "Invalid continuing scale value",
            ),
            CommandParseError::MissingStartRotation => String::from_str(
                "Missing `start_rotation` field",
            ),
            CommandParseError::InvalidStartRotation => String::from_str(
                "Invalid `start_rotation` value",
            ),
            CommandParseError::InvalidContinuingRotation => String::from_str(
                "Invalid continuing rotation value",
            ),
        }
    }
}

/// Error of reading the trigger type token of a trigger command.
#[derive(Clone, Copy, Debug, PartialEq, Eq, Structural)]
pub enum TriggerTypeParseError {
    /// More sub-fields follow `HitSound` than the grammar has slots for;
    /// carries how many sub-fields were found.
    TooManyHitSoundFields(usize),
    /// The trailing custom sample set index is not a valid integer.
    FieldParseError,
    /// The token opens with no known trigger keyword.
    UnknownTriggerType,
    /// A sub-field after `HitSound` is no known sample set, addition or
    /// index.
    UnknownHitSoundType,
}

/// Error of replacing a continuing colour keyframe.
#[derive(Clone, Copy, Debug, PartialEq, Eq, Structural)]
pub enum ContinuingRGBSetError {
    /// The keyframe index is past the end.
    IndexOutOfBounds,
    /// The replacement would leave an omitted field before the last
    /// keyframe.
    InvalidFieldOption(InvalidColourFieldOption),
}

/// The colour component whose omission a setter rejected.
#[derive(Clone, Copy, Debug, PartialEq, Eq, Structural)]
pub enum InvalidColourFieldOption {
    /// `green` would be absent although the keyframe is not last, or
    /// although `blue` is present.
    Green,
    /// `blue` would be absent although the keyframe is not last.
    Blue,
}

/// Error of replacing a continuing two-component keyframe.
#[derive(Clone, Copy, Debug, PartialEq, Eq, Structural)]
pub enum ContinuingSetError {
    /// The keyframe index is past the end.
    IndexOutOfBounds,
    /// The replacement would leave the second component absent before the
    /// last keyframe.
    InvalidSecondFieldOption,
}

/// Error of appending a continuing keyframe behind one whose trailing
/// components are omitted: only the last keyframe may omit them.
#[derive(Clone, Copy, Debug, PartialEq, Eq, Structural)]
pub struct InvalidSecondFieldOption;

} // verus!
