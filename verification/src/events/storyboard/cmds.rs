//! Storyboard command lines: the typed model of one animation instruction
//! and the codecs between that model and its comma-delimited text.
//!
//! A non-container command line reads
//! `<type>,<easing>,<start_time>,<end_time>,<values...>` where `end_time`
//! may be textually empty (the keyframe ends where it starts) and the value
//! fields carry one mandatory keyframe followed by continuing keyframes of
//! the form `<end_time>,<values...>`. Only the last continuing keyframe may
//! supply a strict prefix of its value tuple. `Loop` and `Trigger` lines
//! open containers whose children are attached by indentation (see the
//! sprites module).

use vstd::prelude::*;
use vstd::slice::slice_subrange;
use crate::Integer;
use crate::decimal::Dec;
use crate::numbers::{is_digit, spec_parse_u32, parse_u32_chars};
use crate::text::{spec_starts_with, has_prefix, chars_eq, str_to_chars, push_all};
use super::error::{
    CommandParseError, ContinuingRGBSetError, ContinuingSetError, EasingParseError,
    InvalidColourFieldOption, InvalidSecondFieldOption, TriggerTypeParseError,
};

verus! {

/// An easing selector: a code from 0 to 34, stored as written.
#[derive(Clone, Copy, Debug, Hash, PartialEq, Eq, Structural)]
pub struct Easing(pub u8);

/// The largest easing code the format knows.
pub const MAX_EASING: u8 = 34;

/// Reading of an easing field.
pub open spec fn spec_parse_easing(s: Seq<char>) -> Result<Easing, EasingParseError> {
    match crate::numbers::spec_parse_usize(s) {
        Some(v) => if v <= MAX_EASING {
            Ok(Easing(v as u8))
        } else {
            Err(EasingParseError::UnknownEasingType(v))
        },
        None => Err(EasingParseError::ValueParseError),
    }
}

impl Easing {
    /// Reads an easing field, exactly as [`spec_parse_easing`] says.
    pub fn parse(s: &[char]) -> (r: Result<Easing, EasingParseError>)
        ensures
            r == spec_parse_easing(s@),
    {
        match crate::numbers::parse_usize_chars(s) {
            Some(v) => if v <= MAX_EASING as usize {
                Ok(Easing(v as u8))
            } else {
                Err(EasingParseError::UnknownEasingType(v))
            },
            None => Err(EasingParseError::ValueParseError),
        }
    }
}

/// A parameter command effect.
#[derive(Clone, Copy, Debug, Hash, PartialEq, Eq, Structural)]
pub enum Parameter {
    /// `H`: flip the sprite horizontally.
    HorizontalFlip,
    /// `V`: flip the sprite vertically.
    VerticalFlip,
    /// `A`: use additive-colour blending.
    AdditiveBlend,
}

/// The sample set named inside a `HitSound` trigger token.
#[derive(Clone, Copy, Debug, Hash, PartialEq, Eq, Structural)]
pub enum TriggerSampleSet {
    All,
    Normal,
    Soft,
    Drum,
}

/// The addition named inside a `HitSound` trigger token.
#[derive(Clone, Copy, Debug, Hash, PartialEq, Eq, Structural)]
pub enum TriggerAddition {
    Whistle,
    Finish,
    Clap,
}

/// The trigger of a trigger command: a `HitSound` condition built from up
/// to four concatenated sub-fields, or one of the fixed keyword triggers.
#[derive(Clone, Copy, Debug, Hash, PartialEq, Eq, Structural)]
pub enum TriggerType {
    HitSound {
        sample_set: Option<TriggerSampleSet>,
        additions_sample_set: Option<TriggerSampleSet>,
        addition: Option<TriggerAddition>,
        custom_sample_set: Option<u32>,
    },
    Passing,
    Failing,
}

/// The sample set word read at the head of `s`, with its length.
pub open spec fn spec_sample_prefix(s: Seq<char>) -> Option<(TriggerSampleSet, int)> {
    if spec_starts_with(s, "All"@) {
        Some((TriggerSampleSet::All, 3))
    } else if spec_starts_with(s, "Normal"@) {
        Some((TriggerSampleSet::Normal, 6))
    } else if spec_starts_with(s, "Soft"@) {
        Some((TriggerSampleSet::Soft, 4))
    } else if spec_starts_with(s, "Drum"@) {
        Some((TriggerSampleSet::Drum, 4))
    } else {
        None
    }
}

/// The addition word read at the head of `s`, with its length.
pub open spec fn spec_addition_prefix(s: Seq<char>) -> Option<(TriggerAddition, int)> {
    if spec_starts_with(s, "Whistle"@) {
        Some((TriggerAddition::Whistle, 7))
    } else if spec_starts_with(s, "Finish"@) {
        Some((TriggerAddition::Finish, 6))
    } else if spec_starts_with(s, "Clap"@) {
        Some((TriggerAddition::Clap, 4))
    } else {
        None
    }
}

/// Reading of the sub-fields after `HitSound`: up to two sample sets, then
/// an addition, then a custom sample set index, concatenated without
/// separators. `slot` is the next slot a sub-field may fill and `n` counts
/// the sub-fields read so far.
pub open spec fn spec_parse_hitsound(
    s: Seq<char>,
    slot: int,
    ss: Option<TriggerSampleSet>,
    ass: Option<TriggerSampleSet>,
    add: Option<TriggerAddition>,
    n: nat,
) -> Result<TriggerType, TriggerTypeParseError>
    decreases s.len(),
    via spec_parse_hitsound_decreases
{
    if s.len() == 0 {
        Ok(
            TriggerType::HitSound {
                sample_set: ss,
                additions_sample_set: ass,
                addition: add,
                custom_sample_set: None,
            },
        )
    } else if is_digit(s[0]) {
        match spec_parse_u32(s) {
            Some(v) => Ok(
                TriggerType::HitSound {
                    sample_set: ss,
                    additions_sample_set: ass,
                    addition: add,
                    custom_sample_set: Some(v),
                },
            ),
            None => Err(TriggerTypeParseError::FieldParseError),
        }
    } else {
        match spec_sample_prefix(s) {
            Some(p) => if slot == 0 {
                spec_parse_hitsound(s.skip(p.1), 1, Some(p.0), ass, add, n + 1)
            } else if slot == 1 {
                spec_parse_hitsound(s.skip(p.1), 2, ss, Some(p.0), add, n + 1)
            } else {
                Err(TriggerTypeParseError::TooManyHitSoundFields((n + 1) as usize))
            },
            None => match spec_addition_prefix(s) {
                Some(p) => if slot <= 2 {
                    spec_parse_hitsound(s.skip(p.1), 3, ss, ass, Some(p.0), n + 1)
                } else {
                    Err(TriggerTypeParseError::TooManyHitSoundFields((n + 1) as usize))
                },
                None => Err(TriggerTypeParseError::UnknownHitSoundType),
            },
        }
    }
}

#[via_fn]
proof fn spec_parse_hitsound_decreases(
    s: Seq<char>,
    slot: int,
    ss: Option<TriggerSampleSet>,
    ass: Option<TriggerSampleSet>,
    add: Option<TriggerAddition>,
    n: nat,
) {
    reveal_strlit("All");
    reveal_strlit("Normal");
    reveal_strlit("Soft");
    reveal_strlit("Drum");
    reveal_strlit("Whistle");
    reveal_strlit("Finish");
    reveal_strlit("Clap");
}

/// Reading of a whole trigger type token.
pub open spec fn spec_parse_trigger(s: Seq<char>) -> Result<TriggerType, TriggerTypeParseError> {
    if s == "Passing"@ {
        Ok(TriggerType::Passing)
    } else if s == "Failing"@ {
        Ok(TriggerType::Failing)
    } else if spec_starts_with(s, "HitSound"@) {
        spec_parse_hitsound(s.skip(8), 0, None, None, None, 0)
    } else {
        Err(TriggerTypeParseError::UnknownTriggerType)
    }
}

/// Exec mirror of [`spec_sample_prefix`].
fn sample_prefix(s: &[char], from: usize) -> (r: Option<(TriggerSampleSet, usize)>)
    requires
        from <= s@.len(),
    ensures
        match r {
            Some(p) => spec_sample_prefix(s@.skip(from as int)) == Some((p.0, p.1 as int)) && from
                + p.1 <= s@.len() && p.1 >= 1,
            None => spec_sample_prefix(s@.skip(from as int)) is None,
        },
{
    proof {
        reveal_strlit("All");
        reveal_strlit("Normal");
        reveal_strlit("Soft");
        reveal_strlit("Drum");
    }
    if has_prefix(s, from, "All") {
        Some((TriggerSampleSet::All, 3))
    } else if has_prefix(s, from, "Normal") {
        Some((TriggerSampleSet::Normal, 6))
    } else if has_prefix(s, from, "Soft") {
        Some((TriggerSampleSet::Soft, 4))
    } else if has_prefix(s, from, "Drum") {
        Some((TriggerSampleSet::Drum, 4))
    } else {
        None
    }
}

/// Exec mirror of [`spec_addition_prefix`].
fn addition_prefix(s: &[char], from: usize) -> (r: Option<(TriggerAddition, usize)>)
    requires
        from <= s@.len(),
    ensures
        match r {
            Some(p) => spec_addition_prefix(s@.skip(from as int)) == Some((p.0, p.1 as int)) && from
                + p.1 <= s@.len() && p.1 >= 1,
            None => spec_addition_prefix(s@.skip(from as int)) is None,
        },
{
    proof {
        reveal_strlit("Whistle");
        reveal_strlit("Finish");
        reveal_strlit("Clap");
    }
    if has_prefix(s, from, "Whistle") {
        Some((TriggerAddition::Whistle, 7))
    } else if has_prefix(s, from, "Finish") {
        Some((TriggerAddition::Finish, 6))
    } else if has_prefix(s, from, "Clap") {
        Some((TriggerAddition::Clap, 4))
    } else {
        None
    }
}

impl TriggerType {
    /// Reads a trigger type token, exactly as [`spec_parse_trigger`] says.
    pub fn parse(s: &[char]) -> (r: Result<TriggerType, TriggerTypeParseError>)
        ensures
            r == spec_parse_trigger(s@),
    {
        if chars_eq(s, "Passing") {
            return Ok(TriggerType::Passing);
        }
        if chars_eq(s, "Failing") {
            return Ok(TriggerType::Failing);
        }
        if !has_prefix(s, 0, "HitSound") {
            proof {
                assert(s@.skip(0) =~= s@);
            }
            return Err(TriggerTypeParseError::UnknownTriggerType);
        }
        proof {
            assert(s@.skip(0) =~= s@);
            reveal_strlit("HitSound");
        }
        let len = s.len();
        let mut i: usize = 8;
        let mut slot: u8 = 0;
        let mut ss: Option<TriggerSampleSet> = None;
        let mut ass: Option<TriggerSampleSet> = None;
        let mut add: Option<TriggerAddition> = None;
        let mut n: usize = 0;
        while i < len
            invariant
                8 <= i <= len,
                len == s@.len(),
                n <= i,
                slot <= 3,
                spec_parse_trigger(s@) == spec_parse_hitsound(
                    s@.skip(i as int),
                    slot as int,
                    ss,
                    ass,
                    add,
                    n as nat,
                ),
            decreases len - i,
        {
            let c = s[i];
            if crate::numbers::char_digit(c).is_some() {
                let rest = slice_subrange(s, i, len);
                proof {
                    assert(rest@ =~= s@.skip(i as int));
                    assert(s@.skip(i as int)[0] == s@[i as int]);
                    assert(is_digit(c));
                }
                match parse_u32_chars(rest) {
                    Some(v) => {
                        return Ok(
                            TriggerType::HitSound {
                                sample_set: ss,
                                additions_sample_set: ass,
                                addition: add,
                                custom_sample_set: Some(v),
                            },
                        );
                    },
                    None => {
                        return Err(TriggerTypeParseError::FieldParseError);
                    },
                }
            }
            match sample_prefix(s, i) {
                Some(p) => {
                    proof {
                        assert(s@.skip(i as int).skip(p.1 as int) =~= s@.skip(i + p.1));
                    }
                    if slot == 0 {
                        ss = Some(p.0);
                        slot = 1;
                    } else if slot == 1 {
                        ass = Some(p.0);
                        slot = 2;
                    } else {
                        return Err(TriggerTypeParseError::TooManyHitSoundFields(n + 1));
                    }
                    i += p.1;
                },
                None => {
                    match addition_prefix(s, i) {
                        Some(p) => {
                            proof {
                                assert(s@.skip(i as int).skip(p.1 as int) =~= s@.skip(i + p.1));
                            }
                            if slot <= 2 {
                                add = Some(p.0);
                                slot = 3;
                            } else {
                                return Err(TriggerTypeParseError::TooManyHitSoundFields(n + 1));
                            }
                            i += p.1;
                        },
                        None => {
                            return Err(TriggerTypeParseError::UnknownHitSoundType);
                        },
                    }
                },
            }
            n += 1;
        }
        proof {
            assert(s@.skip(len as int) =~= Seq::<char>::empty());
        }
        Ok(
            TriggerType::HitSound {
                sample_set: ss,
                additions_sample_set: ass,
                addition: add,
                custom_sample_set: None,
            },
        )
    }
}

/// The text of a sample set word.
pub open spec fn spec_sample_word(w: TriggerSampleSet) -> Seq<char> {
    match w {
        TriggerSampleSet::All => "All"@,
        TriggerSampleSet::Normal => "Normal"@,
        TriggerSampleSet::Soft => "Soft"@,
        TriggerSampleSet::Drum => "Drum"@,
    }
}

/// The text of an addition word.
pub open spec fn spec_addition_word(w: TriggerAddition) -> Seq<char> {
    match w {
        TriggerAddition::Whistle => "Whistle"@,
        TriggerAddition::Finish => "Finish"@,
        TriggerAddition::Clap => "Clap"@,
    }
}

/// The text of a trigger type token.
pub open spec fn spec_render_trigger(t: TriggerType) -> Seq<char> {
    match t {
        TriggerType::Passing => "Passing"@,
        TriggerType::Failing => "Failing"@,
        TriggerType::HitSound { sample_set, additions_sample_set, addition, custom_sample_set } => {
            "HitSound"@ + (match sample_set {
                Some(w) => spec_sample_word(w),
                None => Seq::<char>::empty(),
            }) + (match additions_sample_set {
                Some(w) => spec_sample_word(w),
                None => Seq::<char>::empty(),
            }) + (match addition {
                Some(w) => spec_addition_word(w),
                None => Seq::<char>::empty(),
            }) + (match custom_sample_set {
                Some(v) => crate::numbers::spec_nat_chars(v as nat),
                None => Seq::<char>::empty(),
            })
        },
    }
}

/// Appends a sample set word, or nothing, to `out`.
fn push_opt_sample(w: &Option<TriggerSampleSet>, out: &mut Vec<char>)
    ensures
        final(out)@ == old(out)@ + match *w {
            Some(v) => spec_sample_word(v),
            None => Seq::<char>::empty(),
        },
{
    match w {
        Some(ws) => {
            let wc = str_to_chars(
                match ws {
                    TriggerSampleSet::All => "All",
                    TriggerSampleSet::Normal => "Normal",
                    TriggerSampleSet::Soft => "Soft",
                    TriggerSampleSet::Drum => "Drum",
                },
            );
            push_all(wc.as_slice(), out);
        },
        None => {
            proof {
                assert(out@ =~= out@ + Seq::<char>::empty());
            }
        },
    }
}

/// Appends an addition word, or nothing, to `out`.
fn push_opt_addition(w: &Option<TriggerAddition>, out: &mut Vec<char>)
    ensures
        final(out)@ == old(out)@ + match *w {
            Some(v) => spec_addition_word(v),
            None => Seq::<char>::empty(),
        },
{
    match w {
        Some(wa) => {
            let wc = str_to_chars(
                match wa {
                    TriggerAddition::Whistle => "Whistle",
                    TriggerAddition::Finish => "Finish",
                    TriggerAddition::Clap => "Clap",
                },
            );
            push_all(wc.as_slice(), out);
        },
        None => {
            proof {
                assert(out@ =~= out@ + Seq::<char>::empty());
            }
        },
    }
}

/// Appends the text of a trigger type token to `out`.
pub fn push_trigger_chars(t: &TriggerType, out: &mut Vec<char>)
    ensures
        final(out)@ == old(out)@ + spec_render_trigger(*t),
{
    match t {
        TriggerType::Passing => {
            let w = str_to_chars("Passing");
            push_all(w.as_slice(), out);
        },
        TriggerType::Failing => {
            let w = str_to_chars("Failing");
            push_all(w.as_slice(), out);
        },
        TriggerType::HitSound { sample_set, additions_sample_set, addition, custom_sample_set } => {
            let w = str_to_chars("HitSound");
            push_all(w.as_slice(), out);
            push_opt_sample(sample_set, out);
            push_opt_sample(additions_sample_set, out);
            push_opt_addition(addition, out);
            match custom_sample_set {
                Some(v) => {
                    crate::numbers::push_u32_chars(*v, out);
                },
                None => {
                    proof {
                        assert(out@ =~= out@ + Seq::<char>::empty());
                    }
                },
            }
            proof {
                assert(final(out)@ =~= old(out)@ + spec_render_trigger(*t));
            }
        },
    }
}

/// A continuing keyframe of a one-value command: it starts where the
/// previous keyframe ended.
#[derive(Clone, Copy, Debug, Hash, PartialEq, Eq, Structural)]
pub struct ContinuingScalar {
    pub end_time: Integer,
    pub value: Dec,
}

/// A continuing keyframe of a two-value command; the second component may
/// be omitted on the last keyframe only.
#[derive(Clone, Copy, Debug, Hash, PartialEq, Eq, Structural)]
pub struct ContinuingPair {
    pub end_time: Integer,
    pub first: Dec,
    pub second: Option<Dec>,
}

/// A continuing keyframe of a colour command; `green` and `blue` may be
/// omitted on the last keyframe only, and `blue` only together with or
/// after `green`.
#[derive(Clone, Copy, Debug, Hash, PartialEq, Eq, Structural)]
pub struct ContinuingRgb {
    pub end_time: Integer,
    pub red: u8,
    pub green: Option<u8>,
    pub blue: Option<u8>,
}

/// A continuing keyframe of a parameter command.
#[derive(Clone, Copy, Debug, Hash, PartialEq, Eq, Structural)]
pub struct ContinuingParameter {
    pub end_time: Integer,
    pub parameter: Parameter,
}

/// Omission only on the last keyframe.
pub open spec fn pairs_wf(cs: Seq<ContinuingPair>) -> bool {
    forall|i: int| 0 <= i < cs.len() - 1 ==> (#[trigger] cs[i]).second is Some
}

/// Omission only on the last keyframe, and only as a suffix of the tuple.
pub open spec fn rgbs_wf(cs: Seq<ContinuingRgb>) -> bool {
    &&& forall|i: int|
        0 <= i < cs.len() - 1 ==> (#[trigger] cs[i]).green is Some && cs[i].blue is Some
    &&& forall|i: int| 0 <= i < cs.len() ==> ((#[trigger] cs[i]).green is None ==> cs[i].blue is None)
}

/// One storyboard command line, with the children its container owns.
#[derive(Debug, Hash, PartialEq, Eq)]
pub struct Command {
    pub start_time: Integer,
    pub properties: CommandProperties,
}

/// The typed payload of a command line.
#[derive(Debug, Hash, PartialEq, Eq)]
pub enum CommandProperties {
    Fade {
        easing: Easing,
        end_time: Option<Integer>,
        start_opacity: Dec,
        continuing_opacities: Vec<ContinuingScalar>,
    },
    Move {
        easing: Easing,
        end_time: Option<Integer>,
        move_x: Dec,
        move_y: Dec,
        continuing_positions: Vec<ContinuingPair>,
    },
    MoveX {
        easing: Easing,
        end_time: Option<Integer>,
        move_x: Dec,
        continuing_x: Vec<ContinuingScalar>,
    },
    MoveY {
        easing: Easing,
        end_time: Option<Integer>,
        move_y: Dec,
        continuing_y: Vec<ContinuingScalar>,
    },
    Scale {
        easing: Easing,
        end_time: Option<Integer>,
        start_scale: Dec,
        continuing_scales: Vec<ContinuingScalar>,
    },
    VectorScale {
        easing: Easing,
        end_time: Option<Integer>,
        scale_x: Dec,
        scale_y: Dec,
        continuing_scales: Vec<ContinuingPair>,
    },
    Rotate {
        easing: Easing,
        end_time: Option<Integer>,
        start_rotation: Dec,
        continuing_rotations: Vec<ContinuingScalar>,
    },
    Colour {
        easing: Easing,
        end_time: Option<Integer>,
        red: u8,
        green: u8,
        blue: u8,
        continuing_colours: Vec<ContinuingRgb>,
    },
    Parameter {
        easing: Easing,
        end_time: Option<Integer>,
        parameter: Parameter,
        continuing_parameters: Vec<ContinuingParameter>,
    },
    Loop {
        loop_count: Integer,
        commands: Vec<Command>,
    },
    Trigger {
        trigger_type: TriggerType,
        group_number: Option<Integer>,
        end_time: Integer,
        commands: Vec<Command>,
    },
}

/// The mathematical model of a command: as [`Command`], with sequences for
/// the vectors, so that contracts compare by content.
pub struct CommandV {
    pub start_time: Integer,
    pub properties: CommandPropertiesV,
}

/// The mathematical model of a command payload.
pub enum CommandPropertiesV {
    Fade {
        easing: Easing,
        end_time: Option<Integer>,
        start_opacity: Dec,
        continuing_opacities: Seq<ContinuingScalar>,
    },
    Move {
        easing: Easing,
        end_time: Option<Integer>,
        move_x: Dec,
        move_y: Dec,
        continuing_positions: Seq<ContinuingPair>,
    },
    MoveX {
        easing: Easing,
        end_time: Option<Integer>,
        move_x: Dec,
        continuing_x: Seq<ContinuingScalar>,
    },
    MoveY {
        easing: Easing,
        end_time: Option<Integer>,
        move_y: Dec,
        continuing_y: Seq<ContinuingScalar>,
    },
    Scale {
        easing: Easing,
        end_time: Option<Integer>,
        start_scale: Dec,
        continuing_scales: Seq<ContinuingScalar>,
    },
    VectorScale {
        easing: Easing,
        end_time: Option<Integer>,
        scale_x: Dec,
        scale_y: Dec,
        continuing_scales: Seq<ContinuingPair>,
    },
    Rotate {
        easing: Easing,
        end_time: Option<Integer>,
        start_rotation: Dec,
        continuing_rotations: Seq<ContinuingScalar>,
    },
    Colour {
        easing: Easing,
        end_time: Option<Integer>,
        red: u8,
        green: u8,
        blue: u8,
        continuing_colours: Seq<ContinuingRgb>,
    },
    Parameter {
        easing: Easing,
        end_time: Option<Integer>,
        parameter: Parameter,
        continuing_parameters: Seq<ContinuingParameter>,
    },
    Loop {
        loop_count: Integer,
        commands: Seq<CommandV>,
    },
    Trigger {
        trigger_type: TriggerType,
        group_number: Option<Integer>,
        end_time: Integer,
        commands: Seq<CommandV>,
    },
}

/// The model of a command.
pub open spec fn cmd_view(c: Command) -> CommandV
    decreases c,
{
    CommandV { start_time: c.start_time, properties: props_view(c.properties) }
}

/// The model of a command payload.
pub open spec fn props_view(p: CommandProperties) -> CommandPropertiesV
    decreases p,
{
    match p {
        CommandProperties::Fade { easing, end_time, start_opacity, continuing_opacities } => {
            CommandPropertiesV::Fade {
                easing,
                end_time,
                start_opacity,
                continuing_opacities: continuing_opacities@,
            }
        },
        CommandProperties::Move { easing, end_time, move_x, move_y, continuing_positions } => {
            CommandPropertiesV::Move {
                easing,
                end_time,
                move_x,
                move_y,
                continuing_positions: continuing_positions@,
            }
        },
        CommandProperties::MoveX { easing, end_time, move_x, continuing_x } => {
            CommandPropertiesV::MoveX { easing, end_time, move_x, continuing_x: continuing_x@ }
        },
        CommandProperties::MoveY { easing, end_time, move_y, continuing_y } => {
            CommandPropertiesV::MoveY { easing, end_time, move_y, continuing_y: continuing_y@ }
        },
        CommandProperties::Scale { easing, end_time, start_scale, continuing_scales } => {
            CommandPropertiesV::Scale {
                easing,
                end_time,
                start_scale,
                continuing_scales: continuing_scales@,
            }
        },
        CommandProperties::VectorScale { easing, end_time, scale_x, scale_y, continuing_scales } => {
            CommandPropertiesV::VectorScale {
                easing,
                end_time,
                scale_x,
                scale_y,
                continuing_scales: continuing_scales@,
            }
        },
        CommandProperties::Rotate { easing, end_time, start_rotation, continuing_rotations } => {
            CommandPropertiesV::Rotate {
                easing,
                end_time,
                start_rotation,
                continuing_rotations: continuing_rotations@,
            }
        },
        CommandProperties::Colour { easing, end_time, red, green, blue, continuing_colours } => {
            CommandPropertiesV::Colour {
                easing,
                end_time,
                red,
                green,
                blue,
                continuing_colours: continuing_colours@,
            }
        },
        CommandProperties::Parameter { easing, end_time, parameter, continuing_parameters } => {
            CommandPropertiesV::Parameter {
                easing,
                end_time,
                parameter,
                continuing_parameters: continuing_parameters@,
            }
        },
        CommandProperties::Loop { loop_count, commands } => {
            CommandPropertiesV::Loop { loop_count, commands: cmds_view(commands@) }
        },
        CommandProperties::Trigger { trigger_type, group_number, end_time, commands } => {
            CommandPropertiesV::Trigger {
                trigger_type,
                group_number,
                end_time,
                commands: cmds_view(commands@),
            }
        },
    }
}

/// The models of a sequence of commands, in order.
pub open spec fn cmds_view(cs: Seq<Command>) -> Seq<CommandV>
    decreases cs,
{
    if cs.len() == 0 {
        Seq::<CommandV>::empty()
    } else {
        seq![cmd_view(cs[0])] + cmds_view(cs.drop_first())
    }
}

/// Indexing lemma for [`cmds_view`].
pub proof fn lemma_cmds_view_index(cs: Seq<Command>)
    ensures
        cmds_view(cs).len() == cs.len(),
        forall|i: int| 0 <= i < cs.len() ==> cmds_view(cs)[i] == cmd_view(#[trigger] cs[i]),
    decreases cs,
{
    if cs.len() > 0 {
        lemma_cmds_view_index(cs.drop_first());
        assert forall|i: int| 0 <= i < cs.len() implies cmds_view(cs)[i] == cmd_view(cs[i]) by {
            if i > 0 {
                assert(cmds_view(cs)[i] == cmds_view(cs.drop_first())[i - 1]);
                assert(cs.drop_first()[i - 1] == cs[i]);
            }
        }
    }
}

/// [`cmds_view`] distributes over push.
pub proof fn lemma_cmds_view_push(cs: Seq<Command>, c: Command)
    ensures
        cmds_view(cs.push(c)) == cmds_view(cs).push(cmd_view(c)),
    decreases cs,
{
    if cs.len() == 0 {
        assert(cs.push(c)[0] == c);
        assert(cs.push(c).drop_first() =~= Seq::<Command>::empty());
        assert(cmds_view(Seq::<Command>::empty()) == Seq::<CommandV>::empty());
        assert(cmds_view(cs.push(c)) == seq![cmd_view(c)] + Seq::<CommandV>::empty());
        assert(seq![cmd_view(c)] + Seq::<CommandV>::empty() =~= Seq::<CommandV>::empty().push(
            cmd_view(c),
        ));
        assert(cmds_view(cs) == Seq::<CommandV>::empty());
    } else {
        assert(cs.push(c)[0] == cs[0]);
        assert(cs.push(c).drop_first() =~= cs.drop_first().push(c));
        lemma_cmds_view_push(cs.drop_first(), c);
        assert(cmds_view(cs.push(c)) == seq![cmd_view(cs[0])] + cmds_view(
            cs.drop_first(),
        ).push(cmd_view(c)));
        assert(cmds_view(cs) == seq![cmd_view(cs[0])] + cmds_view(cs.drop_first()));
        assert(seq![cmd_view(cs[0])] + cmds_view(cs.drop_first()).push(cmd_view(c)) =~= (
        seq![cmd_view(cs[0])] + cmds_view(cs.drop_first())).push(cmd_view(c)));
    }
}

} // verus!

verus! {

/// Error positions inside the value fields that the moving command kinds
/// share; each kind maps them to its own named errors.
#[derive(Clone, Copy, Debug, PartialEq, Eq, Structural)]
pub enum ValueFieldError {
    MissingFirst,
    InvalidFirst,
    MissingSecond,
    InvalidSecond,
    MissingThird,
    InvalidThird,
    InvalidContinuing,
}

/// Reading of the continuing keyframes of a one-value command: pairs of
/// `end_time,value` until the fields run out.
pub open spec fn spec_parse_cont_scalars(fs: Seq<Seq<char>>) -> Option<Seq<ContinuingScalar>>
    decreases fs.len(),
{
    if fs.len() == 0 {
        Some(Seq::<ContinuingScalar>::empty())
    } else if fs.len() == 1 {
        None
    } else {
        match (crate::numbers::spec_parse_i32(fs[0]), crate::decimal::spec_dec_of(fs[1])) {
            (Some(t), Some(v)) => match spec_parse_cont_scalars(fs.skip(2)) {
                Some(cs) => Some(seq![ContinuingScalar { end_time: t, value: v }] + cs),
                None => None,
            },
            _ => None,
        }
    }
}

/// Reading of the continuing keyframes of a two-value command: triples of
/// `end_time,first,second`, where only the last keyframe may stop after
/// `first`.
pub open spec fn spec_parse_cont_pairs(fs: Seq<Seq<char>>) -> Option<Seq<ContinuingPair>>
    decreases fs.len(),
{
    if fs.len() == 0 {
        Some(Seq::<ContinuingPair>::empty())
    } else if fs.len() == 1 {
        None
    } else if fs.len() == 2 {
        match (crate::numbers::spec_parse_i32(fs[0]), crate::decimal::spec_dec_of(fs[1])) {
            (Some(t), Some(v)) => Some(
                seq![ContinuingPair { end_time: t, first: v, second: None }],
            ),
            _ => None,
        }
    } else {
        match (
            crate::numbers::spec_parse_i32(fs[0]),
            crate::decimal::spec_dec_of(fs[1]),
            crate::decimal::spec_dec_of(fs[2]),
        ) {
            (Some(t), Some(v1), Some(v2)) => match spec_parse_cont_pairs(fs.skip(3)) {
                Some(cs) => Some(
                    seq![ContinuingPair { end_time: t, first: v1, second: Some(v2) }] + cs,
                ),
                None => None,
            },
            _ => None,
        }
    }
}

/// Reading of the continuing keyframes of a colour command: groups of
/// `end_time,red,green,blue`, where only the last keyframe may stop after
/// `red` or `green`.
pub open spec fn spec_parse_cont_rgbs(fs: Seq<Seq<char>>) -> Option<Seq<ContinuingRgb>>
    decreases fs.len(),
{
    if fs.len() == 0 {
        Some(Seq::<ContinuingRgb>::empty())
    } else if fs.len() == 1 {
        None
    } else if fs.len() == 2 {
        match (crate::numbers::spec_parse_i32(fs[0]), crate::numbers::spec_parse_u8(fs[1])) {
            (Some(t), Some(r)) => Some(
                seq![ContinuingRgb { end_time: t, red: r, green: None, blue: None }],
            ),
            _ => None,
        }
    } else if fs.len() == 3 {
        match (
            crate::numbers::spec_parse_i32(fs[0]),
            crate::numbers::spec_parse_u8(fs[1]),
            crate::numbers::spec_parse_u8(fs[2]),
        ) {
            (Some(t), Some(r), Some(g)) => Some(
                seq![ContinuingRgb { end_time: t, red: r, green: Some(g), blue: None }],
            ),
            _ => None,
        }
    } else {
        match (
            crate::numbers::spec_parse_i32(fs[0]),
            crate::numbers::spec_parse_u8(fs[1]),
            crate::numbers::spec_parse_u8(fs[2]),
            crate::numbers::spec_parse_u8(fs[3]),
        ) {
            (Some(t), Some(r), Some(g), Some(b)) => match spec_parse_cont_rgbs(fs.skip(4)) {
                Some(cs) => Some(
                    seq![ContinuingRgb { end_time: t, red: r, green: Some(g), blue: Some(b) }] + cs,
                ),
                None => None,
            },
            _ => None,
        }
    }
}

/// Reading of a parameter effect field.
pub open spec fn spec_parse_parameter(f: Seq<char>) -> Option<Parameter> {
    if f == "H"@ {
        Some(Parameter::HorizontalFlip)
    } else if f == "V"@ {
        Some(Parameter::VerticalFlip)
    } else if f == "A"@ {
        Some(Parameter::AdditiveBlend)
    } else {
        None
    }
}

/// Reading of the continuing keyframes of a parameter command.
pub open spec fn spec_parse_cont_params(fs: Seq<Seq<char>>) -> Option<Seq<ContinuingParameter>>
    decreases fs.len(),
{
    if fs.len() == 0 {
        Some(Seq::<ContinuingParameter>::empty())
    } else if fs.len() == 1 {
        None
    } else {
        match (crate::numbers::spec_parse_i32(fs[0]), spec_parse_parameter(fs[1])) {
            (Some(t), Some(p)) => match spec_parse_cont_params(fs.skip(2)) {
                Some(cs) => Some(seq![ContinuingParameter { end_time: t, parameter: p }] + cs),
                None => None,
            },
            _ => None,
        }
    }
}

/// Reading of the value fields of a one-value command.
pub open spec fn spec_parse_scalar_values(fs: Seq<Seq<char>>) -> Result<
    (Dec, Seq<ContinuingScalar>),
    ValueFieldError,
> {
    if fs.len() == 0 {
        Err(ValueFieldError::MissingFirst)
    } else {
        match crate::decimal::spec_dec_of(fs[0]) {
            None => Err(ValueFieldError::InvalidFirst),
            Some(v) => match spec_parse_cont_scalars(fs.skip(1)) {
                Some(cs) => Ok((v, cs)),
                None => Err(ValueFieldError::InvalidContinuing),
            },
        }
    }
}

/// Reading of the value fields of a two-value command.
pub open spec fn spec_parse_pair_values(fs: Seq<Seq<char>>) -> Result<
    (Dec, Dec, Seq<ContinuingPair>),
    ValueFieldError,
> {
    if fs.len() == 0 {
        Err(ValueFieldError::MissingFirst)
    } else {
        match crate::decimal::spec_dec_of(fs[0]) {
            None => Err(ValueFieldError::InvalidFirst),
            Some(v1) => if fs.len() == 1 {
                Err(ValueFieldError::MissingSecond)
            } else {
                match crate::decimal::spec_dec_of(fs[1]) {
                    None => Err(ValueFieldError::InvalidSecond),
                    Some(v2) => match spec_parse_cont_pairs(fs.skip(2)) {
                        Some(cs) => Ok((v1, v2, cs)),
                        None => Err(ValueFieldError::InvalidContinuing),
                    },
                }
            },
        }
    }
}

/// Reading of the value fields of a colour command.
pub open spec fn spec_parse_colour_values(fs: Seq<Seq<char>>) -> Result<
    (u8, u8, u8, Seq<ContinuingRgb>),
    ValueFieldError,
> {
    if fs.len() == 0 {
        Err(ValueFieldError::MissingFirst)
    } else {
        match crate::numbers::spec_parse_u8(fs[0]) {
            None => Err(ValueFieldError::InvalidFirst),
            Some(r) => if fs.len() == 1 {
                Err(ValueFieldError::MissingSecond)
            } else {
                match crate::numbers::spec_parse_u8(fs[1]) {
                    None => Err(ValueFieldError::InvalidSecond),
                    Some(g) => if fs.len() == 2 {
                        Err(ValueFieldError::MissingThird)
                    } else {
                        match crate::numbers::spec_parse_u8(fs[2]) {
                            None => Err(ValueFieldError::InvalidThird),
                            Some(b) => match spec_parse_cont_rgbs(fs.skip(3)) {
                                Some(cs) => Ok((r, g, b, cs)),
                                None => Err(ValueFieldError::InvalidContinuing),
                            },
                        }
                    },
                }
            },
        }
    }
}

/// Reading of the value fields of a parameter command.
pub open spec fn spec_parse_param_values(fs: Seq<Seq<char>>) -> Result<
    (Parameter, Seq<ContinuingParameter>),
    ValueFieldError,
> {
    if fs.len() == 0 {
        Err(ValueFieldError::MissingFirst)
    } else {
        match spec_parse_parameter(fs[0]) {
            None => Err(ValueFieldError::InvalidFirst),
            Some(p) => match spec_parse_cont_params(fs.skip(1)) {
                Some(cs) => Ok((p, cs)),
                None => Err(ValueFieldError::InvalidContinuing),
            },
        }
    }
}

/// The command type tokens that share the easing/start/end prefix.
pub open spec fn spec_is_moving_kind(f0: Seq<char>) -> bool {
    ||| f0 == "F"@
    ||| f0 == "M"@
    ||| f0 == "MX"@
    ||| f0 == "MY"@
    ||| f0 == "S"@
    ||| f0 == "V"@
    ||| f0 == "R"@
    ||| f0 == "C"@
    ||| f0 == "P"@
}

/// Dispatch of the value fields on the command type token.
pub open spec fn spec_parse_values(
    f0: Seq<char>,
    e: Easing,
    st: Integer,
    et: Option<Integer>,
    rest: Seq<Seq<char>>,
) -> Result<CommandV, CommandParseError> {
    if f0 == "F"@ {
        match spec_parse_scalar_values(rest) {
            Ok(p) => Ok(
                CommandV {
                    start_time: st,
                    properties: CommandPropertiesV::Fade {
                        easing: e,
                        end_time: et,
                        start_opacity: p.0,
                        continuing_opacities: p.1,
                    },
                },
            ),
            Err(ValueFieldError::MissingFirst) => Err(CommandParseError::MissingStartOpacity),
            Err(ValueFieldError::InvalidFirst) => Err(CommandParseError::InvalidStartOpacity),
            Err(_) => Err(CommandParseError::InvalidContinuingOpacities),
        }
    } else if f0 == "M"@ {
        match spec_parse_pair_values(rest) {
            Ok(p) => Ok(
                CommandV {
                    start_time: st,
                    properties: CommandPropertiesV::Move {
                        easing: e,
                        end_time: et,
                        move_x: p.0,
                        move_y: p.1,
                        continuing_positions: p.2,
                    },
                },
            ),
            Err(ValueFieldError::MissingFirst) => Err(CommandParseError::MissingMoveX),
            Err(ValueFieldError::InvalidFirst) => Err(CommandParseError::InvalidMoveX),
            Err(ValueFieldError::MissingSecond) => Err(CommandParseError::MissingMoveY),
            Err(ValueFieldError::InvalidSecond) => Err(CommandParseError::InvalidMoveY),
            Err(_) => Err(CommandParseError::InvalidContinuingMove),
        }
    } else if f0 == "MX"@ {
        match spec_parse_scalar_values(rest) {
            Ok(p) => Ok(
                CommandV {
                    start_time: st,
                    properties: CommandPropertiesV::MoveX {
                        easing: e,
                        end_time: et,
                        move_x: p.0,
                        continuing_x: p.1,
                    },
                },
            ),
            Err(ValueFieldError::MissingFirst) => Err(CommandParseError::MissingMoveX),
            Err(ValueFieldError::InvalidFirst) => Err(CommandParseError::InvalidMoveX),
            Err(_) => Err(CommandParseError::InvalidContinuingMove),
        }
    } else if f0 == "MY"@ {
        match spec_parse_scalar_values(rest) {
            Ok(p) => Ok(
                CommandV {
                    start_time: st,
                    properties: CommandPropertiesV::MoveY {
                        easing: e,
                        end_time: et,
                        move_y: p.0,
                        continuing_y: p.1,
                    },
                },
            ),
            Err(ValueFieldError::MissingFirst) => Err(CommandParseError::MissingMoveY),
            Err(ValueFieldError::InvalidFirst) => Err(CommandParseError::InvalidMoveY),
            Err(_) => Err(CommandParseError::InvalidContinuingMove),
        }
    } else if f0 == "S"@ {
        match spec_parse_scalar_values(rest) {
            Ok(p) => Ok(
                CommandV {
                    start_time: st,
                    properties: CommandPropertiesV::Scale {
                        easing: e,
                        end_time: et,
                        start_scale: p.0,
                        continuing_scales: p.1,
                    },
                },
            ),
            Err(ValueFieldError::MissingFirst) => Err(CommandParseError::MissingStartScale),
            Err(ValueFieldError::InvalidFirst) => Err(CommandParseError::InvalidStartScale),
            Err(_) => Err(CommandParseError::InvalidContinuingScale),
        }
    } else if f0 == "V"@ {
        match spec_parse_pair_values(rest) {
            Ok(p) => Ok(
                CommandV {
                    start_time: st,
                    properties: CommandPropertiesV::VectorScale {
                        easing: e,
                        end_time: et,
                        scale_x: p.0,
                        scale_y: p.1,
                        continuing_scales: p.2,
                    },
                },
            ),
            Err(ValueFieldError::MissingFirst) => Err(CommandParseError::MissingScaleX),
            Err(ValueFieldError::InvalidFirst) => Err(CommandParseError::InvalidScaleX),
            Err(ValueFieldError::MissingSecond) => Err(CommandParseError::MissingScaleY),
            Err(ValueFieldError::InvalidSecond) => Err(CommandParseError::InvalidScaleY),
            Err(_) => Err(CommandParseError::InvalidContinuingScales),
        }
    } else if f0 == "R"@ {
        match spec_parse_scalar_values(rest) {
            Ok(p) => Ok(
                CommandV {
                    start_time: st,
                    properties: CommandPropertiesV::Rotate {
                        easing: e,
                        end_time: et,
                        start_rotation: p.0,
                        continuing_rotations: p.1,
                    },
                },
            ),
            Err(ValueFieldError::MissingFirst) => Err(CommandParseError::MissingStartRotation),
            Err(ValueFieldError::InvalidFirst) => Err(CommandParseError::InvalidStartRotation),
            Err(_) => Err(CommandParseError::InvalidContinuingRotation),
        }
    } else if f0 == "C"@ {
        match spec_parse_colour_values(rest) {
            Ok(p) => Ok(
                CommandV {
                    start_time: st,
                    properties: CommandPropertiesV::Colour {
                        easing: e,
                        end_time: et,
                        red: p.0,
                        green: p.1,
                        blue: p.2,
                        continuing_colours: p.3,
                    },
                },
            ),
            Err(ValueFieldError::MissingFirst) => Err(CommandParseError::MissingRed),
            Err(ValueFieldError::InvalidFirst) => Err(CommandParseError::InvalidRed),
            Err(ValueFieldError::MissingSecond) => Err(CommandParseError::MissingGreen),
            Err(ValueFieldError::InvalidSecond) => Err(CommandParseError::InvalidGreen),
            Err(ValueFieldError::MissingThird) => Err(CommandParseError::MissingBlue),
            Err(ValueFieldError::InvalidThird) => Err(CommandParseError::InvalidBlue),
            Err(_) => Err(CommandParseError::InvalidContinuingColours),
        }
    } else {
        match spec_parse_param_values(rest) {
            Ok(p) => Ok(
                CommandV {
                    start_time: st,
                    properties: CommandPropertiesV::Parameter {
                        easing: e,
                        end_time: et,
                        parameter: p.0,
                        continuing_parameters: p.1,
                    },
                },
            ),
            Err(ValueFieldError::MissingFirst) => Err(CommandParseError::MissingParameterType),
            Err(ValueFieldError::InvalidFirst) => Err(CommandParseError::InvalidParameterType),
            Err(_) => Err(CommandParseError::InvalidContinuingParameters),
        }
    }
}

/// Reading of a command line that shares the easing/start/end prefix.
pub open spec fn spec_parse_moving(f0: Seq<char>, fields: Seq<Seq<char>>) -> Result<
    CommandV,
    CommandParseError,
> {
    if fields.len() < 2 {
        Err(CommandParseError::MissingEasing)
    } else {
        match spec_parse_easing(fields[1]) {
            Err(_) => Err(CommandParseError::InvalidEasing),
            Ok(e) => if fields.len() < 3 {
                Err(CommandParseError::MissingStartTime)
            } else {
                match crate::numbers::spec_parse_i32(fields[2]) {
                    None => Err(CommandParseError::InvalidStartTime),
                    Some(st) => if fields.len() < 4 {
                        Err(CommandParseError::MissingEndTime)
                    } else if fields[3].len() == 0 {
                        spec_parse_values(f0, e, st, None, fields.skip(4))
                    } else {
                        match crate::numbers::spec_parse_i32(fields[3]) {
                            None => Err(CommandParseError::InvalidEndTime),
                            Some(v) => spec_parse_values(f0, e, st, Some(v), fields.skip(4)),
                        }
                    },
                }
            },
        }
    }
}

/// Reading of a loop command line `L,<start_time>,<loop_count>`.
pub open spec fn spec_parse_loop(fields: Seq<Seq<char>>) -> Result<CommandV, CommandParseError> {
    if fields.len() < 2 {
        Err(CommandParseError::MissingStartTime)
    } else {
        match crate::numbers::spec_parse_i32(fields[1]) {
            None => Err(CommandParseError::InvalidStartTime),
            Some(st) => if fields.len() < 3 {
                Err(CommandParseError::MissingLoopCount)
            } else if fields.len() > 3 {
                Err(CommandParseError::InvalidLoopCount)
            } else {
                match crate::numbers::spec_parse_i32(fields[2]) {
                    None => Err(CommandParseError::InvalidLoopCount),
                    Some(lc) => Ok(
                        CommandV {
                            start_time: st,
                            properties: CommandPropertiesV::Loop {
                                loop_count: lc,
                                commands: Seq::<CommandV>::empty(),
                            },
                        },
                    ),
                }
            },
        }
    }
}

/// Reading of a trigger command line
/// `T,<trigger_type>[,<group_number>],<start_time>,<end_time>`.
pub open spec fn spec_parse_trigger_cmd(fields: Seq<Seq<char>>) -> Result<
    CommandV,
    CommandParseError,
> {
    if fields.len() < 2 {
        Err(CommandParseError::MissingTriggerType)
    } else {
        match spec_parse_trigger(fields[1]) {
            Err(_) => Err(CommandParseError::InvalidTriggerType),
            Ok(tt) => if fields.len() == 2 {
                Err(CommandParseError::MissingStartTime)
            } else if fields.len() == 3 {
                Err(CommandParseError::MissingEndTime)
            } else if fields.len() == 4 {
                match crate::numbers::spec_parse_i32(fields[2]) {
                    None => Err(CommandParseError::InvalidStartTime),
                    Some(st) => match crate::numbers::spec_parse_i32(fields[3]) {
                        None => Err(CommandParseError::InvalidEndTime),
                        Some(et) => Ok(
                            CommandV {
                                start_time: st,
                                properties: CommandPropertiesV::Trigger {
                                    trigger_type: tt,
                                    group_number: None,
                                    end_time: et,
                                    commands: Seq::<CommandV>::empty(),
                                },
                            },
                        ),
                    },
                }
            } else if fields.len() == 5 {
                match crate::numbers::spec_parse_i32(fields[2]) {
                    None => Err(CommandParseError::InvalidGroupNumber),
                    Some(g) => match crate::numbers::spec_parse_i32(fields[3]) {
                        None => Err(CommandParseError::InvalidStartTime),
                        Some(st) => match crate::numbers::spec_parse_i32(fields[4]) {
                            None => Err(CommandParseError::InvalidEndTime),
                            Some(et) => Ok(
                                CommandV {
                                    start_time: st,
                                    properties: CommandPropertiesV::Trigger {
                                        trigger_type: tt,
                                        group_number: Some(g),
                                        end_time: et,
                                        commands: Seq::<CommandV>::empty(),
                                    },
                                },
                            ),
                        },
                    },
                }
            } else {
                Err(CommandParseError::InvalidEndTime)
            },
        }
    }
}

/// Reading of one whole command line, indentation already removed.
pub open spec fn spec_parse_command(s: Seq<char>) -> Result<CommandV, CommandParseError> {
    let fields = crate::text::spec_split(s, ',');
    let f0 = fields[0];
    if f0 == "L"@ {
        spec_parse_loop(fields)
    } else if f0 == "T"@ {
        spec_parse_trigger_cmd(fields)
    } else if spec_is_moving_kind(f0) {
        spec_parse_moving(f0, fields)
    } else {
        Err(CommandParseError::UnknownCommandType)
    }
}

} // verus!

verus! {

/// Reads the continuing keyframes of a one-value command, exactly as
/// [`spec_parse_cont_scalars`] says.
fn parse_cont_scalars(fields: &Vec<Vec<char>>, from: usize) -> (r: Option<Vec<ContinuingScalar>>)
    requires
        from <= fields@.len(),
    ensures
        ({
            let spec = spec_parse_cont_scalars(crate::text::field_views(fields@).skip(from as int));
            match r {
                Some(v) => spec == Some(v@) && (forall|j: int|
                    0 <= j < v@.len() ==> (#[trigger] v@[j]).value.wf()),
                None => spec is None,
            }
        }),
{
    let ghost fsv = crate::text::field_views(fields@);
    let len = fields.len();
    let mut acc: Vec<ContinuingScalar> = Vec::new();
    let mut i = from;
    proof {
        assert(fsv.len() == len);
    }
    while i < len
        invariant
            from <= i <= len,
            len == fields@.len(),
            fsv == crate::text::field_views(fields@),
            fsv.len() == len,
            forall|j: int| 0 <= j < acc@.len() ==> (#[trigger] acc@[j]).value.wf(),
            spec_parse_cont_scalars(fsv.skip(from as int)) == match spec_parse_cont_scalars(
                fsv.skip(i as int),
            ) {
                Some(t) => Some(acc@ + t),
                None => None::<Seq<ContinuingScalar>>,
            },
        decreases len - i,
    {
        if i + 1 == len {
            return None;
        }
        let t = crate::numbers::parse_i32_chars(fields[i].as_slice());
        let v = crate::decimal::dec_from_chars(&fields[i + 1]);
        proof {
            assert(fsv.skip(i as int)[0] == fsv[i as int]);
            assert(fsv[i as int] == fields@[i as int]@);
            assert(fsv.skip(i as int)[1] == fsv[i + 1]);
            assert(fsv[i + 1] == fields@[i + 1]@);
            assert(fsv.skip(i as int).skip(2) =~= fsv.skip(i + 2));
        }
        match (t, v) {
            (Some(t), Some(v)) => {
                let ghost c = ContinuingScalar { end_time: t, value: v };
                proof {
                    match spec_parse_cont_scalars(fsv.skip(i + 2)) {
                        Some(tl) => {
                            assert(acc@ + (seq![c] + tl) =~= acc@.push(c) + tl);
                        },
                        None => {},
                    }
                }
                acc.push(ContinuingScalar { end_time: t, value: v });
                i += 2;
            },
            _ => {
                return None;
            },
        }
    }
    proof {
        assert(fsv.skip(len as int) =~= Seq::<Seq<char>>::empty());
        assert(acc@ + Seq::<ContinuingScalar>::empty() =~= acc@);
    }
    Some(acc)
}

/// Reads the continuing keyframes of a two-value command, exactly as
/// [`spec_parse_cont_pairs`] says.
fn parse_cont_pairs(fields: &Vec<Vec<char>>, from: usize) -> (r: Option<Vec<ContinuingPair>>)
    requires
        from <= fields@.len(),
    ensures
        ({
            let spec = spec_parse_cont_pairs(crate::text::field_views(fields@).skip(from as int));
            match r {
                Some(v) => spec == Some(v@) && (forall|j: int|
                    0 <= j < v@.len() ==> (#[trigger] v@[j]).first.wf() && (v@[j].second matches Some(
                        d,
                    ) ==> d.wf())),
                None => spec is None,
            }
        }),
{
    let ghost fsv = crate::text::field_views(fields@);
    let len = fields.len();
    let mut acc: Vec<ContinuingPair> = Vec::new();
    let mut i = from;
    proof {
        assert(fsv.len() == len);
    }
    while i < len
        invariant
            from <= i <= len,
            len == fields@.len(),
            fsv == crate::text::field_views(fields@),
            fsv.len() == len,
            forall|j: int|
                0 <= j < acc@.len() ==> (#[trigger] acc@[j]).first.wf() && (acc@[j].second matches
                Some(d) ==> d.wf()),
            spec_parse_cont_pairs(fsv.skip(from as int)) == match spec_parse_cont_pairs(
                fsv.skip(i as int),
            ) {
                Some(t) => Some(acc@ + t),
                None => None::<Seq<ContinuingPair>>,
            },
        decreases len - i,
    {
        if i + 1 == len {
            return None;
        }
        proof {
            assert(fsv.skip(i as int)[0] == fsv[i as int]);
            assert(fsv[i as int] == fields@[i as int]@);
            assert(fsv.skip(i as int)[1] == fsv[i + 1]);
            assert(fsv[i + 1] == fields@[i + 1]@);
        }
        if i + 2 == len {
            let t = crate::numbers::parse_i32_chars(fields[i].as_slice());
            let v = crate::decimal::dec_from_chars(&fields[i + 1]);
            match (t, v) {
                (Some(t), Some(v)) => {
                    let ghost c = ContinuingPair { end_time: t, first: v, second: None };
                    proof {
                        assert(fsv.skip(i + 2) =~= Seq::<Seq<char>>::empty());
                        assert(acc@ + seq![c] =~= acc@.push(c));
                    }
                    acc.push(ContinuingPair { end_time: t, first: v, second: None });
                    return Some(acc);
                },
                _ => {
                    return None;
                },
            }
        }
        let t = crate::numbers::parse_i32_chars(fields[i].as_slice());
        let v1 = crate::decimal::dec_from_chars(&fields[i + 1]);
        let v2 = crate::decimal::dec_from_chars(&fields[i + 2]);
        proof {
            assert(fsv.skip(i as int)[2] == fsv[i + 2]);
            assert(fsv[i + 2] == fields@[i + 2]@);
            assert(fsv.skip(i as int).skip(3) =~= fsv.skip(i + 3));
        }
        match (t, v1, v2) {
            (Some(t), Some(v1), Some(v2)) => {
                let ghost c = ContinuingPair { end_time: t, first: v1, second: Some(v2) };
                proof {
                    match spec_parse_cont_pairs(fsv.skip(i + 3)) {
                        Some(tl) => {
                            assert(acc@ + (seq![c] + tl) =~= acc@.push(c) + tl);
                        },
                        None => {},
                    }
                }
                acc.push(ContinuingPair { end_time: t, first: v1, second: Some(v2) });
                i += 3;
            },
            _ => {
                return None;
            },
        }
    }
    proof {
        assert(fsv.skip(len as int) =~= Seq::<Seq<char>>::empty());
        assert(acc@ + Seq::<ContinuingPair>::empty() =~= acc@);
    }
    Some(acc)
}

/// Reads the continuing keyframes of a colour command, exactly as
/// [`spec_parse_cont_rgbs`] says.
fn parse_cont_rgbs(fields: &Vec<Vec<char>>, from: usize) -> (r: Option<Vec<ContinuingRgb>>)
    requires
        from <= fields@.len(),
    ensures
        ({
            let spec = spec_parse_cont_rgbs(crate::text::field_views(fields@).skip(from as int));
            match r {
                Some(v) => spec == Some(v@),
                None => spec is None,
            }
        }),
{
    let ghost fsv = crate::text::field_views(fields@);
    let len = fields.len();
    let mut acc: Vec<ContinuingRgb> = Vec::new();
    let mut i = from;
    proof {
        assert(fsv.len() == len);
    }
    while i < len
        invariant
            from <= i <= len,
            len == fields@.len(),
            fsv == crate::text::field_views(fields@),
            fsv.len() == len,
            spec_parse_cont_rgbs(fsv.skip(from as int)) == match spec_parse_cont_rgbs(
                fsv.skip(i as int),
            ) {
                Some(t) => Some(acc@ + t),
                None => None::<Seq<ContinuingRgb>>,
            },
        decreases len - i,
    {
        if i + 1 == len {
            return None;
        }
        proof {
            assert(fsv.skip(i as int)[0] == fsv[i as int]);
            assert(fsv[i as int] == fields@[i as int]@);
            assert(fsv.skip(i as int)[1] == fsv[i + 1]);
            assert(fsv[i + 1] == fields@[i + 1]@);
        }
        if i + 2 == len {
            let t = crate::numbers::parse_i32_chars(fields[i].as_slice());
            let r0 = crate::numbers::parse_u8_chars(fields[i + 1].as_slice());
            match (t, r0) {
                (Some(t), Some(r0)) => {
                    let ghost c = ContinuingRgb { end_time: t, red: r0, green: None, blue: None };
                    proof {
                        assert(acc@ + seq![c] =~= acc@.push(c));
                    }
                    acc.push(ContinuingRgb { end_time: t, red: r0, green: None, blue: None });
                    return Some(acc);
                },
                _ => {
                    return None;
                },
            }
        }
        proof {
            assert(fsv.skip(i as int)[2] == fsv[i + 2]);
            assert(fsv[i + 2] == fields@[i + 2]@);
        }
        if i + 3 == len {
            let t = crate::numbers::parse_i32_chars(fields[i].as_slice());
            let r0 = crate::numbers::parse_u8_chars(fields[i + 1].as_slice());
            let g0 = crate::numbers::parse_u8_chars(fields[i + 2].as_slice());
            match (t, r0, g0) {
                (Some(t), Some(r0), Some(g0)) => {
                    let ghost c = ContinuingRgb {
                        end_time: t,
                        red: r0,
                        green: Some(g0),
                        blue: None,
                    };
                    proof {
                        assert(acc@ + seq![c] =~= acc@.push(c));
                    }
                    acc.push(ContinuingRgb { end_time: t, red: r0, green: Some(g0), blue: None });
                    return Some(acc);
                },
                _ => {
                    return None;
                },
            }
        }
        let t = crate::numbers::parse_i32_chars(fields[i].as_slice());
        let r0 = crate::numbers::parse_u8_chars(fields[i + 1].as_slice());
        let g0 = crate::numbers::parse_u8_chars(fields[i + 2].as_slice());
        let b0 = crate::numbers::parse_u8_chars(fields[i + 3].as_slice());
        proof {
            assert(fsv.skip(i as int)[3] == fsv[i + 3]);
            assert(fsv[i + 3] == fields@[i + 3]@);
            assert(fsv.skip(i as int).skip(4) =~= fsv.skip(i + 4));
        }
        match (t, r0, g0, b0) {
            (Some(t), Some(r0), Some(g0), Some(b0)) => {
                let ghost c = ContinuingRgb { end_time: t, red: r0, green: Some(g0), blue: Some(b0) };
                proof {
                    match spec_parse_cont_rgbs(fsv.skip(i + 4)) {
                        Some(tl) => {
                            assert(acc@ + (seq![c] + tl) =~= acc@.push(c) + tl);
                        },
                        None => {},
                    }
                }
                acc.push(ContinuingRgb { end_time: t, red: r0, green: Some(g0), blue: Some(b0) });
                i += 4;
            },
            _ => {
                return None;
            },
        }
    }
    proof {
        assert(fsv.skip(len as int) =~= Seq::<Seq<char>>::empty());
        assert(acc@ + Seq::<ContinuingRgb>::empty() =~= acc@);
    }
    Some(acc)
}

/// Reads a parameter effect field, exactly as [`spec_parse_parameter`] says.
fn parse_parameter(f: &Vec<char>) -> (r: Option<Parameter>)
    ensures
        r == spec_parse_parameter(f@),
{
    if chars_eq(f.as_slice(), "H") {
        Some(Parameter::HorizontalFlip)
    } else if chars_eq(f.as_slice(), "V") {
        Some(Parameter::VerticalFlip)
    } else if chars_eq(f.as_slice(), "A") {
        Some(Parameter::AdditiveBlend)
    } else {
        None
    }
}

/// Reads the continuing keyframes of a parameter command, exactly as
/// [`spec_parse_cont_params`] says.
fn parse_cont_params(fields: &Vec<Vec<char>>, from: usize) -> (r: Option<Vec<ContinuingParameter>>)
    requires
        from <= fields@.len(),
    ensures
        ({
            let spec = spec_parse_cont_params(crate::text::field_views(fields@).skip(from as int));
            match r {
                Some(v) => spec == Some(v@),
                None => spec is None,
            }
        }),
{
    let ghost fsv = crate::text::field_views(fields@);
    let len = fields.len();
    let mut acc: Vec<ContinuingParameter> = Vec::new();
    let mut i = from;
    proof {
        assert(fsv.len() == len);
    }
    while i < len
        invariant
            from <= i <= len,
            len == fields@.len(),
            fsv == crate::text::field_views(fields@),
            fsv.len() == len,
            spec_parse_cont_params(fsv.skip(from as int)) == match spec_parse_cont_params(
                fsv.skip(i as int),
            ) {
                Some(t) => Some(acc@ + t),
                None => None::<Seq<ContinuingParameter>>,
            },
        decreases len - i,
    {
        if i + 1 == len {
            return None;
        }
        let t = crate::numbers::parse_i32_chars(fields[i].as_slice());
        let p = parse_parameter(&fields[i + 1]);
        proof {
            assert(fsv.skip(i as int)[0] == fsv[i as int]);
            assert(fsv[i as int] == fields@[i as int]@);
            assert(fsv.skip(i as int)[1] == fsv[i + 1]);
            assert(fsv[i + 1] == fields@[i + 1]@);
            assert(fsv.skip(i as int).skip(2) =~= fsv.skip(i + 2));
        }
        match (t, p) {
            (Some(t), Some(p)) => {
                let ghost c = ContinuingParameter { end_time: t, parameter: p };
                proof {
                    match spec_parse_cont_params(fsv.skip(i + 2)) {
                        Some(tl) => {
                            assert(acc@ + (seq![c] + tl) =~= acc@.push(c) + tl);
                        },
                        None => {},
                    }
                }
                acc.push(ContinuingParameter { end_time: t, parameter: p });
                i += 2;
            },
            _ => {
                return None;
            },
        }
    }
    proof {
        assert(fsv.skip(len as int) =~= Seq::<Seq<char>>::empty());
        assert(acc@ + Seq::<ContinuingParameter>::empty() =~= acc@);
    }
    Some(acc)
}

} // verus!

verus! {

/// Reads the value fields of a one-value command, exactly as
/// [`spec_parse_scalar_values`] says.
fn parse_scalar_values(fields: &Vec<Vec<char>>, from: usize) -> (r: Result<
    (Dec, Vec<ContinuingScalar>),
    ValueFieldError,
>)
    requires
        from <= fields@.len(),
    ensures
        ({
            let spec = spec_parse_scalar_values(crate::text::field_views(fields@).skip(from as int));
            match r {
                Ok(p) => spec == Ok::<_, ValueFieldError>((p.0, p.1@)) && p.0.wf() && (forall|
                    j: int,
                |
                    0 <= j < p.1@.len() ==> (#[trigger] p.1@[j]).value.wf()),
                Err(e) => spec == Err::<(Dec, Seq<ContinuingScalar>), _>(e),
            }
        }),
{
    let ghost fsv = crate::text::field_views(fields@);
    let ghost rest = fsv.skip(from as int);
    let len = fields.len();
    proof {
        assert(fsv.len() == len);
    }
    if from == len {
        return Err(ValueFieldError::MissingFirst);
    }
    proof {
        assert(rest[0] == fsv[from as int]);
        assert(fsv[from as int] == fields@[from as int]@);
        assert(rest.skip(1) =~= fsv.skip(from + 1));
    }
    match crate::decimal::dec_from_chars(&fields[from]) {
        None => Err(ValueFieldError::InvalidFirst),
        Some(v) => {
            match parse_cont_scalars(fields, from + 1) {
                Some(cs) => Ok((v, cs)),
                None => Err(ValueFieldError::InvalidContinuing),
            }
        },
    }
}

/// Reads the value fields of a two-value command, exactly as
/// [`spec_parse_pair_values`] says.
fn parse_pair_values(fields: &Vec<Vec<char>>, from: usize) -> (r: Result<
    (Dec, Dec, Vec<ContinuingPair>),
    ValueFieldError,
>)
    requires
        from <= fields@.len(),
    ensures
        ({
            let spec = spec_parse_pair_values(crate::text::field_views(fields@).skip(from as int));
            match r {
                Ok(p) => spec == Ok::<_, ValueFieldError>((p.0, p.1, p.2@)) && p.0.wf() && p.1.wf()
                    && (forall|j: int|
                    0 <= j < p.2@.len() ==> (#[trigger] p.2@[j]).first.wf() && (p.2@[j].second
                        matches Some(d) ==> d.wf())),
                Err(e) => spec == Err::<(Dec, Dec, Seq<ContinuingPair>), _>(e),
            }
        }),
{
    let ghost fsv = crate::text::field_views(fields@);
    let ghost rest = fsv.skip(from as int);
    let len = fields.len();
    proof {
        assert(fsv.len() == len);
    }
    if from == len {
        return Err(ValueFieldError::MissingFirst);
    }
    proof {
        assert(rest[0] == fsv[from as int]);
        assert(fsv[from as int] == fields@[from as int]@);
    }
    match crate::decimal::dec_from_chars(&fields[from]) {
        None => Err(ValueFieldError::InvalidFirst),
        Some(v1) => {
            if from + 1 == len {
                return Err(ValueFieldError::MissingSecond);
            }
            proof {
                assert(rest[1] == fsv[from + 1]);
                assert(fsv[from + 1] == fields@[from + 1]@);
                assert(rest.skip(2) =~= fsv.skip(from + 2));
            }
            match crate::decimal::dec_from_chars(&fields[from + 1]) {
                None => Err(ValueFieldError::InvalidSecond),
                Some(v2) => {
                    match parse_cont_pairs(fields, from + 2) {
                        Some(cs) => Ok((v1, v2, cs)),
                        None => Err(ValueFieldError::InvalidContinuing),
                    }
                },
            }
        },
    }
}

/// Reads the value fields of a colour command, exactly as
/// [`spec_parse_colour_values`] says.
fn parse_colour_values(fields: &Vec<Vec<char>>, from: usize) -> (r: Result<
    (u8, u8, u8, Vec<ContinuingRgb>),
    ValueFieldError,
>)
    requires
        from <= fields@.len(),
    ensures
        ({
            let spec = spec_parse_colour_values(crate::text::field_views(fields@).skip(from as int));
            match r {
                Ok(p) => spec == Ok::<_, ValueFieldError>((p.0, p.1, p.2, p.3@)),
                Err(e) => spec == Err::<(u8, u8, u8, Seq<ContinuingRgb>), _>(e),
            }
        }),
{
    let ghost fsv = crate::text::field_views(fields@);
    let ghost rest = fsv.skip(from as int);
    let len = fields.len();
    proof {
        assert(fsv.len() == len);
    }
    if from == len {
        return Err(ValueFieldError::MissingFirst);
    }
    proof {
        assert(rest[0] == fsv[from as int]);
        assert(fsv[from as int] == fields@[from as int]@);
    }
    match crate::numbers::parse_u8_chars(fields[from].as_slice()) {
        None => Err(ValueFieldError::InvalidFirst),
        Some(red) => {
            if from + 1 == len {
                return Err(ValueFieldError::MissingSecond);
            }
            proof {
                assert(rest[1] == fsv[from + 1]);
                assert(fsv[from + 1] == fields@[from + 1]@);
            }
            match crate::numbers::parse_u8_chars(fields[from + 1].as_slice()) {
                None => Err(ValueFieldError::InvalidSecond),
                Some(green) => {
                    if from + 2 == len {
                        return Err(ValueFieldError::MissingThird);
                    }
                    proof {
                        assert(rest[2] == fsv[from + 2]);
                        assert(fsv[from + 2] == fields@[from + 2]@);
                        assert(rest.skip(3) =~= fsv.skip(from + 3));
                    }
                    match crate::numbers::parse_u8_chars(fields[from + 2].as_slice()) {
                        None => Err(ValueFieldError::InvalidThird),
                        Some(blue) => {
                            match parse_cont_rgbs(fields, from + 3) {
                                Some(cs) => Ok((red, green, blue, cs)),
                                None => Err(ValueFieldError::InvalidContinuing),
                            }
                        },
                    }
                },
            }
        },
    }
}

/// Reads the value fields of a parameter command, exactly as
/// [`spec_parse_param_values`] says.
fn parse_param_values(fields: &Vec<Vec<char>>, from: usize) -> (r: Result<
    (Parameter, Vec<ContinuingParameter>),
    ValueFieldError,
>)
    requires
        from <= fields@.len(),
    ensures
        ({
            let spec = spec_parse_param_values(crate::text::field_views(fields@).skip(from as int));
            match r {
                Ok(p) => spec == Ok::<_, ValueFieldError>((p.0, p.1@)),
                Err(e) => spec == Err::<(Parameter, Seq<ContinuingParameter>), _>(e),
            }
        }),
{
    let ghost fsv = crate::text::field_views(fields@);
    let ghost rest = fsv.skip(from as int);
    let len = fields.len();
    proof {
        assert(fsv.len() == len);
    }
    if from == len {
        return Err(ValueFieldError::MissingFirst);
    }
    proof {
        assert(rest[0] == fsv[from as int]);
        assert(fsv[from as int] == fields@[from as int]@);
        assert(rest.skip(1) =~= fsv.skip(from + 1));
    }
    match parse_parameter(&fields[from]) {
        None => Err(ValueFieldError::InvalidFirst),
        Some(p) => {
            match parse_cont_params(fields, from + 1) {
                Some(cs) => Ok((p, cs)),
                None => Err(ValueFieldError::InvalidContinuing),
            }
        },
    }
}

} // verus!

verus! {

fn parse_loop_cmd(fields: &Vec<Vec<char>>) -> (r: Result<Command, CommandParseError>)
    requires
        fields@.len() >= 1,
    ensures
        ({
            let spec = spec_parse_loop(crate::text::field_views(fields@));
            match r {
                Ok(c) => spec == Ok::<_, CommandParseError>(cmd_view(c)),
                Err(e) => spec == Err::<CommandV, _>(e),
            }
        }),
{
    let ghost fsv = crate::text::field_views(fields@);
    let len = fields.len();
    if len < 2 {
        return Err(CommandParseError::MissingStartTime);
    }
    proof {
        assert(fsv[1] == fields@[1]@);
        assert(cmds_view(Seq::<Command>::empty()) == Seq::<CommandV>::empty());
    }
    match crate::numbers::parse_i32_chars(fields[1].as_slice()) {
        None => Err(CommandParseError::InvalidStartTime),
        Some(st) => {
            if len < 3 {
                return Err(CommandParseError::MissingLoopCount);
            }
            if len > 3 {
                return Err(CommandParseError::InvalidLoopCount);
            }
            proof {
                assert(fsv[2] == fields@[2]@);
            }
            match crate::numbers::parse_i32_chars(fields[2].as_slice()) {
                None => Err(CommandParseError::InvalidLoopCount),
                Some(lc) => Ok(
                    Command {
                        start_time: st,
                        properties: CommandProperties::Loop { loop_count: lc, commands: Vec::new() },
                    },
                ),
            }
        },
    }
}

fn parse_trigger_line(fields: &Vec<Vec<char>>) -> (r: Result<Command, CommandParseError>)
    requires
        fields@.len() >= 1,
    ensures
        ({
            let spec = spec_parse_trigger_cmd(crate::text::field_views(fields@));
            match r {
                Ok(c) => spec == Ok::<_, CommandParseError>(cmd_view(c)),
                Err(e) => spec == Err::<CommandV, _>(e),
            }
        }),
{
    let ghost fsv = crate::text::field_views(fields@);
    let len = fields.len();
    if len < 2 {
        return Err(CommandParseError::MissingTriggerType);
    }
    proof {
        assert(fsv[1] == fields@[1]@);
        assert(cmds_view(Seq::<Command>::empty()) == Seq::<CommandV>::empty());
    }
    match TriggerType::parse(fields[1].as_slice()) {
        Err(_) => Err(CommandParseError::InvalidTriggerType),
        Ok(tt) => {
            if len == 2 {
                return Err(CommandParseError::MissingStartTime);
            }
            if len == 3 {
                return Err(CommandParseError::MissingEndTime);
            }
            proof {
                assert(fsv[2] == fields@[2]@);
                assert(fsv[3] == fields@[3]@);
            }
            if len == 4 {
                match crate::numbers::parse_i32_chars(fields[2].as_slice()) {
                    None => Err(CommandParseError::InvalidStartTime),
                    Some(st) => match crate::numbers::parse_i32_chars(fields[3].as_slice()) {
                        None => Err(CommandParseError::InvalidEndTime),
                        Some(et) => Ok(
                            Command {
                                start_time: st,
                                properties: CommandProperties::Trigger {
                                    trigger_type: tt,
                                    group_number: None,
                                    end_time: et,
                                    commands: Vec::new(),
                                },
                            },
                        ),
                    },
                }
            } else if len == 5 {
                proof {
                    assert(fsv[4] == fields@[4]@);
                }
                match crate::numbers::parse_i32_chars(fields[2].as_slice()) {
                    None => Err(CommandParseError::InvalidGroupNumber),
                    Some(g) => match crate::numbers::parse_i32_chars(fields[3].as_slice()) {
                        None => Err(CommandParseError::InvalidStartTime),
                        Some(st) => match crate::numbers::parse_i32_chars(fields[4].as_slice()) {
                            None => Err(CommandParseError::InvalidEndTime),
                            Some(et) => Ok(
                                Command {
                                    start_time: st,
                                    properties: CommandProperties::Trigger {
                                        trigger_type: tt,
                                        group_number: Some(g),
                                        end_time: et,
                                        commands: Vec::new(),
                                    },
                                },
                            ),
                        },
                    },
                }
            } else {
                Err(CommandParseError::InvalidEndTime)
            }
        },
    }
}

/// A command type token that shares the easing/start/end prefix.
#[derive(Clone, Copy, Debug, PartialEq, Eq, Structural)]
enum MovingKind {
    Fade,
    Move,
    MoveX,
    MoveY,
    Scale,
    VectorScale,
    Rotate,
    Colour,
    Parameter,
}

/// The type token of a moving kind.
spec fn spec_moving_token(k: MovingKind) -> Seq<char> {
    match k {
        MovingKind::Fade => "F"@,
        MovingKind::Move => "M"@,
        MovingKind::MoveX => "MX"@,
        MovingKind::MoveY => "MY"@,
        MovingKind::Scale => "S"@,
        MovingKind::VectorScale => "V"@,
        MovingKind::Rotate => "R"@,
        MovingKind::Colour => "C"@,
        MovingKind::Parameter => "P"@,
    }
}

#[verifier::rlimit(100)]
fn parse_values_dispatch(
    kind: MovingKind,
    easing: Easing,
    st: Integer,
    et: Option<Integer>,
    fields: &Vec<Vec<char>>,
) -> (r: Result<Command, CommandParseError>)
    requires
        fields@.len() >= 4,
    ensures
        ({
            let spec = spec_parse_values(
                spec_moving_token(kind),
                easing,
                st,
                et,
                crate::text::field_views(fields@).skip(4),
            );
            match r {
                Ok(c) => spec == Ok::<_, CommandParseError>(cmd_view(c)),
                Err(e) => spec == Err::<CommandV, _>(e),
            }
        }),
{
    proof {
        reveal_strlit("F");
        reveal_strlit("M");
        reveal_strlit("MX");
        reveal_strlit("MY");
        reveal_strlit("S");
        reveal_strlit("V");
        reveal_strlit("R");
        reveal_strlit("C");
        reveal_strlit("P");
        assert("F"@.len() == 1);
        assert("F"@[0] == 'F');
        assert("M"@.len() == 1);
        assert("M"@[0] == 'M');
        assert("MX"@.len() == 2);
        assert("MX"@[0] == 'M');
        assert("MX"@[1] == 'X');
        assert("MY"@.len() == 2);
        assert("MY"@[0] == 'M');
        assert("MY"@[1] == 'Y');
        assert("S"@.len() == 1);
        assert("S"@[0] == 'S');
        assert("V"@.len() == 1);
        assert("V"@[0] == 'V');
        assert("R"@.len() == 1);
        assert("R"@[0] == 'R');
        assert("C"@.len() == 1);
        assert("C"@[0] == 'C');
        assert("P"@.len() == 1);
        assert("P"@[0] == 'P');
        assert("M"@ != "F"@);
        assert("MX"@ != "F"@);
        assert("MX"@ != "M"@);
        assert("MY"@ != "F"@);
        assert("MY"@ != "M"@);
        assert("MY"@ != "MX"@);
        assert("S"@ != "F"@);
        assert("S"@ != "M"@);
        assert("S"@ != "MX"@);
        assert("S"@ != "MY"@);
        assert("V"@ != "F"@);
        assert("V"@ != "M"@);
        assert("V"@ != "MX"@);
        assert("V"@ != "MY"@);
        assert("V"@ != "S"@);
        assert("R"@ != "F"@);
        assert("R"@ != "M"@);
        assert("R"@ != "MX"@);
        assert("R"@ != "MY"@);
        assert("R"@ != "S"@);
        assert("R"@ != "V"@);
        assert("C"@ != "F"@);
        assert("C"@ != "M"@);
        assert("C"@ != "MX"@);
        assert("C"@ != "MY"@);
        assert("C"@ != "S"@);
        assert("C"@ != "V"@);
        assert("C"@ != "R"@);
        assert("P"@ != "F"@);
        assert("P"@ != "M"@);
        assert("P"@ != "MX"@);
        assert("P"@ != "MY"@);
        assert("P"@ != "S"@);
        assert("P"@ != "V"@);
        assert("P"@ != "R"@);
        assert("P"@ != "C"@);
    }
    match kind {
        MovingKind::Fade => {
            match parse_scalar_values(fields, 4) {
                Ok(p) => Ok(
                    Command {
                        start_time: st,
                        properties: CommandProperties::Fade {
                            easing,
                            end_time: et,
                            start_opacity: p.0,
                            continuing_opacities: p.1,
                        },
                    },
                ),
                Err(ValueFieldError::MissingFirst) => Err(CommandParseError::MissingStartOpacity),
                Err(ValueFieldError::InvalidFirst) => Err(CommandParseError::InvalidStartOpacity),
                Err(_) => Err(CommandParseError::InvalidContinuingOpacities),
            }
        },
        MovingKind::Move => {
            match parse_pair_values(fields, 4) {
                Ok(p) => Ok(
                    Command {
                        start_time: st,
                        properties: CommandProperties::Move {
                            easing,
                            end_time: et,
                            move_x: p.0,
                            move_y: p.1,
                            continuing_positions: p.2,
                        },
                    },
                ),
                Err(ValueFieldError::MissingFirst) => Err(CommandParseError::MissingMoveX),
                Err(ValueFieldError::InvalidFirst) => Err(CommandParseError::InvalidMoveX),
                Err(ValueFieldError::MissingSecond) => Err(CommandParseError::MissingMoveY),
                Err(ValueFieldError::InvalidSecond) => Err(CommandParseError::InvalidMoveY),
                Err(_) => Err(CommandParseError::InvalidContinuingMove),
            }
        },
        MovingKind::MoveX => {
            match parse_scalar_values(fields, 4) {
                Ok(p) => Ok(
                    Command {
                        start_time: st,
                        properties: CommandProperties::MoveX {
                            easing,
                            end_time: et,
                            move_x: p.0,
                            continuing_x: p.1,
                        },
                    },
                ),
                Err(ValueFieldError::MissingFirst) => Err(CommandParseError::MissingMoveX),
                Err(ValueFieldError::InvalidFirst) => Err(CommandParseError::InvalidMoveX),
                Err(_) => Err(CommandParseError::InvalidContinuingMove),
            }
        },
        MovingKind::MoveY => {
            match parse_scalar_values(fields, 4) {
                Ok(p) => Ok(
                    Command {
                        start_time: st,
                        properties: CommandProperties::MoveY {
                            easing,
                            end_time: et,
                            move_y: p.0,
                            continuing_y: p.1,
                        },
                    },
                ),
                Err(ValueFieldError::MissingFirst) => Err(CommandParseError::MissingMoveY),
                Err(ValueFieldError::InvalidFirst) => Err(CommandParseError::InvalidMoveY),
                Err(_) => Err(CommandParseError::InvalidContinuingMove),
            }
        },
        MovingKind::Scale => {
            match parse_scalar_values(fields, 4) {
                Ok(p) => Ok(
                    Command {
                        start_time: st,
                        properties: CommandProperties::Scale {
                            easing,
                            end_time: et,
                            start_scale: p.0,
                            continuing_scales: p.1,
                        },
                    },
                ),
                Err(ValueFieldError::MissingFirst) => Err(CommandParseError::MissingStartScale),
                Err(ValueFieldError::InvalidFirst) => Err(CommandParseError::InvalidStartScale),
                Err(_) => Err(CommandParseError::InvalidContinuingScale),
            }
        },
        MovingKind::VectorScale => {
            match parse_pair_values(fields, 4) {
                Ok(p) => Ok(
                    Command {
                        start_time: st,
                        properties: CommandProperties::VectorScale {
                            easing,
                            end_time: et,
                            scale_x: p.0,
                            scale_y: p.1,
                            continuing_scales: p.2,
                        },
                    },
                ),
                Err(ValueFieldError::MissingFirst) => Err(CommandParseError::MissingScaleX),
                Err(ValueFieldError::InvalidFirst) => Err(CommandParseError::InvalidScaleX),
                Err(ValueFieldError::MissingSecond) => Err(CommandParseError::MissingScaleY),
                Err(ValueFieldError::InvalidSecond) => Err(CommandParseError::InvalidScaleY),
                Err(_) => Err(CommandParseError::InvalidContinuingScales),
            }
        },
        MovingKind::Rotate => {
            match parse_scalar_values(fields, 4) {
                Ok(p) => Ok(
                    Command {
                        start_time: st,
                        properties: CommandProperties::Rotate {
                            easing,
                            end_time: et,
                            start_rotation: p.0,
                            continuing_rotations: p.1,
                        },
                    },
                ),
                Err(ValueFieldError::MissingFirst) => Err(CommandParseError::MissingStartRotation),
                Err(ValueFieldError::InvalidFirst) => Err(CommandParseError::InvalidStartRotation),
                Err(_) => Err(CommandParseError::InvalidContinuingRotation),
            }
        },
        MovingKind::Colour => {
            match parse_colour_values(fields, 4) {
                Ok(p) => Ok(
                    Command {
                        start_time: st,
                        properties: CommandProperties::Colour {
                            easing,
                            end_time: et,
                            red: p.0,
                            green: p.1,
                            blue: p.2,
                            continuing_colours: p.3,
                        },
                    },
                ),
                Err(ValueFieldError::MissingFirst) => Err(CommandParseError::MissingRed),
                Err(ValueFieldError::InvalidFirst) => Err(CommandParseError::InvalidRed),
                Err(ValueFieldError::MissingSecond) => Err(CommandParseError::MissingGreen),
                Err(ValueFieldError::InvalidSecond) => Err(CommandParseError::InvalidGreen),
                Err(ValueFieldError::MissingThird) => Err(CommandParseError::MissingBlue),
                Err(ValueFieldError::InvalidThird) => Err(CommandParseError::InvalidBlue),
                Err(_) => Err(CommandParseError::InvalidContinuingColours),
            }
        },
        MovingKind::Parameter => {
            match parse_param_values(fields, 4) {
                Ok(p) => Ok(
                    Command {
                        start_time: st,
                        properties: CommandProperties::Parameter {
                            easing,
                            end_time: et,
                            parameter: p.0,
                            continuing_parameters: p.1,
                        },
                    },
                ),
                Err(ValueFieldError::MissingFirst) => Err(CommandParseError::MissingParameterType),
                Err(ValueFieldError::InvalidFirst) => Err(CommandParseError::InvalidParameterType),
                Err(_) => Err(CommandParseError::InvalidContinuingParameters),
            }
        },
    }
}

#[verifier::rlimit(100)]
fn parse_moving_cmd(kind: MovingKind, fields: &Vec<Vec<char>>) -> (r: Result<
    Command,
    CommandParseError,
>)
    requires
        fields@.len() >= 1,
        crate::text::field_views(fields@)[0] == spec_moving_token(kind),
    ensures
        ({
            let fsv = crate::text::field_views(fields@);
            let spec = spec_parse_moving(fsv[0], fsv);
            match r {
                Ok(c) => spec == Ok::<_, CommandParseError>(cmd_view(c)),
                Err(e) => spec == Err::<CommandV, _>(e),
            }
        }),
{
    let ghost fsv = crate::text::field_views(fields@);
    let len = fields.len();
    if len < 2 {
        return Err(CommandParseError::MissingEasing);
    }
    proof {
        assert(fsv[1] == fields@[1]@);
    }
    let easing = match Easing::parse(fields[1].as_slice()) {
        Err(_) => {
            return Err(CommandParseError::InvalidEasing);
        },
        Ok(e) => e,
    };
    if len < 3 {
        return Err(CommandParseError::MissingStartTime);
    }
    proof {
        assert(fsv[2] == fields@[2]@);
    }
    let st = match crate::numbers::parse_i32_chars(fields[2].as_slice()) {
        None => {
            return Err(CommandParseError::InvalidStartTime);
        },
        Some(v) => v,
    };
    if len < 4 {
        return Err(CommandParseError::MissingEndTime);
    }
    proof {
        assert(fsv[3] == fields@[3]@);
    }
    let et: Option<Integer> = if fields[3].len() == 0 {
        None
    } else {
        match crate::numbers::parse_i32_chars(fields[3].as_slice()) {
            None => {
                return Err(CommandParseError::InvalidEndTime);
            },
            Some(v) => Some(v),
        }
    };
    parse_values_dispatch(kind, easing, st, et, fields)
}

impl Command {
    /// Reads one command line, its indentation already removed, exactly as
    /// [`spec_parse_command`] says.
    pub fn parse(line: &[char]) -> (r: Result<Command, CommandParseError>)
        ensures
            ({
                let spec = spec_parse_command(line@);
                match r {
                    Ok(c) => spec == Ok::<_, CommandParseError>(cmd_view(c)),
                    Err(e) => spec == Err::<CommandV, _>(e),
                }
            }),
    {
        let fields = crate::text::split_chars(line, ',');
        let ghost fsv = crate::text::spec_split(line@, ',');
        proof {
            assert(crate::text::field_views(fields@) == fsv);
            assert(fsv[0] == fields@[0]@);
        }
        if chars_eq(fields[0].as_slice(), "L") {
            parse_loop_cmd(&fields)
        } else if chars_eq(fields[0].as_slice(), "T") {
            parse_trigger_line(&fields)
        } else if chars_eq(fields[0].as_slice(), "F") {
            parse_moving_cmd(MovingKind::Fade, &fields)
        } else if chars_eq(fields[0].as_slice(), "M") {
            parse_moving_cmd(MovingKind::Move, &fields)
        } else if chars_eq(fields[0].as_slice(), "MX") {
            parse_moving_cmd(MovingKind::MoveX, &fields)
        } else if chars_eq(fields[0].as_slice(), "MY") {
            parse_moving_cmd(MovingKind::MoveY, &fields)
        } else if chars_eq(fields[0].as_slice(), "S") {
            parse_moving_cmd(MovingKind::Scale, &fields)
        } else if chars_eq(fields[0].as_slice(), "V") {
            parse_moving_cmd(MovingKind::VectorScale, &fields)
        } else if chars_eq(fields[0].as_slice(), "R") {
            parse_moving_cmd(MovingKind::Rotate, &fields)
        } else if chars_eq(fields[0].as_slice(), "C") {
            parse_moving_cmd(MovingKind::Colour, &fields)
        } else if chars_eq(fields[0].as_slice(), "P") {
            parse_moving_cmd(MovingKind::Parameter, &fields)
        } else {
            Err(CommandParseError::UnknownCommandType)
        }
    }
}

} // verus!

verus! {

/// The text of an optional end time: empty when absent.
pub open spec fn spec_opt_int_chars(v: Option<Integer>) -> Seq<char> {
    match v {
        Some(x) => crate::numbers::spec_int_chars(x as int),
        None => Seq::<char>::empty(),
    }
}

/// The text of the easing/start/end prefix that follows a command type
/// token.
pub open spec fn spec_common_chars(e: Easing, st: Integer, et: Option<Integer>) -> Seq<char> {
    seq![','] + crate::numbers::spec_nat_chars(e.0 as nat) + seq![','] + crate::numbers::spec_int_chars(
        st as int,
    ) + seq![','] + spec_opt_int_chars(et)
}

/// The text of a parameter effect.
pub open spec fn spec_param_chars(p: Parameter) -> Seq<char> {
    match p {
        Parameter::HorizontalFlip => "H"@,
        Parameter::VerticalFlip => "V"@,
        Parameter::AdditiveBlend => "A"@,
    }
}

/// The text of the continuing keyframes of a one-value command.
pub open spec fn spec_cont_scalars_chars(cs: Seq<ContinuingScalar>) -> Seq<char>
    decreases cs.len(),
{
    if cs.len() == 0 {
        Seq::<char>::empty()
    } else {
        seq![','] + crate::numbers::spec_int_chars(cs[0].end_time as int) + seq![',']
            + crate::decimal::spec_dec_chars(cs[0].value) + spec_cont_scalars_chars(cs.drop_first())
    }
}

/// The text of the continuing keyframes of a two-value command.
pub open spec fn spec_cont_pairs_chars(cs: Seq<ContinuingPair>) -> Seq<char>
    decreases cs.len(),
{
    if cs.len() == 0 {
        Seq::<char>::empty()
    } else {
        seq![','] + crate::numbers::spec_int_chars(cs[0].end_time as int) + seq![',']
            + crate::decimal::spec_dec_chars(cs[0].first) + (match cs[0].second {
            Some(v) => seq![','] + crate::decimal::spec_dec_chars(v),
            None => Seq::<char>::empty(),
        }) + spec_cont_pairs_chars(cs.drop_first())
    }
}

/// The text of the continuing keyframes of a colour command.
pub open spec fn spec_cont_rgbs_chars(cs: Seq<ContinuingRgb>) -> Seq<char>
    decreases cs.len(),
{
    if cs.len() == 0 {
        Seq::<char>::empty()
    } else {
        seq![','] + crate::numbers::spec_int_chars(cs[0].end_time as int) + seq![',']
            + crate::numbers::spec_nat_chars(cs[0].red as nat) + (match cs[0].green {
            Some(g) => seq![','] + crate::numbers::spec_nat_chars(g as nat),
            None => Seq::<char>::empty(),
        }) + (match cs[0].blue {
            Some(b) => seq![','] + crate::numbers::spec_nat_chars(b as nat),
            None => Seq::<char>::empty(),
        }) + spec_cont_rgbs_chars(cs.drop_first())
    }
}

/// The text of the continuing keyframes of a parameter command.
pub open spec fn spec_cont_params_chars(cs: Seq<ContinuingParameter>) -> Seq<char>
    decreases cs.len(),
{
    if cs.len() == 0 {
        Seq::<char>::empty()
    } else {
        seq![','] + crate::numbers::spec_int_chars(cs[0].end_time as int) + seq![',']
            + spec_param_chars(cs[0].parameter) + spec_cont_params_chars(cs.drop_first())
    }
}

/// The one line of text for a command, without indentation and without its
/// children.
pub open spec fn spec_render_command(c: CommandV) -> Seq<char> {
    match c.properties {
        CommandPropertiesV::Fade { easing, end_time, start_opacity, continuing_opacities } => {
            "F"@ + spec_common_chars(easing, c.start_time, end_time) + seq![',']
                + crate::decimal::spec_dec_chars(start_opacity) + spec_cont_scalars_chars(
                continuing_opacities,
            )
        },
        CommandPropertiesV::Move { easing, end_time, move_x, move_y, continuing_positions } => {
            "M"@ + spec_common_chars(easing, c.start_time, end_time) + seq![',']
                + crate::decimal::spec_dec_chars(move_x) + seq![','] + crate::decimal::spec_dec_chars(
                move_y,
            ) + spec_cont_pairs_chars(continuing_positions)
        },
        CommandPropertiesV::MoveX { easing, end_time, move_x, continuing_x } => {
            "MX"@ + spec_common_chars(easing, c.start_time, end_time) + seq![',']
                + crate::decimal::spec_dec_chars(move_x) + spec_cont_scalars_chars(continuing_x)
        },
        CommandPropertiesV::MoveY { easing, end_time, move_y, continuing_y } => {
            "MY"@ + spec_common_chars(easing, c.start_time, end_time) + seq![',']
                + crate::decimal::spec_dec_chars(move_y) + spec_cont_scalars_chars(continuing_y)
        },
        CommandPropertiesV::Scale { easing, end_time, start_scale, continuing_scales } => {
            "S"@ + spec_common_chars(easing, c.start_time, end_time) + seq![',']
                + crate::decimal::spec_dec_chars(start_scale) + spec_cont_scalars_chars(
                continuing_scales,
            )
        },
        CommandPropertiesV::VectorScale { easing, end_time, scale_x, scale_y, continuing_scales } => {
            "V"@ + spec_common_chars(easing, c.start_time, end_time) + seq![',']
                + crate::decimal::spec_dec_chars(scale_x) + seq![','] + crate::decimal::spec_dec_chars(
                scale_y,
            ) + spec_cont_pairs_chars(continuing_scales)
        },
        CommandPropertiesV::Rotate { easing, end_time, start_rotation, continuing_rotations } => {
            "R"@ + spec_common_chars(easing, c.start_time, end_time) + seq![',']
                + crate::decimal::spec_dec_chars(start_rotation) + spec_cont_scalars_chars(
                continuing_rotations,
            )
        },
        CommandPropertiesV::Colour { easing, end_time, red, green, blue, continuing_colours } => {
            "C"@ + spec_common_chars(easing, c.start_time, end_time) + seq![',']
                + crate::numbers::spec_nat_chars(red as nat) + seq![',']
                + crate::numbers::spec_nat_chars(green as nat) + seq![',']
                + crate::numbers::spec_nat_chars(blue as nat) + spec_cont_rgbs_chars(
                continuing_colours,
            )
        },
        CommandPropertiesV::Parameter { easing, end_time, parameter, continuing_parameters } => {
            "P"@ + spec_common_chars(easing, c.start_time, end_time) + seq![','] + spec_param_chars(
                parameter,
            ) + spec_cont_params_chars(continuing_parameters)
        },
        CommandPropertiesV::Loop { loop_count, .. } => {
            "L"@ + seq![','] + crate::numbers::spec_int_chars(c.start_time as int) + seq![',']
                + crate::numbers::spec_int_chars(loop_count as int)
        },
        CommandPropertiesV::Trigger { trigger_type, group_number, end_time, .. } => {
            "T"@ + seq![','] + spec_render_trigger(trigger_type) + seq![','] + (match group_number {
                Some(g) => crate::numbers::spec_int_chars(g as int) + seq![','],
                None => Seq::<char>::empty(),
            }) + crate::numbers::spec_int_chars(c.start_time as int) + seq![',']
                + crate::numbers::spec_int_chars(end_time as int)
        },
    }
}

/// Whether every decimal value on this command line is representable, so
/// that the line has a textual form.
pub open spec fn spec_cmd_line_wf(c: CommandV) -> bool {
    match c.properties {
        CommandPropertiesV::Fade { start_opacity, continuing_opacities, .. } => start_opacity.wf()
            && cont_scalars_dec_wf(continuing_opacities),
        CommandPropertiesV::Move { move_x, move_y, continuing_positions, .. } => move_x.wf()
            && move_y.wf() && cont_pairs_dec_wf(continuing_positions),
        CommandPropertiesV::MoveX { move_x, continuing_x, .. } => move_x.wf()
            && cont_scalars_dec_wf(continuing_x),
        CommandPropertiesV::MoveY { move_y, continuing_y, .. } => move_y.wf()
            && cont_scalars_dec_wf(continuing_y),
        CommandPropertiesV::Scale { start_scale, continuing_scales, .. } => start_scale.wf()
            && cont_scalars_dec_wf(continuing_scales),
        CommandPropertiesV::VectorScale { scale_x, scale_y, continuing_scales, .. } => scale_x.wf()
            && scale_y.wf() && cont_pairs_dec_wf(continuing_scales),
        CommandPropertiesV::Rotate { start_rotation, continuing_rotations, .. } => start_rotation.wf()
            && cont_scalars_dec_wf(continuing_rotations),
        CommandPropertiesV::Colour { .. } => true,
        CommandPropertiesV::Parameter { .. } => true,
        CommandPropertiesV::Loop { .. } => true,
        CommandPropertiesV::Trigger { .. } => true,
    }
}

/// Every decimal of the keyframes is representable.
pub open spec fn cont_scalars_dec_wf(cs: Seq<ContinuingScalar>) -> bool {
    forall|j: int| 0 <= j < cs.len() ==> (#[trigger] cs[j]).value.wf()
}

/// Every decimal of the keyframes is representable.
pub open spec fn cont_pairs_dec_wf(cs: Seq<ContinuingPair>) -> bool {
    forall|j: int|
        0 <= j < cs.len() ==> (#[trigger] cs[j]).first.wf() && (cs[j].second matches Some(d)
            ==> d.wf())
}

/// Appending a keyframe appends its text.
proof fn lemma_cont_scalars_snoc(cs: Seq<ContinuingScalar>, c: ContinuingScalar)
    ensures
        spec_cont_scalars_chars(cs.push(c)) == spec_cont_scalars_chars(cs) + (seq![',']
            + crate::numbers::spec_int_chars(c.end_time as int) + seq![',']
            + crate::decimal::spec_dec_chars(c.value)),
    decreases cs.len(),
{
    let chunk = seq![','] + crate::numbers::spec_int_chars(c.end_time as int) + seq![',']
        + crate::decimal::spec_dec_chars(c.value);
    if cs.len() == 0 {
        assert(cs.push(c)[0] == c);
        assert(cs.push(c).drop_first() =~= Seq::<ContinuingScalar>::empty());
        assert(spec_cont_scalars_chars(Seq::<ContinuingScalar>::empty()) == Seq::<char>::empty());
        assert(spec_cont_scalars_chars(cs.push(c)) =~= Seq::<char>::empty() + chunk);
        assert(Seq::<char>::empty() + chunk =~= chunk);
        assert(spec_cont_scalars_chars(cs) + chunk =~= chunk);
    } else {
        assert(cs.push(c)[0] == cs[0]);
        assert(cs.push(c).drop_first() =~= cs.drop_first().push(c));
        lemma_cont_scalars_snoc(cs.drop_first(), c);
        assert(spec_cont_scalars_chars(cs.push(c)) =~= spec_cont_scalars_chars(cs) + chunk);
    }
}

/// Appending a keyframe appends its text.
proof fn lemma_cont_pairs_snoc(cs: Seq<ContinuingPair>, c: ContinuingPair)
    ensures
        spec_cont_pairs_chars(cs.push(c)) == spec_cont_pairs_chars(cs) + (seq![',']
            + crate::numbers::spec_int_chars(c.end_time as int) + seq![',']
            + crate::decimal::spec_dec_chars(c.first) + (match c.second {
            Some(v) => seq![','] + crate::decimal::spec_dec_chars(v),
            None => Seq::<char>::empty(),
        })),
    decreases cs.len(),
{
    let chunk = seq![','] + crate::numbers::spec_int_chars(c.end_time as int) + seq![',']
        + crate::decimal::spec_dec_chars(c.first) + (match c.second {
        Some(v) => seq![','] + crate::decimal::spec_dec_chars(v),
        None => Seq::<char>::empty(),
    });
    if cs.len() == 0 {
        assert(cs.push(c)[0] == c);
        assert(cs.push(c).drop_first() =~= Seq::<ContinuingPair>::empty());
        assert(spec_cont_pairs_chars(Seq::<ContinuingPair>::empty()) == Seq::<char>::empty());
        assert(spec_cont_pairs_chars(cs.push(c)) =~= Seq::<char>::empty() + chunk);
        assert(Seq::<char>::empty() + chunk =~= chunk);
        assert(spec_cont_pairs_chars(cs) + chunk =~= chunk);
    } else {
        assert(cs.push(c)[0] == cs[0]);
        assert(cs.push(c).drop_first() =~= cs.drop_first().push(c));
        lemma_cont_pairs_snoc(cs.drop_first(), c);
        assert(spec_cont_pairs_chars(cs.push(c)) =~= spec_cont_pairs_chars(cs) + chunk);
    }
}

/// Appending a keyframe appends its text.
#[verifier::rlimit(100)]
proof fn lemma_cont_rgbs_snoc(cs: Seq<ContinuingRgb>, c: ContinuingRgb)
    ensures
        spec_cont_rgbs_chars(cs.push(c)) == spec_cont_rgbs_chars(cs) + (seq![',']
            + crate::numbers::spec_int_chars(c.end_time as int) + seq![',']
            + crate::numbers::spec_nat_chars(c.red as nat) + (match c.green {
            Some(g) => seq![','] + crate::numbers::spec_nat_chars(g as nat),
            None => Seq::<char>::empty(),
        }) + (match c.blue {
            Some(b) => seq![','] + crate::numbers::spec_nat_chars(b as nat),
            None => Seq::<char>::empty(),
        })),
    decreases cs.len(),
{
    let chunk = seq![','] + crate::numbers::spec_int_chars(c.end_time as int) + seq![',']
        + crate::numbers::spec_nat_chars(c.red as nat) + (match c.green {
        Some(g) => seq![','] + crate::numbers::spec_nat_chars(g as nat),
        None => Seq::<char>::empty(),
    }) + (match c.blue {
        Some(b) => seq![','] + crate::numbers::spec_nat_chars(b as nat),
        None => Seq::<char>::empty(),
    });
    if cs.len() == 0 {
        assert(cs.push(c)[0] == c);
        assert(cs.push(c).drop_first() =~= Seq::<ContinuingRgb>::empty());
        assert(spec_cont_rgbs_chars(Seq::<ContinuingRgb>::empty()) == Seq::<char>::empty());
        assert(spec_cont_rgbs_chars(cs.push(c)) =~= Seq::<char>::empty() + chunk);
        assert(Seq::<char>::empty() + chunk =~= chunk);
        assert(spec_cont_rgbs_chars(cs) + chunk =~= chunk);
    } else {
        assert(cs.push(c)[0] == cs[0]);
        assert(cs.push(c).drop_first() =~= cs.drop_first().push(c));
        lemma_cont_rgbs_snoc(cs.drop_first(), c);
        assert(spec_cont_rgbs_chars(cs.push(c)) =~= spec_cont_rgbs_chars(cs) + chunk);
    }
}

/// Appending a keyframe appends its text.
proof fn lemma_cont_params_snoc(cs: Seq<ContinuingParameter>, c: ContinuingParameter)
    ensures
        spec_cont_params_chars(cs.push(c)) == spec_cont_params_chars(cs) + (seq![',']
            + crate::numbers::spec_int_chars(c.end_time as int) + seq![','] + spec_param_chars(
            c.parameter,
        )),
    decreases cs.len(),
{
    let chunk = seq![','] + crate::numbers::spec_int_chars(c.end_time as int) + seq![',']
        + spec_param_chars(c.parameter);
    if cs.len() == 0 {
        assert(cs.push(c)[0] == c);
        assert(cs.push(c).drop_first() =~= Seq::<ContinuingParameter>::empty());
        assert(spec_cont_params_chars(Seq::<ContinuingParameter>::empty()) == Seq::<char>::empty());
        assert(spec_cont_params_chars(cs.push(c)) =~= Seq::<char>::empty() + chunk);
        assert(Seq::<char>::empty() + chunk =~= chunk);
        assert(spec_cont_params_chars(cs) + chunk =~= chunk);
    } else {
        assert(cs.push(c)[0] == cs[0]);
        assert(cs.push(c).drop_first() =~= cs.drop_first().push(c));
        lemma_cont_params_snoc(cs.drop_first(), c);
        assert(spec_cont_params_chars(cs.push(c)) =~= spec_cont_params_chars(cs) + chunk);
    }
}

} // verus!

verus! {

/// Appends `,<easing>,<start>,<end-or-empty>` to `out`.
fn push_common_chars(e: Easing, st: Integer, et: &Option<Integer>, out: &mut Vec<char>)
    ensures
        final(out)@ == old(out)@ + spec_common_chars(e, st, *et),
{
    out.push(',');
    crate::numbers::push_u8_chars(e.0, out);
    out.push(',');
    crate::numbers::push_i32_chars(st, out);
    out.push(',');
    match et {
        Some(v) => {
            crate::numbers::push_i32_chars(*v, out);
        },
        None => {},
    }
    proof {
        assert(final(out)@ =~= old(out)@ + spec_common_chars(e, st, *et));
    }
}

/// Appends the continuing keyframes of a one-value command to `out`.
fn push_cont_scalars(cs: &Vec<ContinuingScalar>, out: &mut Vec<char>)
    requires
        cont_scalars_dec_wf(cs@),
    ensures
        final(out)@ == old(out)@ + spec_cont_scalars_chars(cs@),
{
    let n = cs.len();
    let mut i: usize = 0;
    while i < n
        invariant
            i <= n,
            n == cs@.len(),
            cont_scalars_dec_wf(cs@),
            out@ == old(out)@ + spec_cont_scalars_chars(cs@.take(i as int)),
        decreases n - i,
    {
        let c = cs[i];
        out.push(',');
        crate::numbers::push_i32_chars(c.end_time, out);
        out.push(',');
        let d = crate::decimal::dec_to_chars(&c.value);
        push_all(d.as_slice(), out);
        proof {
            lemma_cont_scalars_snoc(cs@.take(i as int), cs@[i as int]);
            assert(cs@.take(i + 1) =~= cs@.take(i as int).push(cs@[i as int]));
            assert(out@ =~= old(out)@ + spec_cont_scalars_chars(cs@.take(i + 1)));
        }
        i += 1;
    }
    proof {
        assert(cs@.take(n as int) =~= cs@);
    }
}

/// Appends the continuing keyframes of a two-value command to `out`.
fn push_cont_pairs(cs: &Vec<ContinuingPair>, out: &mut Vec<char>)
    requires
        cont_pairs_dec_wf(cs@),
    ensures
        final(out)@ == old(out)@ + spec_cont_pairs_chars(cs@),
{
    let n = cs.len();
    let mut i: usize = 0;
    while i < n
        invariant
            i <= n,
            n == cs@.len(),
            cont_pairs_dec_wf(cs@),
            out@ == old(out)@ + spec_cont_pairs_chars(cs@.take(i as int)),
        decreases n - i,
    {
        let c = cs[i];
        out.push(',');
        crate::numbers::push_i32_chars(c.end_time, out);
        out.push(',');
        let d = crate::decimal::dec_to_chars(&c.first);
        push_all(d.as_slice(), out);
        match &c.second {
            Some(v) => {
                out.push(',');
                let d2 = crate::decimal::dec_to_chars(v);
                push_all(d2.as_slice(), out);
            },
            None => {},
        }
        proof {
            lemma_cont_pairs_snoc(cs@.take(i as int), cs@[i as int]);
            assert(cs@.take(i + 1) =~= cs@.take(i as int).push(cs@[i as int]));
            assert(out@ =~= old(out)@ + spec_cont_pairs_chars(cs@.take(i + 1)));
        }
        i += 1;
    }
    proof {
        assert(cs@.take(n as int) =~= cs@);
    }
}

/// Appends the continuing keyframes of a colour command to `out`.
#[verifier::rlimit(100)]
fn push_cont_rgbs(cs: &Vec<ContinuingRgb>, out: &mut Vec<char>)
    ensures
        final(out)@ == old(out)@ + spec_cont_rgbs_chars(cs@),
{
    let n = cs.len();
    let mut i: usize = 0;
    while i < n
        invariant
            i <= n,
            n == cs@.len(),
            out@ == old(out)@ + spec_cont_rgbs_chars(cs@.take(i as int)),
        decreases n - i,
    {
        let c = cs[i];
        out.push(',');
        crate::numbers::push_i32_chars(c.end_time, out);
        out.push(',');
        crate::numbers::push_u8_chars(c.red, out);
        match &c.green {
            Some(g) => {
                out.push(',');
                crate::numbers::push_u8_chars(*g, out);
            },
            None => {},
        }
        match &c.blue {
            Some(b) => {
                out.push(',');
                crate::numbers::push_u8_chars(*b, out);
            },
            None => {},
        }
        proof {
            lemma_cont_rgbs_snoc(cs@.take(i as int), cs@[i as int]);
            assert(cs@.take(i + 1) =~= cs@.take(i as int).push(cs@[i as int]));
            assert(out@ =~= old(out)@ + spec_cont_rgbs_chars(cs@.take(i + 1)));
        }
        i += 1;
    }
    proof {
        assert(cs@.take(n as int) =~= cs@);
    }
}

/// Appends a parameter effect token to `out`.
fn push_param_chars(p: &Parameter, out: &mut Vec<char>)
    ensures
        final(out)@ == old(out)@ + spec_param_chars(*p),
{
    let w = str_to_chars(
        match p {
            Parameter::HorizontalFlip => "H",
            Parameter::VerticalFlip => "V",
            Parameter::AdditiveBlend => "A",
        },
    );
    push_all(w.as_slice(), out);
}

/// Appends the continuing keyframes of a parameter command to `out`.
fn push_cont_params(cs: &Vec<ContinuingParameter>, out: &mut Vec<char>)
    ensures
        final(out)@ == old(out)@ + spec_cont_params_chars(cs@),
{
    let n = cs.len();
    let mut i: usize = 0;
    while i < n
        invariant
            i <= n,
            n == cs@.len(),
            out@ == old(out)@ + spec_cont_params_chars(cs@.take(i as int)),
        decreases n - i,
    {
        let c = cs[i];
        out.push(',');
        crate::numbers::push_i32_chars(c.end_time, out);
        out.push(',');
        push_param_chars(&c.parameter, out);
        proof {
            lemma_cont_params_snoc(cs@.take(i as int), cs@[i as int]);
            assert(cs@.take(i + 1) =~= cs@.take(i as int).push(cs@[i as int]));
            assert(out@ =~= old(out)@ + spec_cont_params_chars(cs@.take(i + 1)));
        }
        i += 1;
    }
    proof {
        assert(cs@.take(n as int) =~= cs@);
    }
}

/// Exec test for [`cont_scalars_dec_wf`].
fn check_cont_scalars_wf(cs: &Vec<ContinuingScalar>) -> (b: bool)
    ensures
        b == cont_scalars_dec_wf(cs@),
{
    let n = cs.len();
    let mut i: usize = 0;
    while i < n
        invariant
            i <= n,
            n == cs@.len(),
            forall|j: int| 0 <= j < i ==> (#[trigger] cs@[j]).value.wf(),
        decreases n - i,
    {
        if !cs[i].value.is_wf() {
            return false;
        }
        i += 1;
    }
    true
}

/// Exec test for [`cont_pairs_dec_wf`].
fn check_cont_pairs_wf(cs: &Vec<ContinuingPair>) -> (b: bool)
    ensures
        b == cont_pairs_dec_wf(cs@),
{
    let n = cs.len();
    let mut i: usize = 0;
    while i < n
        invariant
            i <= n,
            n == cs@.len(),
            forall|j: int|
                0 <= j < i ==> (#[trigger] cs@[j]).first.wf() && (cs@[j].second matches Some(d)
                    ==> d.wf()),
        decreases n - i,
    {
        if !cs[i].first.is_wf() {
            return false;
        }
        match &cs[i].second {
            Some(d) => {
                if !d.is_wf() {
                    return false;
                }
            },
            None => {},
        }
        i += 1;
    }
    true
}

impl Command {
    /// Whether every decimal on this command line is representable.
    pub fn line_wf(&self) -> (b: bool)
        ensures
            b == spec_cmd_line_wf(cmd_view(*self)),
    {
        match &self.properties {
            CommandProperties::Fade { start_opacity, continuing_opacities, .. } => {
                start_opacity.is_wf() && check_cont_scalars_wf(continuing_opacities)
            },
            CommandProperties::Move { move_x, move_y, continuing_positions, .. } => {
                move_x.is_wf() && move_y.is_wf() && check_cont_pairs_wf(continuing_positions)
            },
            CommandProperties::MoveX { move_x, continuing_x, .. } => {
                move_x.is_wf() && check_cont_scalars_wf(continuing_x)
            },
            CommandProperties::MoveY { move_y, continuing_y, .. } => {
                move_y.is_wf() && check_cont_scalars_wf(continuing_y)
            },
            CommandProperties::Scale { start_scale, continuing_scales, .. } => {
                start_scale.is_wf() && check_cont_scalars_wf(continuing_scales)
            },
            CommandProperties::VectorScale { scale_x, scale_y, continuing_scales, .. } => {
                scale_x.is_wf() && scale_y.is_wf() && check_cont_pairs_wf(continuing_scales)
            },
            CommandProperties::Rotate { start_rotation, continuing_rotations, .. } => {
                start_rotation.is_wf() && check_cont_scalars_wf(continuing_rotations)
            },
            CommandProperties::Colour { .. } => true,
            CommandProperties::Parameter { .. } => true,
            CommandProperties::Loop { .. } => true,
            CommandProperties::Trigger { .. } => true,
        }
    }

    /// Appends this command's one line of text to `out`, without
    /// indentation and without children.
    #[verifier::rlimit(100)]
    pub fn push_line_chars(&self, out: &mut Vec<char>)
        requires
            spec_cmd_line_wf(cmd_view(*self)),
        ensures
            final(out)@ == old(out)@ + spec_render_command(cmd_view(*self)),
    {
        match &self.properties {
            CommandProperties::Fade { easing, end_time, start_opacity, continuing_opacities } => {
                let w = str_to_chars("F");
                push_all(w.as_slice(), out);
                push_common_chars(*easing, self.start_time, end_time, out);
                out.push(',');
                let d = crate::decimal::dec_to_chars(start_opacity);
                push_all(d.as_slice(), out);
                push_cont_scalars(continuing_opacities, out);
                proof {
                    assert(final(out)@ =~= old(out)@ + spec_render_command(cmd_view(*self)));
                }
            },
            CommandProperties::Move { easing, end_time, move_x, move_y, continuing_positions } => {
                let w = str_to_chars("M");
                push_all(w.as_slice(), out);
                push_common_chars(*easing, self.start_time, end_time, out);
                out.push(',');
                let d = crate::decimal::dec_to_chars(move_x);
                push_all(d.as_slice(), out);
                out.push(',');
                let d2 = crate::decimal::dec_to_chars(move_y);
                push_all(d2.as_slice(), out);
                push_cont_pairs(continuing_positions, out);
                proof {
                    assert(final(out)@ =~= old(out)@ + spec_render_command(cmd_view(*self)));
                }
            },
            CommandProperties::MoveX { easing, end_time, move_x, continuing_x } => {
                let w = str_to_chars("MX");
                push_all(w.as_slice(), out);
                push_common_chars(*easing, self.start_time, end_time, out);
                out.push(',');
                let d = crate::decimal::dec_to_chars(move_x);
                push_all(d.as_slice(), out);
                push_cont_scalars(continuing_x, out);
                proof {
                    assert(final(out)@ =~= old(out)@ + spec_render_command(cmd_view(*self)));
                }
            },
            CommandProperties::MoveY { easing, end_time, move_y, continuing_y } => {
                let w = str_to_chars("MY");
                push_all(w.as_slice(), out);
                push_common_chars(*easing, self.start_time, end_time, out);
                out.push(',');
                let d = crate::decimal::dec_to_chars(move_y);
                push_all(d.as_slice(), out);
                push_cont_scalars(continuing_y, out);
                proof {
                    assert(final(out)@ =~= old(out)@ + spec_render_command(cmd_view(*self)));
                }
            },
            CommandProperties::Scale { easing, end_time, start_scale, continuing_scales } => {
                let w = str_to_chars("S");
                push_all(w.as_slice(), out);
                push_common_chars(*easing, self.start_time, end_time, out);
                out.push(',');
                let d = crate::decimal::dec_to_chars(start_scale);
                push_all(d.as_slice(), out);
                push_cont_scalars(continuing_scales, out);
                proof {
                    assert(final(out)@ =~= old(out)@ + spec_render_command(cmd_view(*self)));
                }
            },
            CommandProperties::VectorScale { easing, end_time, scale_x, scale_y, continuing_scales } => {
                let w = str_to_chars("V");
                push_all(w.as_slice(), out);
                push_common_chars(*easing, self.start_time, end_time, out);
                out.push(',');
                let d = crate::decimal::dec_to_chars(scale_x);
                push_all(d.as_slice(), out);
                out.push(',');
                let d2 = crate::decimal::dec_to_chars(scale_y);
                push_all(d2.as_slice(), out);
                push_cont_pairs(continuing_scales, out);
                proof {
                    assert(final(out)@ =~= old(out)@ + spec_render_command(cmd_view(*self)));
                }
            },
            CommandProperties::Rotate { easing, end_time, start_rotation, continuing_rotations } => {
                let w = str_to_chars("R");
                push_all(w.as_slice(), out);
                push_common_chars(*easing, self.start_time, end_time, out);
                out.push(',');
                let d = crate::decimal::dec_to_chars(start_rotation);
                push_all(d.as_slice(), out);
                push_cont_scalars(continuing_rotations, out);
                proof {
                    assert(final(out)@ =~= old(out)@ + spec_render_command(cmd_view(*self)));
                }
            },
            CommandProperties::Colour { easing, end_time, red, green, blue, continuing_colours } => {
                let w = str_to_chars("C");
                push_all(w.as_slice(), out);
                push_common_chars(*easing, self.start_time, end_time, out);
                out.push(',');
                crate::numbers::push_u8_chars(*red, out);
                out.push(',');
                crate::numbers::push_u8_chars(*green, out);
                out.push(',');
                crate::numbers::push_u8_chars(*blue, out);
                push_cont_rgbs(continuing_colours, out);
                proof {
                    assert(final(out)@ =~= old(out)@ + spec_render_command(cmd_view(*self)));
                }
            },
            CommandProperties::Parameter { easing, end_time, parameter, continuing_parameters } => {
                let w = str_to_chars("P");
                push_all(w.as_slice(), out);
                push_common_chars(*easing, self.start_time, end_time, out);
                out.push(',');
                push_param_chars(parameter, out);
                push_cont_params(continuing_parameters, out);
                proof {
                    assert(final(out)@ =~= old(out)@ + spec_render_command(cmd_view(*self)));
                }
            },
            CommandProperties::Loop { loop_count, .. } => {
                let w = str_to_chars("L");
                push_all(w.as_slice(), out);
                out.push(',');
                crate::numbers::push_i32_chars(self.start_time, out);
                out.push(',');
                crate::numbers::push_i32_chars(*loop_count, out);
                proof {
                    assert(final(out)@ =~= old(out)@ + spec_render_command(cmd_view(*self)));
                }
            },
            CommandProperties::Trigger { trigger_type, group_number, end_time, .. } => {
                let w = str_to_chars("T");
                push_all(w.as_slice(), out);
                out.push(',');
                push_trigger_chars(trigger_type, out);
                out.push(',');
                match group_number {
                    Some(g) => {
                        crate::numbers::push_i32_chars(*g, out);
                        out.push(',');
                    },
                    None => {},
                }
                crate::numbers::push_i32_chars(self.start_time, out);
                out.push(',');
                crate::numbers::push_i32_chars(*end_time, out);
                proof {
                    assert(final(out)@ =~= old(out)@ + spec_render_command(cmd_view(*self)));
                }
            },
        }
    }
}

} // verus!

verus! {

/// Replaces the trailing components of continuing keyframe `index` of a
/// two-value command: the second component may be omitted on the last
/// keyframe only.
pub fn set_continuing_second(cs: &mut Vec<ContinuingPair>, index: usize, second: Option<Dec>) -> (r:
    Result<(), ContinuingSetError>)
    ensures
        match r {
            Ok(()) => index < old(cs)@.len() && (second is None ==> index == old(cs)@.len() - 1)
                && final(cs)@ == old(cs)@.update(
                index as int,
                ContinuingPair {
                    end_time: old(cs)@[index as int].end_time,
                    first: old(cs)@[index as int].first,
                    second,
                },
            ),
            Err(ContinuingSetError::IndexOutOfBounds) => index >= old(cs)@.len() && final(cs)@
                == old(cs)@,
            Err(ContinuingSetError::InvalidSecondFieldOption) => index < old(cs)@.len() && second is None
                && index != old(cs)@.len() - 1 && final(cs)@ == old(cs)@,
        },
{
    let n = cs.len();
    if index >= n {
        return Err(ContinuingSetError::IndexOutOfBounds);
    }
    if second.is_none() && index != n - 1 {
        return Err(ContinuingSetError::InvalidSecondFieldOption);
    }
    let old_c = cs[index];
    cs[index] = ContinuingPair { end_time: old_c.end_time, first: old_c.first, second };
    Ok(())
}

/// Appends a continuing keyframe to a two-value command: rejected when the
/// keyframe before it omits its second component, which only the last
/// keyframe may.
pub fn push_continuing_pair(cs: &mut Vec<ContinuingPair>, c: ContinuingPair) -> (r: Result<
    (),
    InvalidSecondFieldOption,
>)
    ensures
        match r {
            Ok(()) => (old(cs)@.len() == 0 || old(cs)@.last().second is Some) && final(cs)@ == old(
                cs,
            )@.push(c),
            Err(_) => old(cs)@.len() > 0 && old(cs)@.last().second is None && final(cs)@ == old(
                cs,
            )@,
        },
{
    let n = cs.len();
    if n > 0 {
        let last = cs[n - 1];
        if last.second.is_none() {
            return Err(InvalidSecondFieldOption);
        }
    }
    cs.push(c);
    Ok(())
}

/// Replaces the trailing components of continuing colour keyframe
/// `index`: `green` and `blue` may be omitted on the last keyframe only,
/// and `blue` only together with `green` present or omitted after it.
pub fn set_continuing_rgb(
    cs: &mut Vec<ContinuingRgb>,
    index: usize,
    green: Option<u8>,
    blue: Option<u8>,
) -> (r: Result<(), ContinuingRGBSetError>)
    ensures
        match r {
            Ok(()) => index < old(cs)@.len() && (green is None ==> blue is None && index == old(
                cs,
            )@.len() - 1) && (blue is None ==> index == old(cs)@.len() - 1) && final(cs)@ == old(
                cs,
            )@.update(
                index as int,
                ContinuingRgb {
                    end_time: old(cs)@[index as int].end_time,
                    red: old(cs)@[index as int].red,
                    green,
                    blue,
                },
            ),
            Err(ContinuingRGBSetError::IndexOutOfBounds) => index >= old(cs)@.len() && final(cs)@
                == old(cs)@,
            Err(ContinuingRGBSetError::InvalidFieldOption(InvalidColourFieldOption::Green)) => index
                < old(cs)@.len() && green is None && (blue is Some || index != old(cs)@.len() - 1)
                && final(cs)@ == old(cs)@,
            Err(ContinuingRGBSetError::InvalidFieldOption(InvalidColourFieldOption::Blue)) => index
                < old(cs)@.len() && green is Some && blue is None && index != old(cs)@.len() - 1
                && final(cs)@ == old(cs)@,
        },
{
    let n = cs.len();
    if index >= n {
        return Err(ContinuingRGBSetError::IndexOutOfBounds);
    }
    if green.is_none() && (blue.is_some() || index != n - 1) {
        return Err(ContinuingRGBSetError::InvalidFieldOption(InvalidColourFieldOption::Green));
    }
    if blue.is_none() && green.is_some() && index != n - 1 {
        return Err(ContinuingRGBSetError::InvalidFieldOption(InvalidColourFieldOption::Blue));
    }
    let old_c = cs[index];
    cs[index] = ContinuingRgb { end_time: old_c.end_time, red: old_c.red, green, blue };
    Ok(())
}

} // verus!
