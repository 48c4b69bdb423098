//! Field types shared by the hit objects: sample sets, sounds, volumes
//! and slider curve data. The hit-object record itself is one of the flat
//! collaborators around the events engine; these are its field codecs.

use vstd::prelude::*;
use crate::Version;
use crate::numbers::{
    parse_i32_chars, parse_u8_chars, parse_usize_chars, spec_parse_i32, spec_parse_u8,
    spec_parse_usize, spec_int_chars, spec_nat_chars, push_i32_chars, push_usize_chars,
};
use crate::text::{chars_eq, chars_to_string, field_views, spec_split, split_chars, str_to_chars};
use super::error::{
    ComboSkipCountTooHigh, ParseColonSetError, ParseCurvePointError, ParseCurveTypeError,
    ParseHitSampleError, ParseHitSoundError, ParseSampleSetError, ParseVolumeError, VolumeSetError,
};

verus! {

/// How many combo colours to skip when an object starts a new combo: the
/// three bits above the type flags.
#[derive(Clone, Copy, Debug, Hash, PartialEq, Eq, Structural)]
pub struct ComboSkipCount(pub u8);

impl ComboSkipCount {
    /// The three skip bits of a type number.
    pub fn new(count: u8, _version: Version) -> (r: Result<Option<Self>, ComboSkipCountTooHigh>)
        ensures
            r == Ok::<_, ComboSkipCountTooHigh>(Some(ComboSkipCount(count >> 4 & 7))),
    {
        Ok(Some(ComboSkipCount(count >> 4 & 7)))
    }

    /// The stored skip count.
    pub fn get(&self) -> (r: u8)
        ensures
            r == self.0,
    {
        self.0
    }

    /// Replaces the skip count with the three skip bits of `count`.
    pub fn set(&mut self, count: u8, _version: Version) -> (r: Result<(), ComboSkipCountTooHigh>)
        ensures
            r is Ok && *final(self) == ComboSkipCount(count >> 4 & 7),
    {
        self.0 = count >> 4 & 7;
        Ok(())
    }
}

/// A sample set selector; values past the named ones are kept as written.
#[derive(Clone, Copy, Debug, Hash, PartialEq, Eq, Structural)]
pub enum SampleSet {
    NoCustomSampleSet,
    NormalSet,
    SoftSet,
    DrumSet,
    /// Some maps carry an arbitrarily high value here.
    Other(usize),
}

/// Reading of a sample set field.
pub open spec fn spec_parse_sample_set(s: Seq<char>) -> Result<SampleSet, ParseSampleSetError> {
    match spec_parse_usize(s) {
        None => Err(ParseSampleSetError::ParseValueError),
        Some(0usize) => Ok(SampleSet::NoCustomSampleSet),
        Some(1usize) => Ok(SampleSet::NormalSet),
        Some(2usize) => Ok(SampleSet::SoftSet),
        Some(3usize) => Ok(SampleSet::DrumSet),
        Some(v) => Ok(SampleSet::Other(v)),
    }
}

/// The number a sample set is written as.
pub open spec fn spec_sample_set_number(s: SampleSet) -> nat {
    match s {
        SampleSet::NoCustomSampleSet => 0,
        SampleSet::NormalSet => 1,
        SampleSet::SoftSet => 2,
        SampleSet::DrumSet => 3,
        SampleSet::Other(v) => v as nat,
    }
}

impl SampleSet {
    /// Reads a sample set field, exactly as [`spec_parse_sample_set`] says.
    pub fn from_str(s: &str, _version: Version) -> (r: Result<
        Option<SampleSet>,
        ParseSampleSetError,
    >)
        ensures
            r == match spec_parse_sample_set(s@) {
                Ok(v) => Ok::<Option<SampleSet>, ParseSampleSetError>(Some(v)),
                Err(e) => Err(e),
            },
    {
        let chars = str_to_chars(s);
        match parse_usize_chars(chars.as_slice()) {
            None => Err(ParseSampleSetError::ParseValueError),
            Some(0) => Ok(Some(SampleSet::NoCustomSampleSet)),
            Some(1) => Ok(Some(SampleSet::NormalSet)),
            Some(2) => Ok(Some(SampleSet::SoftSet)),
            Some(3) => Ok(Some(SampleSet::DrumSet)),
            Some(v) => Ok(Some(SampleSet::Other(v))),
        }
    }

    /// The text of this sample set.
    pub fn to_string(&self, _version: Version) -> (r: Option<String>)
        ensures
            r matches Some(t) && t@ == spec_nat_chars(spec_sample_set_number(*self)),
    {
        let mut out: Vec<char> = Vec::new();
        match self {
            SampleSet::NoCustomSampleSet => push_usize_chars(0, &mut out),
            SampleSet::NormalSet => push_usize_chars(1, &mut out),
            SampleSet::SoftSet => push_usize_chars(2, &mut out),
            SampleSet::DrumSet => push_usize_chars(3, &mut out),
            SampleSet::Other(v) => push_usize_chars(*v, &mut out),
        }
        Some(chars_to_string(&out))
    }

    /// The default sample set: none.
    pub fn default(_version: Version) -> (r: Option<SampleSet>)
        ensures
            r == Some(SampleSet::NoCustomSampleSet),
    {
        Some(SampleSet::NoCustomSampleSet)
    }
}

/// A sample volume from 1 to 100; absent means the timing point's volume
/// applies.
#[derive(Clone, Copy, Debug, Hash, PartialEq, Eq, PartialOrd, Ord, Structural)]
pub struct Volume(pub Option<u8>);

/// A volume value the type admits.
pub open spec fn spec_volume_wf(v: Volume) -> bool {
    match v.0 {
        Some(x) => 1 <= x <= 100,
        None => true,
    }
}

/// Reading of a volume field: `0` defers to the timing point.
pub open spec fn spec_parse_volume(s: Seq<char>) -> Result<Volume, ParseVolumeError> {
    match spec_parse_u8(s) {
        None => Err(ParseVolumeError::ParseIntError),
        Some(0u8) => Ok(Volume(None)),
        Some(x) => if x <= 100 {
            Ok(Volume(Some(x)))
        } else {
            Err(ParseVolumeError::VolumeSetError(VolumeSetError::VolumeTooHigh))
        },
    }
}

impl Volume {
    /// Builds a volume, rejecting values outside 1 to 100.
    pub fn new(volume: Option<u8>) -> (r: Result<Volume, VolumeSetError>)
        ensures
            match r {
                Ok(v) => v == Volume(volume) && spec_volume_wf(v),
                Err(VolumeSetError::VolumeTooLow) => volume == Some(0u8),
                Err(VolumeSetError::VolumeTooHigh) => volume matches Some(x) && x > 100,
            },
    {
        match volume {
            Some(v) => {
                if v == 0 {
                    Err(VolumeSetError::VolumeTooLow)
                } else if v > 100 {
                    Err(VolumeSetError::VolumeTooHigh)
                } else {
                    Ok(Volume(Some(v)))
                }
            },
            None => Ok(Volume(None)),
        }
    }

    /// The explicit volume, if one is set.
    pub fn volume(&self) -> (r: Option<u8>)
        ensures
            r == self.0,
    {
        self.0
    }

    /// Replaces the volume, rejecting values outside 1 to 100.
    pub fn set_volume(&mut self, volume: u8) -> (r: Result<(), VolumeSetError>)
        ensures
            match r {
                Ok(()) => 1 <= volume <= 100 && *final(self) == Volume(Some(volume)),
                Err(VolumeSetError::VolumeTooLow) => volume == 0 && *final(self) == *old(self),
                Err(VolumeSetError::VolumeTooHigh) => volume > 100 && *final(self) == *old(self),
            },
    {
        if volume == 0 {
            Err(VolumeSetError::VolumeTooLow)
        } else if volume > 100 {
            Err(VolumeSetError::VolumeTooHigh)
        } else {
            self.0 = Some(volume);
            Ok(())
        }
    }

    /// Whether the timing point's volume applies instead.
    pub fn use_timing_point_volume(&self) -> (r: bool)
        ensures
            r == (self.0 is None),
    {
        self.0.is_none()
    }

    /// Defers to the timing point's volume.
    pub fn set_use_timing_point_volume(&mut self)
        ensures
            *final(self) == Volume(None),
    {
        self.0 = None;
    }

    /// Reads a volume field, exactly as [`spec_parse_volume`] says.
    pub fn from_str(s: &str, _version: Version) -> (r: Result<Option<Volume>, ParseVolumeError>)
        ensures
            r == match spec_parse_volume(s@) {
                Ok(v) => Ok::<Option<Volume>, ParseVolumeError>(Some(v)),
                Err(e) => Err(e),
            },
    {
        let chars = str_to_chars(s);
        match parse_u8_chars(chars.as_slice()) {
            None => Err(ParseVolumeError::ParseIntError),
            Some(0) => Ok(Some(Volume(None))),
            Some(x) => if x <= 100 {
                Ok(Some(Volume(Some(x))))
            } else {
                Err(ParseVolumeError::VolumeSetError(VolumeSetError::VolumeTooHigh))
            },
        }
    }
}

/// The sounds played when an object is hit, as four flag bits.
#[derive(Clone, Copy, Debug, Default, Hash, PartialEq, Eq, Structural)]
pub struct HitSound {
    pub normal: bool,
    pub whistle: bool,
    pub finish: bool,
    pub clap: bool,
}

/// The bit mask a hit sound is written as.
pub open spec fn spec_hit_sound_mask(h: HitSound) -> nat {
    (if h.normal {
        1nat
    } else {
        0nat
    }) + (if h.whistle {
        2nat
    } else {
        0nat
    }) + (if h.finish {
        4nat
    } else {
        0nat
    }) + (if h.clap {
        8nat
    } else {
        0nat
    })
}

impl HitSound {
    /// A hit sound from its four flags.
    pub fn new(normal: bool, whistle: bool, finish: bool, clap: bool) -> (r: HitSound)
        ensures
            r == (HitSound { normal, whistle, finish, clap }),
    {
        HitSound { normal, whistle, finish, clap }
    }

    /// The `normal` flag; with no flag set at all, `normal` is what plays.
    pub fn normal(&self) -> (r: bool)
        ensures
            r == (self.normal || (!self.whistle && !self.finish && !self.clap)),
    {
        if !self.normal && !self.whistle && !self.finish && !self.clap {
            true
        } else {
            self.normal
        }
    }

    /// The `whistle` flag.
    pub fn whistle(&self) -> (r: bool)
        ensures
            r == self.whistle,
    {
        self.whistle
    }

    /// The `finish` flag.
    pub fn finish(&self) -> (r: bool)
        ensures
            r == self.finish,
    {
        self.finish
    }

    /// The `clap` flag.
    pub fn clap(&self) -> (r: bool)
        ensures
            r == self.clap,
    {
        self.clap
    }

    /// Sets the `normal` flag.
    pub fn set_normal(&mut self, normal: bool)
        ensures
            *final(self) == (HitSound { normal, ..*old(self) }),
    {
        self.normal = normal;
    }

    /// Sets the `whistle` flag.
    pub fn set_whistle(&mut self, whistle: bool)
        ensures
            *final(self) == (HitSound { whistle, ..*old(self) }),
    {
        self.whistle = whistle;
    }

    /// Sets the `finish` flag.
    pub fn set_finish(&mut self, finish: bool)
        ensures
            *final(self) == (HitSound { finish, ..*old(self) }),
    {
        self.finish = finish;
    }

    /// Sets the `clap` flag.
    pub fn set_clap(&mut self, clap: bool)
        ensures
            *final(self) == (HitSound { clap, ..*old(self) }),
    {
        self.clap = clap;
    }

    /// The flags of a bit mask.
    pub fn from_u8(value: u8, _version: Version) -> (r: Option<HitSound>)
        ensures
            r == Some(
                HitSound {
                    normal: value >> 0 & 1 == 1,
                    whistle: value >> 1 & 1 == 1,
                    finish: value >> 2 & 1 == 1,
                    clap: value >> 3 & 1 == 1,
                },
            ),
    {
        Some(
            HitSound {
                normal: crate::helper::check_flag_at_bit_u8(value, 0),
                whistle: crate::helper::check_flag_at_bit_u8(value, 1),
                finish: crate::helper::check_flag_at_bit_u8(value, 2),
                clap: crate::helper::check_flag_at_bit_u8(value, 3),
            },
        )
    }

    /// Reads a hit sound field: a bit mask in decimal.
    pub fn from_str(s: &str, version: Version) -> (r: Result<Option<HitSound>, ParseHitSoundError>)
        ensures
            match spec_parse_u8(s@) {
                Some(v) => r == Ok::<_, ParseHitSoundError>(
                    Some(
                        HitSound {
                            normal: v >> 0 & 1 == 1,
                            whistle: v >> 1 & 1 == 1,
                            finish: v >> 2 & 1 == 1,
                            clap: v >> 3 & 1 == 1,
                        },
                    ),
                ),
                None => r == Err::<Option<HitSound>, _>(ParseHitSoundError::ParseIntError),
            },
    {
        let chars = str_to_chars(s);
        match parse_u8_chars(chars.as_slice()) {
            None => Err(ParseHitSoundError::ParseIntError),
            Some(v) => Ok(HitSound::from_u8(v, version)),
        }
    }

    /// The text of this hit sound: its bit mask in decimal.
    pub fn to_string(&self, _version: Version) -> (r: Option<String>)
        ensures
            r matches Some(t) && t@ == spec_nat_chars(spec_hit_sound_mask(*self)),
    {
        let mut mask: u8 = 0;
        if self.normal {
            mask = mask + 1;
        }
        if self.whistle {
            mask = mask + 2;
        }
        if self.finish {
            mask = mask + 4;
        }
        if self.clap {
            mask = mask + 8;
        }
        let mut out: Vec<char> = Vec::new();
        crate::numbers::push_u8_chars(mask, &mut out);
        Some(chars_to_string(&out))
    }
}

/// The curve kind of a slider.
#[derive(Clone, Copy, Debug, Hash, PartialEq, Eq, Structural)]
pub enum CurveType {
    Bezier,
    Centripetal,
    Linear,
    PerfectCircle,
}

/// Reading of a curve type field.
pub open spec fn spec_parse_curve_type(s: Seq<char>) -> Result<CurveType, ParseCurveTypeError> {
    if s == "B"@ {
        Ok(CurveType::Bezier)
    } else if s == "C"@ {
        Ok(CurveType::Centripetal)
    } else if s == "L"@ {
        Ok(CurveType::Linear)
    } else if s == "P"@ {
        Ok(CurveType::PerfectCircle)
    } else {
        Err(ParseCurveTypeError::UnknownVariant)
    }
}

impl CurveType {
    /// Reads a curve type field, exactly as [`spec_parse_curve_type`] says.
    pub fn from_str(s: &str, _version: Version) -> (r: Result<Option<CurveType>, ParseCurveTypeError>)
        ensures
            r == match spec_parse_curve_type(s@) {
                Ok(v) => Ok::<Option<CurveType>, ParseCurveTypeError>(Some(v)),
                Err(e) => Err(e),
            },
    {
        let chars = str_to_chars(s);
        if chars_eq(chars.as_slice(), "B") {
            Ok(Some(CurveType::Bezier))
        } else if chars_eq(chars.as_slice(), "C") {
            Ok(Some(CurveType::Centripetal))
        } else if chars_eq(chars.as_slice(), "L") {
            Ok(Some(CurveType::Linear))
        } else if chars_eq(chars.as_slice(), "P") {
            Ok(Some(CurveType::PerfectCircle))
        } else {
            Err(ParseCurveTypeError::UnknownVariant)
        }
    }

    /// The letter this curve type is written as.
    pub fn to_string(&self, _version: Version) -> (r: Option<String>)
        ensures
            r matches Some(t) && t@ == match *self {
                CurveType::Bezier => "B"@,
                CurveType::Centripetal => "C"@,
                CurveType::Linear => "L"@,
                CurveType::PerfectCircle => "P"@,
            },
    {
        let w = match self {
            CurveType::Bezier => "B",
            CurveType::Centripetal => "C",
            CurveType::Linear => "L",
            CurveType::PerfectCircle => "P",
        };
        let chars = str_to_chars(w);
        Some(chars_to_string(&chars))
    }
}

/// A sample index; zero written in the file means the timing point's
/// index applies.
#[derive(Clone, Copy, Debug, Hash, PartialEq, Eq, Structural)]
pub enum SampleIndex {
    TimingPointSampleIndex,
    /// A positive custom index.
    Index(usize),
}

/// Reading of a sample index field.
pub open spec fn spec_parse_sample_index(s: Seq<char>) -> Option<SampleIndex> {
    match spec_parse_usize(s) {
        None => None,
        Some(0usize) => Some(SampleIndex::TimingPointSampleIndex),
        Some(v) => Some(SampleIndex::Index(v)),
    }
}

/// The number a sample index is written as.
pub open spec fn spec_sample_index_number(s: SampleIndex) -> nat {
    match s {
        SampleIndex::TimingPointSampleIndex => 0,
        SampleIndex::Index(v) => v as nat,
    }
}

impl SampleIndex {
    /// Reads a sample index field, exactly as [`spec_parse_sample_index`]
    /// says.
    pub fn from_str(s: &str, _version: Version) -> (r: Option<SampleIndex>)
        ensures
            r == spec_parse_sample_index(s@),
    {
        let chars = str_to_chars(s);
        match parse_usize_chars(chars.as_slice()) {
            None => None,
            Some(0) => Some(SampleIndex::TimingPointSampleIndex),
            Some(v) => Some(SampleIndex::Index(v)),
        }
    }

    /// The text of this sample index.
    pub fn to_string(&self, _version: Version) -> (r: Option<String>)
        ensures
            r matches Some(t) && t@ == spec_nat_chars(spec_sample_index_number(*self)),
    {
        let mut out: Vec<char> = Vec::new();
        match self {
            SampleIndex::TimingPointSampleIndex => push_usize_chars(0, &mut out),
            SampleIndex::Index(v) => push_usize_chars(*v, &mut out),
        }
        Some(chars_to_string(&out))
    }
}

} // verus!

verus! {

/// The sample set pair of an edge sound, written `normal:addition`.
#[derive(Clone, Copy, Debug, Hash, PartialEq, Eq, Structural)]
pub struct EdgeSet {
    pub normal_set: SampleSet,
    pub addition_set: SampleSet,
}

/// Reading of an edge set field.
pub open spec fn spec_parse_edge_set(s: Seq<char>) -> Result<EdgeSet, ParseColonSetError> {
    let parts = spec_split(s, ':');
    if parts.len() != 2 {
        Err(ParseColonSetError::InvalidLength)
    } else {
        match spec_parse_sample_set(parts[0]) {
            Err(e) => Err(ParseColonSetError::InvalidSet(e)),
            Ok(normal_set) => match spec_parse_sample_set(parts[1]) {
                Err(e) => Err(ParseColonSetError::InvalidSet(e)),
                Ok(addition_set) => Ok(EdgeSet { normal_set, addition_set }),
            },
        }
    }
}

impl EdgeSet {
    /// Reads an edge set field, exactly as [`spec_parse_edge_set`] says.
    pub fn from_str(s: &str, _version: Version) -> (r: Result<Option<EdgeSet>, ParseColonSetError>)
        ensures
            r == match spec_parse_edge_set(s@) {
                Ok(v) => Ok::<Option<EdgeSet>, ParseColonSetError>(Some(v)),
                Err(e) => Err(e),
            },
    {
        let chars = str_to_chars(s);
        let parts = split_chars(chars.as_slice(), ':');
        let ghost pv = spec_split(s@, ':');
        proof {
            assert(field_views(parts@) == pv);
        }
        if parts.len() != 2 {
            return Err(ParseColonSetError::InvalidLength);
        }
        proof {
            assert(pv[0] == parts@[0]@);
            assert(pv[1] == parts@[1]@);
        }
        let normal_set = match parse_sample_set_chars(&parts[0]) {
            Err(e) => {
                return Err(ParseColonSetError::InvalidSet(e));
            },
            Ok(v) => v,
        };
        let addition_set = match parse_sample_set_chars(&parts[1]) {
            Err(e) => {
                return Err(ParseColonSetError::InvalidSet(e));
            },
            Ok(v) => v,
        };
        Ok(Some(EdgeSet { normal_set, addition_set }))
    }
}

/// Reads a sample set from characters, exactly as
/// [`spec_parse_sample_set`] says.
fn parse_sample_set_chars(s: &Vec<char>) -> (r: Result<SampleSet, ParseSampleSetError>)
    ensures
        r == spec_parse_sample_set(s@),
{
    match parse_usize_chars(s.as_slice()) {
        None => Err(ParseSampleSetError::ParseValueError),
        Some(0) => Ok(SampleSet::NoCustomSampleSet),
        Some(1) => Ok(SampleSet::NormalSet),
        Some(2) => Ok(SampleSet::SoftSet),
        Some(3) => Ok(SampleSet::DrumSet),
        Some(v) => Ok(SampleSet::Other(v)),
    }
}

/// A slider anchor point, written `x:y`.
#[derive(Clone, Copy, Debug, Hash, PartialEq, Eq, Structural)]
pub struct CurvePoint(pub crate::Position);

/// Reading of a curve point field.
pub open spec fn spec_parse_curve_point(s: Seq<char>) -> Result<CurvePoint, ParseCurvePointError> {
    let parts = spec_split(s, ':');
    if parts.len() != 2 {
        Err(ParseCurvePointError::InvalidLength)
    } else {
        match spec_parse_i32(parts[0]) {
            None => Err(ParseCurvePointError::InvalidX),
            Some(x) => match spec_parse_i32(parts[1]) {
                None => Err(ParseCurvePointError::InvalidY),
                Some(y) => Ok(CurvePoint(crate::Position { x, y })),
            },
        }
    }
}

impl CurvePoint {
    /// Reads a curve point field, exactly as [`spec_parse_curve_point`]
    /// says.
    pub fn from_str(s: &str, _version: Version) -> (r: Result<
        Option<CurvePoint>,
        ParseCurvePointError,
    >)
        ensures
            r == match spec_parse_curve_point(s@) {
                Ok(v) => Ok::<Option<CurvePoint>, ParseCurvePointError>(Some(v)),
                Err(e) => Err(e),
            },
    {
        let chars = str_to_chars(s);
        let parts = split_chars(chars.as_slice(), ':');
        let ghost pv = spec_split(s@, ':');
        proof {
            assert(field_views(parts@) == pv);
        }
        if parts.len() != 2 {
            return Err(ParseCurvePointError::InvalidLength);
        }
        proof {
            assert(pv[0] == parts@[0]@);
            assert(pv[1] == parts@[1]@);
        }
        let x = match parse_i32_chars(parts[0].as_slice()) {
            None => {
                return Err(ParseCurvePointError::InvalidX);
            },
            Some(v) => v,
        };
        let y = match parse_i32_chars(parts[1].as_slice()) {
            None => {
                return Err(ParseCurvePointError::InvalidY);
            },
            Some(v) => v,
        };
        Ok(Some(CurvePoint(crate::Position { x, y })))
    }

    /// The text of this curve point.
    pub fn to_string(&self, _version: Version) -> (r: Option<String>)
        ensures
            r matches Some(t) && t@ == spec_int_chars(self.0.x as int) + seq![':']
                + spec_int_chars(self.0.y as int),
    {
        let mut out: Vec<char> = Vec::new();
        push_i32_chars(self.0.x, &mut out);
        out.push(':');
        push_i32_chars(self.0.y, &mut out);
        Some(chars_to_string(&out))
    }
}

/// Which samples play when the object is hit, written
/// `normal:addition:index:volume:filename`.
#[derive(Clone, Debug, Hash, PartialEq, Eq)]
pub struct HitSample {
    pub normal_set: SampleSet,
    pub addition_set: SampleSet,
    pub index: SampleIndex,
    pub volume: Volume,
    pub filename: Option<String>,
}

impl HitSample {
    /// The normal sample set.
    pub fn normal_set(&self) -> (r: SampleSet)
        ensures
            r == self.normal_set,
    {
        self.normal_set
    }

    /// Replaces the normal sample set.
    pub fn set_normal_set(&mut self, normal_set: SampleSet)
        ensures
            *final(self) == (HitSample { normal_set, ..*old(self) }),
    {
        self.normal_set = normal_set;
    }

    /// The addition sample set.
    pub fn addition_set(&self) -> (r: SampleSet)
        ensures
            r == self.addition_set,
    {
        self.addition_set
    }

    /// Replaces the addition sample set.
    pub fn set_addition_set(&mut self, addition_set: SampleSet)
        ensures
            *final(self) == (HitSample { addition_set, ..*old(self) }),
    {
        self.addition_set = addition_set;
    }

    /// The sample index.
    pub fn index(&self) -> (r: SampleIndex)
        ensures
            r == self.index,
    {
        self.index
    }

    /// Replaces the sample index; zero defers to the timing point.
    pub fn set_index(&mut self, index: usize)
        ensures
            *final(self) == (HitSample {
                index: if index == 0 {
                    SampleIndex::TimingPointSampleIndex
                } else {
                    SampleIndex::Index(index)
                },
                ..*old(self)
            }),
    {
        if index == 0 {
            self.index = SampleIndex::TimingPointSampleIndex;
        } else {
            self.index = SampleIndex::Index(index);
        }
    }

    /// Whether the timing point's sample index applies.
    pub fn use_timing_point_index(&self) -> (r: bool)
        ensures
            r == (self.index is TimingPointSampleIndex),
    {
        match self.index {
            SampleIndex::TimingPointSampleIndex => true,
            SampleIndex::Index(_) => false,
        }
    }

    /// Defers to the timing point's sample index.
    pub fn set_use_timing_point_index(&mut self)
        ensures
            *final(self) == (HitSample { index: SampleIndex::TimingPointSampleIndex, ..*old(self) }),
    {
        self.index = SampleIndex::TimingPointSampleIndex;
    }

    /// The sample volume.
    pub fn volume(&self) -> (r: &Volume)
        ensures
            r == self.volume,
    {
        &self.volume
    }

    /// The overriding sample file name, if one is set.
    pub fn filename(&self) -> (r: &Option<String>)
        ensures
            r == self.filename,
    {
        &self.filename
    }
}

/// Reading of a hit sample field.
pub open spec fn spec_parse_hit_sample(s: Seq<char>) -> Result<
    (SampleSet, SampleSet, SampleIndex, Volume, Option<Seq<char>>),
    ParseHitSampleError,
> {
    let parts = spec_split(s, ':');
    if parts.len() < 4 {
        Err(ParseHitSampleError::InvalidLength)
    } else {
        match spec_parse_sample_set(parts[0]) {
            Err(_) => Err(ParseHitSampleError::InvalidNormalSet),
            Ok(ns) => match spec_parse_sample_set(parts[1]) {
                Err(_) => Err(ParseHitSampleError::InvalidAdditionSet),
                Ok(ads) => match spec_parse_sample_index(parts[2]) {
                    None => Err(ParseHitSampleError::InvalidIndex),
                    Some(ix) => match spec_parse_volume(parts[3]) {
                        Err(_) => Err(ParseHitSampleError::InvalidVolume),
                        Ok(vol) => Ok(
                            (
                                ns,
                                ads,
                                ix,
                                vol,
                                if parts.len() == 5 {
                                    Some(parts[4])
                                } else {
                                    None
                                },
                            ),
                        ),
                    },
                },
            },
        }
    }
}

impl HitSample {
    /// Reads a hit sample field, exactly as [`spec_parse_hit_sample`]
    /// says; only a five-element set carries a file name.
    pub fn from_str(s: &str, _version: Version) -> (r: Result<Option<HitSample>, ParseHitSampleError>)
        ensures
            ({
                let spec = spec_parse_hit_sample(s@);
                match r {
                    Ok(h_opt) => h_opt matches Some(h) && spec matches Ok(p) && h.normal_set == p.0
                        && h.addition_set == p.1 && h.index == p.2 && h.volume == p.3 && (match (
                        h.filename,
                        p.4,
                    ) {
                        (Some(f), Some(q)) => f@ == q,
                        (None, None) => true,
                        _ => false,
                    }),
                    Err(e) => spec == Err::<(SampleSet, SampleSet, SampleIndex, Volume, Option<Seq<char>>), _>(e),
                }
            }),
    {
        let chars = str_to_chars(s);
        let parts = split_chars(chars.as_slice(), ':');
        let ghost pv = spec_split(s@, ':');
        proof {
            assert(field_views(parts@) == pv);
        }
        if parts.len() < 4 {
            return Err(ParseHitSampleError::InvalidLength);
        }
        proof {
            assert(pv[0] == parts@[0]@);
            assert(pv[1] == parts@[1]@);
            assert(pv[2] == parts@[2]@);
            assert(pv[3] == parts@[3]@);
        }
        let normal_set = match parse_sample_set_chars(&parts[0]) {
            Err(_) => {
                return Err(ParseHitSampleError::InvalidNormalSet);
            },
            Ok(v) => v,
        };
        let addition_set = match parse_sample_set_chars(&parts[1]) {
            Err(_) => {
                return Err(ParseHitSampleError::InvalidAdditionSet);
            },
            Ok(v) => v,
        };
        let index = match parse_usize_chars(parts[2].as_slice()) {
            None => {
                return Err(ParseHitSampleError::InvalidIndex);
            },
            Some(0) => SampleIndex::TimingPointSampleIndex,
            Some(v) => SampleIndex::Index(v),
        };
        let volume = match parse_u8_chars(parts[3].as_slice()) {
            None => {
                return Err(ParseHitSampleError::InvalidVolume);
            },
            Some(0) => Volume(None),
            Some(x) => if x <= 100 {
                Volume(Some(x))
            } else {
                return Err(ParseHitSampleError::InvalidVolume);
            },
        };
        let filename = if parts.len() == 5 {
            proof {
                assert(pv[4] == parts@[4]@);
            }
            Some(chars_to_string(&parts[4]))
        } else {
            None
        };
        Ok(Some(HitSample { normal_set, addition_set, index, volume, filename }))
    }

    /// The text of this hit sample at a version: absent before custom
    /// samples existed, three fields in the middle era, five after.
    pub fn to_string(&self, version: Version) -> (r: Option<String>)
        ensures
            version <= 9 ==> r is None,
            version > 9 ==> r is Some,
    {
        if version <= 9 {
            return None;
        }
        let mut out: Vec<char> = Vec::new();
        push_usize_chars(
            match self.normal_set {
                SampleSet::NoCustomSampleSet => 0,
                SampleSet::NormalSet => 1,
                SampleSet::SoftSet => 2,
                SampleSet::DrumSet => 3,
                SampleSet::Other(v) => v,
            },
            &mut out,
        );
        out.push(':');
        push_usize_chars(
            match self.addition_set {
                SampleSet::NoCustomSampleSet => 0,
                SampleSet::NormalSet => 1,
                SampleSet::SoftSet => 2,
                SampleSet::DrumSet => 3,
                SampleSet::Other(v) => v,
            },
            &mut out,
        );
        out.push(':');
        push_usize_chars(
            match self.index {
                SampleIndex::TimingPointSampleIndex => 0,
                SampleIndex::Index(v) => v,
            },
            &mut out,
        );
        if version >= 12 {
            out.push(':');
            crate::numbers::push_u8_chars(
                match self.volume.0 {
                    Some(v) => v,
                    None => 0,
                },
                &mut out,
            );
            out.push(':');
            match &self.filename {
                Some(f) => {
                    let fc = str_to_chars(f.as_str());
                    crate::text::push_all(fc.as_slice(), &mut out);
                },
                None => {},
            }
        }
        Some(chars_to_string(&out))
    }
}

} // verus!
