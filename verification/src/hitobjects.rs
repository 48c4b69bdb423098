//! Field codecs for the hit-object records that surround the events
//! section.

pub mod error;
pub mod types;

use vstd::prelude::*;
use crate::text::str_to_chars;
use crate::numbers::parse_u8_chars;

verus! {

/// What kind of hit object a type number names.
#[derive(Clone, Copy, Debug, Hash, PartialEq, Eq, Structural)]
pub enum HitObjectType {
    HitCircle,
    Slider,
    Spinner,
    OsuManiaHold,
}

/// A decoded hit-object type number: the object kind, the new-combo flag
/// and the combo skip count packed into one byte.
#[derive(Clone, Copy, Debug, Hash, PartialEq, Eq, Structural)]
pub struct HitObjectTypeNumber {
    pub number: u8,
    pub new_combo: bool,
    pub combo_skip_count: types::ComboSkipCount,
    pub obj_type: HitObjectType,
}

impl HitObjectTypeNumber {
    /// Reads a type number field: the byte must set exactly one of the
    /// four object kind flags.
    pub fn from_str(value: &str) -> (r: Result<
        HitObjectTypeNumber,
        error::ParseHitObjectTypeNumberError,
    >)
        ensures
            match crate::numbers::spec_parse_u8(value@) {
                None => r == Err::<HitObjectTypeNumber, _>(
                    error::ParseHitObjectTypeNumberError::ParseValueError,
                ),
                Some(n) => {
                    let circle = n >> 0 & 1;
                    let slider = n >> 1 & 1;
                    let spinner = n >> 3 & 1;
                    let hold = n >> 7 & 1;
                    if circle + slider + spinner + hold != 1 {
                        r == Err::<HitObjectTypeNumber, _>(
                            error::ParseHitObjectTypeNumberError::InvalidObjType,
                        )
                    } else {
                        r == Ok::<_, error::ParseHitObjectTypeNumberError>(
                            HitObjectTypeNumber {
                                number: n,
                                new_combo: n >> 2 & 1 == 1,
                                combo_skip_count: types::ComboSkipCount(n >> 4 & 7),
                                obj_type: if circle == 1 {
                                    HitObjectType::HitCircle
                                } else if slider == 1 {
                                    HitObjectType::Slider
                                } else if spinner == 1 {
                                    HitObjectType::Spinner
                                } else {
                                    HitObjectType::OsuManiaHold
                                },
                            },
                        )
                    }
                },
            },
    {
        let chars = str_to_chars(value);
        let n = match parse_u8_chars(chars.as_slice()) {
            None => {
                return Err(error::ParseHitObjectTypeNumberError::ParseValueError);
            },
            Some(v) => v,
        };
        let circle = n >> 0 & 1;
        let slider = n >> 1 & 1;
        let spinner = n >> 3 & 1;
        let hold = n >> 7 & 1;
        proof {
            assert(circle <= 1 && slider <= 1 && spinner <= 1 && hold <= 1) by (bit_vector)
                requires
                    circle == n >> 0 & 1 && slider == n >> 1 & 1 && spinner == n >> 3 & 1 && hold
                        == n >> 7 & 1,
            ;
        }
        if circle + slider + spinner + hold != 1 {
            return Err(error::ParseHitObjectTypeNumberError::InvalidObjType);
        }
        let obj_type = if circle == 1 {
            HitObjectType::HitCircle
        } else if slider == 1 {
            HitObjectType::Slider
        } else if spinner == 1 {
            HitObjectType::Spinner
        } else {
            HitObjectType::OsuManiaHold
        };
        Ok(
            HitObjectTypeNumber {
                number: n,
                new_combo: n >> 2 & 1 == 1,
                combo_skip_count: types::ComboSkipCount(n >> 4 & 7),
                obj_type,
            },
        )
    }
}

} // verus!
