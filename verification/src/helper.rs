//! Small shared helpers: the legacy time offset, bit-flag reading and the
//! `0`/`1` boolean codec.

use vstd::prelude::*;
use crate::Version;
use crate::numbers::{parse_i32_chars, spec_parse_i32};
use crate::text::str_to_chars;

verus! {

/// The fixed millisecond offset that old-format versions add to time fields.
pub const OLD_VERSION_TIME_OFFSET: u32 = 24;

/// True for the file format versions that use the legacy time offset.
pub open spec fn spec_old_version(version: int) -> bool {
    3 <= version <= 4
}

/// Adds the legacy time offset to `t` when `version` lies in the old-format
/// range, as the parsers of that era did.
pub fn add_old_version_time_offset(t: u32, version: Version) -> (r: u32)
    requires
        spec_old_version(version as int) ==> t + OLD_VERSION_TIME_OFFSET <= u32::MAX,
    ensures
        r == if spec_old_version(version as int) {
            t + OLD_VERSION_TIME_OFFSET
        } else {
            t as int
        },
{
    if 3 <= version && version <= 4 {
        t + OLD_VERSION_TIME_OFFSET
    } else {
        t
    }
}

/// Whether bit `nth_bit` of `value` is set.
pub fn check_flag_at_bit_u8(value: u8, nth_bit: u8) -> (r: bool)
    requires
        nth_bit < 8,
    ensures
        r == (value >> nth_bit & 1 == 1),
{
    value >> nth_bit & 1 == 1
}

/// Error of [`parse_zero_one_bool`].
#[derive(Clone, Copy, Debug, PartialEq, Eq, Structural)]
pub enum ParseZeroOneBoolError {
    /// The text is not an integer at all.
    ParseIntError,
    /// The text is an integer other than `0` or `1`.
    InvalidValue,
}

/// Reads a boolean field written as `0` or `1`.
pub fn parse_zero_one_bool(value: &str) -> (r: Result<bool, ParseZeroOneBoolError>)
    ensures
        r == match spec_parse_i32(value@) {
            Some(0i32) => Ok::<bool, ParseZeroOneBoolError>(false),
            Some(1i32) => Ok(true),
            Some(_) => Err(ParseZeroOneBoolError::InvalidValue),
            None => Err(ParseZeroOneBoolError::ParseIntError),
        },
{
    let chars = str_to_chars(value);
    match parse_i32_chars(chars.as_slice()) {
        Some(0) => Ok(false),
        Some(1) => Ok(true),
        Some(_) => Err(ParseZeroOneBoolError::InvalidValue),
        None => Err(ParseZeroOneBoolError::ParseIntError),
    }
}

} // verus!

verus! {

/// The views of a slice of strings.
pub open spec fn string_views(parts: Seq<String>) -> Seq<Seq<char>> {
    parts.map_values(|s: String| s@)
}

/// Joins the parts of a pipe-separated list field, as hit-object sample
/// lists are written.
pub fn pipe_vec_to_string(parts: &[String], _version: Version) -> (r: String)
    ensures
        r@ == crate::text::spec_join(string_views(parts@), '|'),
{
    let n = parts.len();
    let mut fields: Vec<Vec<char>> = Vec::new();
    let mut i: usize = 0;
    while i < n
        invariant
            i <= n,
            n == parts@.len(),
            crate::text::field_views(fields@) =~= string_views(parts@).take(i as int),
        decreases n - i,
    {
        let f = str_to_chars(parts[i].as_str());
        proof {
            assert(crate::text::field_views(fields@.push(f)) =~= crate::text::field_views(
                fields@,
            ).push(f@));
            assert(string_views(parts@)[i as int] == parts@[i as int]@);
            assert(string_views(parts@).take(i + 1) =~= string_views(parts@).take(i as int).push(
                string_views(parts@)[i as int],
            ));
        }
        fields.push(f);
        i += 1;
    }
    proof {
        assert(string_views(parts@).take(n as int) =~= string_views(parts@));
    }
    let mut out: Vec<char> = Vec::new();
    crate::text::push_joined(fields.as_slice(), '|', &mut out);
    crate::text::chars_to_string(&out)
}

} // verus!
