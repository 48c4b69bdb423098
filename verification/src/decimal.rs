//! Decimal number fields.
//!
//! A decimal field (a storyboard command value, an animation frame delay) is
//! held as the pair of its integer mantissa and scale: the value is
//! `mantissa / 10^scale`. Reading such a field from text and rendering it
//! back is delegated to the `rust_decimal` crate through the two trusted
//! wrappers below; everything that decides or compares works on the plain
//! pair.

use vstd::prelude::*;

verus! {

/// A decimal value `mantissa / 10^scale`, e.g. `(5, 1)` for `0.5`.
#[derive(Clone, Copy, Debug, Hash, PartialEq, Eq, Structural)]
pub struct Dec {
    pub mantissa: i128,
    pub scale: u32,
}

impl Dec {
    /// The values the underlying decimal library can represent: a magnitude
    /// below `2^96` and at most 28 fractional digits.
    pub open spec fn wf(self) -> bool {
        &&& self.scale <= 28
        &&& -0x1000000000000000000000000i128 < self.mantissa
        &&& self.mantissa < 0x1000000000000000000000000i128
    }

    /// Exec test for [`Dec::wf`].
    pub fn is_wf(&self) -> (r: bool)
        ensures
            r == self.wf(),
    {
        self.scale <= 28 && -0x1000000000000000000000000i128 < self.mantissa
            && self.mantissa < 0x1000000000000000000000000i128
    }
}

/// The value read from a decimal text, if any: what
/// `rust_decimal::Decimal::from_str` accepts and returns, reduced to the
/// mantissa/scale pair. It depends on the characters alone.
pub uninterp spec fn spec_dec_of(s: Seq<char>) -> Option<Dec>;

/// The text of a decimal value: what `rust_decimal`'s `Display` prints for
/// the value with this mantissa and scale. It depends on the pair alone.
pub uninterp spec fn spec_dec_chars(d: Dec) -> Seq<char>;

/// Relies on rust_decimal's `FromStr` impl for `Decimal`, with `mantissa` and
/// `scale` reading the accepted value back out as plain integers. The parsed
/// value is a function of the characters alone, and every `Decimal` holds a
/// magnitude below `2^96` with a scale of at most 28.
#[verifier::external_body]
pub fn dec_from_chars(v: &Vec<char>) -> (r: Option<Dec>)
    ensures
        r == spec_dec_of(v@),
        match r {
            Some(d) => d.wf(),
            None => true,
        },
{
    let s: String = v.iter().collect();
    match <rust_decimal::Decimal as core::str::FromStr>::from_str(&s) {
        Ok(d) => Some(Dec { mantissa: d.mantissa(), scale: d.scale() }),
        Err(_) => None,
    }
}

/// Relies on rust_decimal's `Decimal::from_i128_with_scale` and its `Display`
/// impl: the printed text is a function of mantissa and scale alone, and
/// reading that text back (see `from_str` and `to_str_internal` in the
/// crate's source) returns exactly the mantissa and scale it was printed
/// from. `from_i128_with_scale` panics outside [`Dec::wf`], so that range is
/// required here.
#[verifier::external_body]
pub fn dec_to_chars(d: &Dec) -> (r: Vec<char>)
    requires
        d.wf(),
    ensures
        r@ == spec_dec_chars(*d),
        spec_dec_of(r@) == Some(*d),
{
    let dec = rust_decimal::Decimal::from_i128_with_scale(d.mantissa, d.scale);
    dec.to_string().chars().collect()
}

} // verus!
