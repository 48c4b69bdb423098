//! Decimal text codecs for the integer fields of the file format.
//!
//! Every numeric field of the events section is rendered and read by the
//! functions here; the specification functions pin the exact text produced
//! for a value and the exact value read from a text, and the lemmas state
//! that the two directions invert each other.

use vstd::prelude::*;

verus! {

/// True for the ten ASCII digit characters.
pub open spec fn is_digit(c: char) -> bool {
    '0' <= c && c <= '9'
}

/// Numeric value of a digit character.
pub open spec fn digit_val(c: char) -> int {
    c as int - '0' as int
}

/// The digit character for a value below ten.
pub open spec fn digit_char(d: int) -> char {
    if d == 0 {
        '0'
    } else if d == 1 {
        '1'
    } else if d == 2 {
        '2'
    } else if d == 3 {
        '3'
    } else if d == 4 {
        '4'
    } else if d == 5 {
        '5'
    } else if d == 6 {
        '6'
    } else if d == 7 {
        '7'
    } else if d == 8 {
        '8'
    } else {
        '9'
    }
}

/// The shortest decimal digit string for `n`: no sign, no leading zero
/// except for `n == 0` itself.
pub open spec fn spec_nat_chars(n: nat) -> Seq<char>
    decreases n,
{
    if n < 10 {
        seq![digit_char(n as int)]
    } else {
        spec_nat_chars(n / 10) + seq![digit_char((n % 10) as int)]
    }
}

/// The decimal rendering of a signed value: a `-` sign for negative values,
/// then the digits of the magnitude.
pub open spec fn spec_int_chars(i: int) -> Seq<char> {
    if i < 0 {
        seq!['-'] + spec_nat_chars((-i) as nat)
    } else {
        spec_nat_chars(i as nat)
    }
}

/// True when every character of `s` is a digit.
pub open spec fn all_digits(s: Seq<char>) -> bool {
    forall|i: int| 0 <= i < s.len() ==> is_digit(#[trigger] s[i])
}

/// The value of a digit string, most significant digit first.
pub open spec fn digits_val(s: Seq<char>) -> nat
    decreases s.len(),
{
    if s.len() == 0 {
        0
    } else {
        digits_val(s.drop_last()) * 10 + (if is_digit(s.last()) {
            digit_val(s.last())
        } else {
            0
        }) as nat
    }
}

/// Reading of an unsigned decimal field: one optional `+`, then one or more
/// digits; anything else reads as nothing.
pub open spec fn spec_parse_nat(s: Seq<char>) -> Option<nat> {
    let t = if s.len() > 0 && s[0] == '+' {
        s.drop_first()
    } else {
        s
    };
    if t.len() > 0 && all_digits(t) {
        Some(digits_val(t))
    } else {
        None
    }
}

/// Reading of a signed decimal field: one optional `+` or `-`, then one or
/// more digits.
pub open spec fn spec_parse_int(s: Seq<char>) -> Option<int> {
    if s.len() > 0 && s[0] == '-' {
        let t = s.drop_first();
        if t.len() > 0 && all_digits(t) {
            Some(-(digits_val(t) as int))
        } else {
            None
        }
    } else {
        match spec_parse_nat(s) {
            Some(n) => Some(n as int),
            None => None,
        }
    }
}

/// Reading of an `i32` field: the signed reading, bounded to the type.
pub open spec fn spec_parse_i32(s: Seq<char>) -> Option<i32> {
    match spec_parse_int(s) {
        Some(v) => if i32::MIN <= v <= i32::MAX {
            Some(v as i32)
        } else {
            None
        },
        None => None,
    }
}

/// Reading of a `u8` field.
pub open spec fn spec_parse_u8(s: Seq<char>) -> Option<u8> {
    match spec_parse_nat(s) {
        Some(v) => if v <= u8::MAX {
            Some(v as u8)
        } else {
            None
        },
        None => None,
    }
}

/// Reading of a `u32` field.
pub open spec fn spec_parse_u32(s: Seq<char>) -> Option<u32> {
    match spec_parse_nat(s) {
        Some(v) => if v <= u32::MAX {
            Some(v as u32)
        } else {
            None
        },
        None => None,
    }
}

/// Reading of a `usize` field.
pub open spec fn spec_parse_usize(s: Seq<char>) -> Option<usize> {
    match spec_parse_nat(s) {
        Some(v) => if v <= usize::MAX {
            Some(v as usize)
        } else {
            None
        },
        None => None,
    }
}

/// Digit strings only grow in value as they grow to the right.
proof fn lemma_digits_val_prefix_le(s: Seq<char>, i: int)
    requires
        0 <= i <= s.len(),
    ensures
        digits_val(s.take(i)) <= digits_val(s),
    decreases s.len() - i,
{
    if i < s.len() {
        lemma_digits_val_prefix_le(s, i + 1);
        assert(s.take(i + 1).drop_last() =~= s.take(i));
        assert(digits_val(s.take(i + 1)) >= digits_val(s.take(i)) * 10);
    } else {
        assert(s.take(i) =~= s);
    }
}

/// The digits of `n` read back as `n`.
pub proof fn lemma_nat_chars_val(n: nat)
    ensures
        spec_nat_chars(n).len() >= 1,
        all_digits(spec_nat_chars(n)),
        digits_val(spec_nat_chars(n)) == n,
    decreases n,
{
    if n < 10 {
        let s = seq![digit_char(n as int)];
        assert(s.drop_last() =~= Seq::<char>::empty());
        assert(digits_val(s.drop_last()) == 0);
        assert(s.last() == digit_char(n as int));
        assert(digit_val(digit_char(n as int)) == n);
    } else {
        lemma_nat_chars_val(n / 10);
        let a = spec_nat_chars(n / 10);
        let s = a + seq![digit_char((n % 10) as int)];
        assert(s.drop_last() =~= a);
        assert(digits_val(s) == digits_val(a) * 10 + n % 10);
    }
}

/// The rendering of an in-range signed value reads back as that value.
pub proof fn lemma_int_chars_parse(i: int)
    requires
        i32::MIN <= i <= i32::MAX,
    ensures
        spec_parse_i32(spec_int_chars(i)) == Some(i as i32),
{
    if i < 0 {
        lemma_nat_chars_val((-i) as nat);
        let s = spec_int_chars(i);
        assert(s[0] == '-');
        assert(s.drop_first() =~= spec_nat_chars((-i) as nat));
    } else {
        lemma_nat_chars_val(i as nat);
        let s = spec_int_chars(i);
        assert(s[0] != '+');
    }
}

/// Every character of a rendered signed value is a digit or the sign.
pub proof fn lemma_int_chars_shape(i: int)
    ensures
        spec_int_chars(i).len() >= 1,
        forall|k: int|
            0 <= k < spec_int_chars(i).len() ==> (is_digit(#[trigger] spec_int_chars(i)[k])
                || spec_int_chars(i)[k] == '-'),
{
    if i < 0 {
        lemma_nat_chars_val((-i) as nat);
    } else {
        lemma_nat_chars_val(i as nat);
    }
}

/// Exec mirror of [`digit_char`].
fn digit_to_char(d: u64) -> (c: char)
    requires
        d < 10,
    ensures
        c == digit_char(d as int),
{
    if d == 0 {
        '0'
    } else if d == 1 {
        '1'
    } else if d == 2 {
        '2'
    } else if d == 3 {
        '3'
    } else if d == 4 {
        '4'
    } else if d == 5 {
        '5'
    } else if d == 6 {
        '6'
    } else if d == 7 {
        '7'
    } else if d == 8 {
        '8'
    } else {
        '9'
    }
}

/// Exec test for a digit character, with its value.
pub fn char_digit(c: char) -> (r: Option<u64>)
    ensures
        match r {
            Some(v) => is_digit(c) && v == digit_val(c) && v < 10,
            None => !is_digit(c),
        },
{
    let u = c as u32;
    if 48 <= u && u <= 57 {
        Some((u - 48) as u64)
    } else {
        None
    }
}

/// Appends the digits of `n` to `out`.
fn push_nat_chars(n: u64, out: &mut Vec<char>)
    ensures
        final(out)@ == old(out)@ + spec_nat_chars(n as nat),
    decreases n,
{
    if n < 10 {
        out.push(digit_to_char(n));
    } else {
        push_nat_chars(n / 10, out);
        out.push(digit_to_char(n % 10));
        assert(final(out)@ =~= old(out)@ + spec_nat_chars(n as nat));
    }
}

/// Appends the decimal rendering of `x` to `out`.
pub fn push_i32_chars(x: i32, out: &mut Vec<char>)
    ensures
        final(out)@ == old(out)@ + spec_int_chars(x as int),
{
    if x < 0 {
        out.push('-');
        let m = -(x as i64);
        push_nat_chars(m as u64, out);
        assert(final(out)@ =~= old(out)@ + spec_int_chars(x as int));
    } else {
        push_nat_chars(x as u64, out);
    }
}

/// The decimal rendering of `x` on its own.
pub fn i32_to_chars(x: i32) -> (r: Vec<char>)
    ensures
        r@ == spec_int_chars(x as int),
{
    let mut out: Vec<char> = Vec::new();
    push_i32_chars(x, &mut out);
    out
}

/// Appends the decimal rendering of `n` to `out`.
pub fn push_u32_chars(n: u32, out: &mut Vec<char>)
    ensures
        final(out)@ == old(out)@ + spec_nat_chars(n as nat),
{
    push_nat_chars(n as u64, out);
}

/// Appends the decimal rendering of `n` to `out`.
pub fn push_u8_chars(n: u8, out: &mut Vec<char>)
    ensures
        final(out)@ == old(out)@ + spec_nat_chars(n as nat),
{
    push_nat_chars(n as u64, out);
}

/// Appends the decimal rendering of `n` to `out`.
pub fn push_usize_chars(n: usize, out: &mut Vec<char>)
    ensures
        final(out)@ == old(out)@ + spec_nat_chars(n as nat),
{
    push_nat_chars(n as u64, out);
}

/// Reads the digit run `s[from..]` as a value at most `cap`.
fn parse_digits(s: &[char], from: usize, cap: u64) -> (r: Option<u64>)
    requires
        from <= s@.len(),
        cap <= 0xffff_ffff_ffff_ffffu64 / 10,
    ensures
        ({
            let t = s@.skip(from as int);
            match r {
                Some(v) => t.len() > 0 && all_digits(t) && digits_val(t) == v && v <= cap,
                None => !(t.len() > 0 && all_digits(t) && digits_val(t) <= cap),
            }
        }),
{
    let ghost t = s@.skip(from as int);
    let len = s.len();
    if from == len {
        return None;
    }
    let mut acc: u64 = 0;
    let mut i = from;
    while i < len
        invariant
            from <= i <= len,
            len == s@.len(),
            t == s@.skip(from as int),
            cap <= 0xffff_ffff_ffff_ffffu64 / 10,
            acc <= cap,
            all_digits(t.take(i - from)),
            digits_val(t.take(i - from)) == acc,
        decreases len - i,
    {
        let c = s[i];
        assert(t[i - from] == c);
        match char_digit(c) {
            Some(d) => {
                assert(t.take(i + 1 - from).drop_last() =~= t.take(i - from));
                if acc > cap / 10 || (acc == cap / 10 && d > cap % 10) {
                    // the value of the whole run can only be larger
                    proof {
                        if all_digits(t) {
                            lemma_digits_val_prefix_le(t, i + 1 - from);
                            assert(digits_val(t.take(i + 1 - from)) == acc * 10 + d);
                            assert(acc * 10 + d > cap) by (nonlinear_arith)
                                requires
                                    acc <= cap,
                                    d < 10,
                                    acc > cap / 10 || (acc == cap / 10 && d > cap % 10),
                            ;
                        }
                    }
                    return None;
                }
                assert(acc * 10 + d <= cap) by (nonlinear_arith)
                    requires
                        d < 10,
                        acc <= cap / 10,
                        !(acc == cap / 10 && d > cap % 10),
                ;
                acc = acc * 10 + d;
            },
            None => {
                return None;
            },
        }
        i += 1;
    }
    assert(t.take(i - from) =~= t);
    Some(acc)
}

/// Reads a whole field as an `i32`, exactly as [`spec_parse_i32`] says.
pub fn parse_i32_chars(s: &[char]) -> (r: Option<i32>)
    ensures
        r == spec_parse_i32(s@),
{
    if s.len() > 0 && (s[0] == '-' || s[0] == '+') {
        let neg = s[0] == '-';
        let cap: u64 = if neg {
            2147483648
        } else {
            2147483647
        };
        match parse_digits(s, 1, cap) {
            Some(v) => {
                proof {
                    assert(s@.skip(1) =~= s@.drop_first());
                }
                if neg {
                    Some((-(v as i64)) as i32)
                } else {
                    Some(v as i32)
                }
            },
            None => {
                proof {
                    assert(s@.skip(1) =~= s@.drop_first());
                }
                None
            },
        }
    } else {
        match parse_digits(s, 0, 2147483647) {
            Some(v) => {
                proof {
                    assert(s@.skip(0) =~= s@);
                }
                Some(v as i32)
            },
            None => {
                proof {
                    assert(s@.skip(0) =~= s@);
                }
                None
            },
        }
    }
}

/// Reads a whole field as a `u8`, exactly as [`spec_parse_u8`] says.
pub fn parse_u8_chars(s: &[char]) -> (r: Option<u8>)
    ensures
        r == spec_parse_u8(s@),
{
    let from: usize = if s.len() > 0 && s[0] == '+' {
        1
    } else {
        0
    };
    let r = parse_digits(s, from, 255);
    proof {
        if from == 1 {
            assert(s@.skip(1) =~= s@.drop_first());
        } else {
            assert(s@.skip(0) =~= s@);
        }
    }
    match r {
        Some(v) => Some(v as u8),
        None => None,
    }
}

/// Reads a whole field as a `u32`, exactly as [`spec_parse_u32`] says.
pub fn parse_u32_chars(s: &[char]) -> (r: Option<u32>)
    ensures
        r == spec_parse_u32(s@),
{
    let from: usize = if s.len() > 0 && s[0] == '+' {
        1
    } else {
        0
    };
    let r = parse_digits(s, from, 4294967295);
    proof {
        if from == 1 {
            assert(s@.skip(1) =~= s@.drop_first());
        } else {
            assert(s@.skip(0) =~= s@);
        }
    }
    match r {
        Some(v) => Some(v as u32),
        None => None,
    }
}

/// Reads a whole field as a `usize`, exactly as [`spec_parse_usize`] says.
pub fn parse_usize_chars(s: &[char]) -> (r: Option<usize>)
    ensures
        r == spec_parse_usize(s@),
{
    let from: usize = if s.len() > 0 && s[0] == '+' {
        1
    } else {
        0
    };
    let r = parse_digits_usize(s, from);
    proof {
        if from == 1 {
            assert(s@.skip(1) =~= s@.drop_first());
        } else {
            assert(s@.skip(0) =~= s@);
        }
    }
    r
}

/// Reads the digit run `s[from..]` as a `usize`.
fn parse_digits_usize(s: &[char], from: usize) -> (r: Option<usize>)
    requires
        from <= s@.len(),
    ensures
        ({
            let t = s@.skip(from as int);
            match r {
                Some(v) => t.len() > 0 && all_digits(t) && digits_val(t) == v,
                None => !(t.len() > 0 && all_digits(t) && digits_val(t) <= usize::MAX),
            }
        }),
{
    let ghost t = s@.skip(from as int);
    let len = s.len();
    if from == len {
        return None;
    }
    let mut acc: usize = 0;
    let mut i = from;
    while i < len
        invariant
            from <= i <= len,
            len == s@.len(),
            t == s@.skip(from as int),
            all_digits(t.take(i - from)),
            digits_val(t.take(i - from)) == acc,
        decreases len - i,
    {
        let c = s[i];
        assert(t[i - from] == c);
        match char_digit(c) {
            Some(d) => {
                assert(t.take(i + 1 - from).drop_last() =~= t.take(i - from));
                if acc > usize::MAX / 10 || (acc == usize::MAX / 10 && d as usize > usize::MAX % 10)
                {
                    proof {
                        if all_digits(t) {
                            lemma_digits_val_prefix_le(t, i + 1 - from);
                            assert(digits_val(t.take(i + 1 - from)) == acc * 10 + d);
                            assert(acc * 10 + d > usize::MAX) by (nonlinear_arith)
                                requires
                                    d < 10,
                                    acc <= usize::MAX,
                                    acc > usize::MAX / 10 || (acc == usize::MAX / 10 && d
                                        > usize::MAX % 10),
                            ;
                        }
                    }
                    return None;
                }
                assert(acc * 10 + d <= usize::MAX) by (nonlinear_arith)
                    requires
                        d < 10,
                        acc <= usize::MAX / 10,
                        !(acc == usize::MAX / 10 && d > usize::MAX % 10),
                ;
                acc = acc * 10 + d as usize;
            },
            None => {
                return None;
            },
        }
        i += 1;
    }
    assert(t.take(i - from) =~= t);
    Some(acc)
}

} // verus!

verus! {

/// The digits of `n` read back as `n` through the unsigned field reading.
pub proof fn lemma_nat_chars_parse(n: nat)
    ensures
        spec_parse_nat(spec_nat_chars(n)) == Some(n),
{
    lemma_nat_chars_val(n);
    let s = spec_nat_chars(n);
    assert(is_digit(s[0]));
    assert(s[0] != '+');
}

} // verus!
