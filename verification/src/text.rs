//! Character-level text utilities.
//!
//! The whole engine works on sequences of characters; this module converts
//! between `String` and `Vec<char>`, splits text on a separator character
//! and joins it back, and proves that joining then splitting returns the
//! fields unchanged when no field holds the separator.

use vstd::prelude::*;
use vstd::string::StrSliceExecFns;

verus! {

/// The characters of `s`, in order.
pub fn str_to_chars(s: &str) -> (r: Vec<char>)
    ensures
        r@ == s@,
{
    let n = s.unicode_len();
    let mut r: Vec<char> = Vec::new();
    let mut i: usize = 0;
    while i < n
        invariant
            i <= n,
            n == s@.len(),
            r@ == s@.take(i as int),
        decreases n - i,
    {
        r.push(s.get_char(i));
        proof {
            assert(r@ =~= s@.take(i + 1));
        }
        i += 1;
    }
    proof {
        assert(s@.take(n as int) =~= s@);
    }
    r
}

/// Relies on `String`'s `FromIterator<char>` impl: collecting an iterator of
/// characters yields the string of exactly those characters in order.
#[verifier::external_body]
pub fn chars_to_string(v: &Vec<char>) -> (r: String)
    ensures
        r@ == v@,
{
    v.iter().collect()
}

/// True when `s` begins with `p`.
pub open spec fn spec_starts_with(s: Seq<char>, p: Seq<char>) -> bool {
    p.len() <= s.len() && s.take(p.len() as int) == p
}

/// Whether `s[from..]` begins with the characters of `w`.
pub fn has_prefix(s: &[char], from: usize, w: &str) -> (b: bool)
    requires
        from <= s@.len(),
    ensures
        b == spec_starts_with(s@.skip(from as int), w@),
{
    let wc = str_to_chars(w);
    let m = wc.len();
    let n = s.len();
    if m > n - from {
        return false;
    }
    let ghost t = s@.skip(from as int);
    let mut j: usize = 0;
    while j < m
        invariant
            j <= m,
            m == w@.len(),
            n == s@.len(),
            from + m <= n,
            wc@ == w@,
            t == s@.skip(from as int),
            t.take(j as int) =~= w@.take(j as int),
        decreases m - j,
    {
        if s[from + j] != wc[j] {
            assert(t[j as int] != w@[j as int]);
            assert(!spec_starts_with(t, w@)) by {
                if spec_starts_with(t, w@) {
                    assert(t.take(m as int)[j as int] == w@[j as int]);
                }
            }
            return false;
        }
        assert(t.take(j + 1) =~= t.take(j as int).push(t[j as int]));
        assert(w@.take(j + 1) =~= w@.take(j as int).push(w@[j as int]));
        j += 1;
    }
    assert(w@.take(m as int) =~= w@);
    true
}

/// Whether the characters of `v` are exactly those of `w`.
pub fn chars_eq(v: &[char], w: &str) -> (b: bool)
    ensures
        b == (v@ == w@),
{
    let wc = str_to_chars(w);
    let m = wc.len();
    if v.len() != m {
        return false;
    }
    let mut j: usize = 0;
    while j < m
        invariant
            j <= m,
            m == w@.len(),
            m == v@.len(),
            wc@ == w@,
            v@.take(j as int) =~= w@.take(j as int),
        decreases m - j,
    {
        if v[j] != wc[j] {
            return false;
        }
        assert(v@.take(j + 1) =~= v@.take(j as int).push(v@[j as int]));
        assert(w@.take(j + 1) =~= w@.take(j as int).push(w@[j as int]));
        j += 1;
    }
    assert(v@.take(m as int) =~= v@);
    assert(w@.take(m as int) =~= w@);
    true
}

/// True when `c` occurs nowhere in `s`.
pub open spec fn has_no_char(s: Seq<char>, sep: char) -> bool {
    forall|i: int| 0 <= i < s.len() ==> #[trigger] s[i] != sep
}

/// Splitting `s` at every occurrence of `sep`, keeping empty fields; the
/// result always holds at least one field.
pub open spec fn spec_split(s: Seq<char>, sep: char) -> Seq<Seq<char>>
    decreases s.len(),
{
    if s.len() == 0 {
        seq![Seq::<char>::empty()]
    } else if s[0] == sep {
        seq![Seq::<char>::empty()] + spec_split(s.drop_first(), sep)
    } else {
        let r = spec_split(s.drop_first(), sep);
        r.update(0, seq![s[0]] + r[0])
    }
}

/// Joining fields with `sep` between consecutive fields.
pub open spec fn spec_join(fields: Seq<Seq<char>>, sep: char) -> Seq<char>
    decreases fields.len(),
{
    if fields.len() == 0 {
        Seq::<char>::empty()
    } else if fields.len() == 1 {
        fields[0]
    } else {
        fields[0] + seq![sep] + spec_join(fields.drop_first(), sep)
    }
}

/// The views of a vector of character vectors.
pub open spec fn field_views(fs: Seq<Vec<char>>) -> Seq<Seq<char>> {
    fs.map_values(|f: Vec<char>| f@)
}

/// A split always yields at least one field.
pub proof fn lemma_split_len(s: Seq<char>, sep: char)
    ensures
        spec_split(s, sep).len() >= 1,
    decreases s.len(),
{
    if s.len() != 0 {
        lemma_split_len(s.drop_first(), sep);
    }
}

/// Text without the separator splits to itself as the one field.
pub proof fn lemma_split_whole(s: Seq<char>, sep: char)
    requires
        has_no_char(s, sep),
    ensures
        spec_split(s, sep) =~~= seq![s],
    decreases s.len(),
{
    if s.len() != 0 {
        lemma_split_whole(s.drop_first(), sep);
        let r = spec_split(s.drop_first(), sep);
        assert(spec_split(s, sep) =~~= r.update(0, seq![s[0]] + r[0]));
        assert(seq![s[0]] + s.drop_first() =~= s);
    }
}

/// A separator after a clean field cuts exactly there.
pub proof fn lemma_split_step(a: Seq<char>, b: Seq<char>, sep: char)
    requires
        has_no_char(a, sep),
    ensures
        spec_split(a + seq![sep] + b, sep) =~~= seq![a] + spec_split(b, sep),
    decreases a.len(),
{
    if a.len() == 0 {
        assert(a + seq![sep] + b =~= seq![sep] + b);
        assert((seq![sep] + b)[0] == sep);
        assert((seq![sep] + b).drop_first() =~= b);
    } else {
        let s = a + seq![sep] + b;
        assert(s[0] == a[0]);
        assert(s[0] != sep);
        assert(s.drop_first() =~= a.drop_first() + seq![sep] + b);
        lemma_split_step(a.drop_first(), b, sep);
        let r = spec_split(s.drop_first(), sep);
        lemma_split_len(b, sep);
        assert(r[0] == a.drop_first());
        assert(seq![s[0]] + r[0] =~= a);
    }
}

/// Joining clean fields and splitting again returns the fields unchanged.
pub proof fn lemma_join_split(fields: Seq<Seq<char>>, sep: char)
    requires
        fields.len() >= 1,
        forall|i: int| 0 <= i < fields.len() ==> has_no_char(#[trigger] fields[i], sep),
    ensures
        spec_split(spec_join(fields, sep), sep) =~~= fields,
    decreases fields.len(),
{
    if fields.len() == 1 {
        lemma_split_whole(fields[0], sep);
    } else {
        lemma_join_split(fields.drop_first(), sep);
        lemma_split_step(fields[0], spec_join(fields.drop_first(), sep), sep);
    }
}

/// Splits `s` at every occurrence of `sep`, exactly as [`spec_split`] says.
pub fn split_chars(s: &[char], sep: char) -> (r: Vec<Vec<char>>)
    ensures
        field_views(r@) == spec_split(s@, sep),
        r@.len() >= 1,
{
    let n = s.len();
    let mut done: Vec<Vec<char>> = Vec::new();
    let mut cur: Vec<char> = Vec::new();
    let mut i: usize = 0;
    proof {
        assert(cur@ + s@.skip(0) =~= s@);
        assert(field_views(done@) =~= Seq::<Seq<char>>::empty());
        assert(field_views(done@) + spec_split(s@, sep) =~= spec_split(s@, sep));
    }
    while i < n
        invariant
            i <= n,
            n == s@.len(),
            has_no_char(cur@, sep),
            spec_split(s@, sep) =~~= field_views(done@) + spec_split(cur@ + s@.skip(i as int), sep),
        decreases n - i,
    {
        let c = s[i];
        if c == sep {
            proof {
                assert(cur@ + s@.skip(i as int) =~= cur@ + seq![sep] + s@.skip(i + 1));
                lemma_split_step(cur@, s@.skip(i + 1), sep);
                assert(field_views(done@.push(cur)) =~= field_views(done@) + seq![cur@]);
                assert(Seq::<char>::empty() + s@.skip(i + 1) =~= s@.skip(i + 1));
            }
            done.push(cur);
            cur = Vec::new();
        } else {
            proof {
                assert(cur@ + s@.skip(i as int) =~= (cur@.push(c)) + s@.skip(i + 1));
            }
            cur.push(c);
        }
        i += 1;
    }
    proof {
        assert(cur@ + s@.skip(n as int) =~= cur@);
        lemma_split_whole(cur@, sep);
        assert(field_views(done@.push(cur)) =~= field_views(done@) + seq![cur@]);
    }
    done.push(cur);
    proof {
        lemma_split_len(s@, sep);
    }
    done
}

/// Joining one more field appends one separator and that field.
pub proof fn lemma_join_push(fs: Seq<Seq<char>>, f: Seq<char>, sep: char)
    requires
        fs.len() >= 1,
    ensures
        spec_join(fs.push(f), sep) == spec_join(fs, sep) + seq![sep] + f,
    decreases fs.len(),
{
    if fs.len() == 1 {
        assert(fs.push(f).drop_first() =~= seq![f]);
        assert(fs.push(f)[0] == fs[0]);
        assert(spec_join(seq![f], sep) == f);
        assert(spec_join(fs.push(f), sep) == fs[0] + seq![sep] + f);
    } else {
        assert(fs.push(f).drop_first() =~= fs.drop_first().push(f));
        lemma_join_push(fs.drop_first(), f, sep);
        assert(spec_join(fs.push(f), sep) =~= spec_join(fs, sep) + seq![sep] + f);
    }
}

/// Appends every character of `v` to `out`.
pub fn push_all(v: &[char], out: &mut Vec<char>)
    ensures
        final(out)@ == old(out)@ + v@,
{
    let n = v.len();
    let mut j: usize = 0;
    while j < n
        invariant
            j <= n,
            n == v@.len(),
            out@ == old(out)@ + v@.take(j as int),
        decreases n - j,
    {
        out.push(v[j]);
        proof {
            assert(old(out)@ + v@.take(j + 1) =~= (old(out)@ + v@.take(j as int)).push(v@[j as int]));
        }
        j += 1;
    }
    proof {
        assert(v@.take(n as int) =~= v@);
    }
}

/// Appends `fields` joined with `sep` to `out`, exactly as [`spec_join`] says.
pub fn push_joined(fields: &[Vec<char>], sep: char, out: &mut Vec<char>)
    ensures
        final(out)@ == old(out)@ + spec_join(field_views(fields@), sep),
{
    let n = fields.len();
    let mut i: usize = 0;
    while i < n
        invariant
            i <= n,
            n == fields@.len(),
            i == 0 ==> out@ == old(out)@,
            i >= 1 ==> out@ == old(out)@ + spec_join(field_views(fields@).take(i as int), sep),
        decreases n - i,
    {
        let ghost fv = field_views(fields@);
        if i > 0 {
            out.push(sep);
        }
        push_all(fields[i].as_slice(), out);
        proof {
            assert(fv.take(i + 1) =~= fv.take(i as int).push(fields@[i as int]@));
            if i == 0 {
                assert(spec_join(fv.take(1), sep) == fv[0]);
            } else {
                lemma_join_push(fv.take(i as int), fields@[i as int]@, sep);
            }
        }
        i += 1;
    }
    proof {
        if n >= 1 {
            assert(field_views(fields@).take(n as int) =~= field_views(fields@));
        }
    }
}

} // verus!
