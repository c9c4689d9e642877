//! Character-level text model: width normalization, splitting on a separator,
//! and parsing of unsigned decimal fields.

use vstd::prelude::*;

verus! {

/// True of the ASCII digits `'0'` through `'9'`.
pub open spec fn is_ascii_digit_char(c: char) -> bool {
    '0' <= c && c <= '9'
}

/// The half-width equivalent of a character: full-width (Zenkaku) forms of the
/// printable ASCII characters, `U+FF01` through `U+FF5E`, map down to
/// `U+0021` through `U+007E`; every other character is left unchanged.
pub open spec fn half_char(c: char) -> char {
    if 0xFF01 <= c as u32 && c as u32 <= 0xFF5E {
        (c as u32 - 0xFEE0) as char
    } else {
        c
    }
}

/// A string with every character replaced by its half-width equivalent.
pub open spec fn normalized(s: Seq<char>) -> Seq<char> {
    s.map_values(|c: char| half_char(c))
}

/// Computes the half-width equivalent of one character.
pub fn half_width_char(c: char) -> (r: char)
    ensures
        r == half_char(c),
{
    let u = c as u32;
    if 0xFF01 <= u && u <= 0xFF5E {
        ((u - 0xFEE0) as u8) as char
    } else {
        c
    }
}

/// The segments of a string split on a separator character, in the manner of
/// `str::split`: the empty string yields one empty segment, every occurrence
/// of the separator ends a segment, and a trailing separator leaves a final
/// empty segment.
pub open spec fn split_on(s: Seq<char>, sep: char) -> Seq<Seq<char>>
    decreases s.len(),
{
    if s.len() == 0 {
        seq![Seq::<char>::empty()]
    } else {
        let prev = split_on(s.drop_last(), sep);
        if s.last() == sep {
            prev.push(Seq::<char>::empty())
        } else {
            prev.update(prev.len() - 1, prev.last().push(s.last()))
        }
    }
}

/// A split always yields at least one segment.
pub proof fn lemma_split_on_len(s: Seq<char>, sep: char)
    ensures
        split_on(s, sep).len() >= 1,
    decreases s.len(),
{
    if s.len() != 0 {
        lemma_split_on_len(s.drop_last(), sep);
    }
}

/// Splits a character vector on a separator, in the manner of `str::split`.
pub fn split_char(v: &Vec<char>, sep: char) -> (r: Vec<Vec<char>>)
    ensures
        r.deep_view() == split_on(v@, sep),
{
    let mut segs: Vec<Vec<char>> = Vec::new();
    let mut cur: Vec<char> = Vec::new();
    let mut i: usize = 0;
    while i < v.len()
        invariant
            i <= v@.len(),
            segs.deep_view().push(cur@) == split_on(v@.subrange(0, i as int), sep),
        decreases v@.len() - i,
    {
        let ghost pre = v@.subrange(0, i as int);
        let ghost segs0 = segs.deep_view();
        let ghost cur0 = cur@;
        assert(v@.subrange(0, i + 1).drop_last() =~= pre);
        let c = v[i];
        if c == sep {
            segs.push(cur);
            cur = Vec::new();
            assert(segs.deep_view() =~~= segs0.push(cur0));
            assert(segs.deep_view().push(cur@) =~= split_on(v@.subrange(0, i + 1), sep));
        } else {
            cur.push(c);
            proof {
                lemma_split_on_len(pre, sep);
                let s0 = segs0.push(cur0);
                assert(s0.update(s0.len() - 1, s0.last().push(c)) =~= segs0.push(cur0.push(c)));
            }
            assert(segs.deep_view().push(cur@) =~= split_on(v@.subrange(0, i + 1), sep));
        }
        i = i + 1;
    }
    assert(v@.subrange(0, v@.len() as int) =~= v@);
    segs.push(cur);
    assert(segs.deep_view() =~~= split_on(v@, sep));
    segs
}

/// True when the separator occurs nowhere in the string.
pub open spec fn no_sep(s: Seq<char>, sep: char) -> bool {
    forall|i: int| 0 <= i < s.len() ==> #[trigger] s[i] != sep
}

/// A string without the separator is one single segment.
pub proof fn lemma_split_no_sep(s: Seq<char>, sep: char)
    requires
        no_sep(s, sep),
    ensures
        split_on(s, sep) == seq![s],
    decreases s.len(),
{
    if s.len() == 0 {
        assert(split_on(s, sep) =~~= seq![s]);
    } else {
        lemma_split_no_sep(s.drop_last(), sep);
        assert(s.drop_last().push(s.last()) =~= s);
        assert(split_on(s, sep) =~~= seq![s]);
    }
}

/// Two separator-free strings joined by one separator split into exactly
/// those two segments.
pub proof fn lemma_split_two(x: Seq<char>, y: Seq<char>, sep: char)
    requires
        no_sep(x, sep),
        no_sep(y, sep),
    ensures
        split_on(x + seq![sep] + y, sep) == seq![x, y],
    decreases y.len(),
{
    if y.len() == 0 {
        let s = x + seq![sep] + y;
        assert(s =~= x.push(sep));
        assert(s.drop_last() =~= x);
        lemma_split_no_sep(x, sep);
        assert(split_on(s, sep) =~~= seq![x, y]);
    } else {
        let y0 = y.drop_last();
        let c = y.last();
        let s0 = x + seq![sep] + y0;
        let s = x + seq![sep] + y;
        lemma_split_two(x, y0, sep);
        assert(s =~= s0.push(c));
        assert(s.drop_last() =~= s0);
        assert(y0.push(c) =~= y);
        assert(split_on(s, sep) =~~= seq![x, y]);
    }
}

/// Three separator-free strings joined by single separators split into
/// exactly those three segments.
pub proof fn lemma_split_three(x: Seq<char>, y: Seq<char>, z: Seq<char>, sep: char)
    requires
        no_sep(x, sep),
        no_sep(y, sep),
        no_sep(z, sep),
    ensures
        split_on(x + seq![sep] + y + seq![sep] + z, sep) == seq![x, y, z],
    decreases z.len(),
{
    if z.len() == 0 {
        let s = x + seq![sep] + y + seq![sep] + z;
        assert(s =~= (x + seq![sep] + y).push(sep));
        assert(s.drop_last() =~= x + seq![sep] + y);
        lemma_split_two(x, y, sep);
        assert(split_on(s, sep) =~~= seq![x, y, z]);
    } else {
        let z0 = z.drop_last();
        let c = z.last();
        let s0 = x + seq![sep] + y + seq![sep] + z0;
        let s = x + seq![sep] + y + seq![sep] + z;
        lemma_split_three(x, y, z0, sep);
        assert(s =~= s0.push(c));
        assert(s.drop_last() =~= s0);
        assert(z0.push(c) =~= z);
        assert(split_on(s, sep) =~~= seq![x, y, z]);
    }
}

/// Prepending a non-separator character extends the first segment and leaves
/// the rest of the split unchanged.
pub proof fn lemma_split_prepend(c: char, s: Seq<char>, sep: char)
    requires
        c != sep,
    ensures
        split_on(seq![c] + s, sep) == split_on(s, sep).update(
            0,
            seq![c] + split_on(s, sep)[0],
        ),
    decreases s.len(),
{
    lemma_split_on_len(s, sep);
    if s.len() == 0 {
        let s1 = seq![c] + s;
        let emp = Seq::<char>::empty();
        assert(s1 =~= seq![c]);
        assert(s1.drop_last() =~= emp);
        assert(s1.last() == c);
        assert(split_on(emp, sep) == seq![emp]);
        assert(split_on(s1, sep) == split_on(emp, sep).update(0, split_on(emp, sep).last().push(c)));
        assert(split_on(s1, sep) =~~= split_on(s, sep).update(0, seq![c] + split_on(s, sep)[0]));
    } else {
        let s0 = s.drop_last();
        let e = s.last();
        lemma_split_prepend(c, s0, sep);
        lemma_split_on_len(s0, sep);
        let s1 = seq![c] + s;
        assert(s1.drop_last() =~= seq![c] + s0);
        assert(s1.last() == e);
        let p0 = split_on(s0, sep);
        if e == sep {
            assert(split_on(s1, sep) =~~= split_on(s, sep).update(
                0,
                seq![c] + split_on(s, sep)[0],
            ));
        } else {
            if p0.len() == 1 {
                assert((seq![c] + p0[0]).push(e) =~= seq![c] + p0[0].push(e));
                assert(split_on(s1, sep) =~~= split_on(s, sep).update(
                    0,
                    seq![c] + split_on(s, sep)[0],
                ));
            } else {
                assert(split_on(s1, sep) =~~= split_on(s, sep).update(
                    0,
                    seq![c] + split_on(s, sep)[0],
                ));
            }
        }
    }
}

/// True when every character of the string is an ASCII digit.
pub open spec fn all_digits(s: Seq<char>) -> bool {
    forall|i: int| 0 <= i < s.len() ==> is_ascii_digit_char(#[trigger] s[i])
}

/// The numeric value of one ASCII digit.
pub open spec fn digit_val(c: char) -> nat
    recommends
        is_ascii_digit_char(c),
{
    (c as u32 - '0' as u32) as nat
}

/// The value of a string of ASCII digits read in base ten.
pub open spec fn digits_val(s: Seq<char>) -> nat
    recommends
        all_digits(s),
    decreases s.len(),
{
    if s.len() == 0 {
        0
    } else {
        digits_val(s.drop_last()) * 10 + digit_val(s.last())
    }
}

/// Reading more digits never decreases the value: the value of a prefix of a
/// digit string is at most the value of the whole.
pub proof fn lemma_digits_val_prefix_le(s: Seq<char>, i: int)
    requires
        all_digits(s),
        0 <= i <= s.len(),
    ensures
        digits_val(s.subrange(0, i)) <= digits_val(s),
    decreases s.len(),
{
    if i < s.len() {
        assert(s.drop_last().subrange(0, i) =~= s.subrange(0, i));
        lemma_digits_val_prefix_le(s.drop_last(), i);
    } else {
        assert(s.subrange(0, i) =~= s);
    }
}

/// The result of parsing a field as an unsigned 32-bit integer: defined when
/// the field is nonempty, all ASCII digits, and within range, and `None`
/// otherwise.
pub open spec fn spec_parse_u32(s: Seq<char>) -> Option<u32> {
    if s.len() > 0 && all_digits(s) && digits_val(s) <= u32::MAX {
        Some(digits_val(s) as u32)
    } else {
        None
    }
}

/// Parses a field of ASCII digits as an unsigned 32-bit integer, rejecting
/// empty fields, non-digit characters, and out-of-range values.
pub fn parse_u32(seg: &Vec<char>) -> (r: Option<u32>)
    ensures
        r == spec_parse_u32(seg@),
{
    if seg.len() == 0 {
        return None;
    }
    let mut acc: u64 = 0;
    let mut i: usize = 0;
    while i < seg.len()
        invariant
            i <= seg@.len(),
            all_digits(seg@.subrange(0, i as int)),
            acc == digits_val(seg@.subrange(0, i as int)),
            acc <= u32::MAX,
        decreases seg@.len() - i,
    {
        let ghost pre = seg@.subrange(0, i as int);
        assert(seg@.subrange(0, i + 1).drop_last() =~= pre);
        let c = seg[i];
        if !(c >= '0' && c <= '9') {
            return None;
        }
        let d: u64 = (c as u32 - 48) as u64;
        let t: u64 = acc * 10 + d;
        if t > 0xFFFF_FFFF {
            proof {
                if all_digits(seg@) {
                    assert(seg@.subrange(0, i + 1) =~= seg@.subrange(0, i + 1));
                    lemma_digits_val_prefix_le(seg@, i + 1);
                }
            }
            return None;
        }
        acc = t;
        i = i + 1;
    }
    assert(seg@.subrange(0, seg@.len() as int) =~= seg@);
    Some(acc as u32)
}

/// Collects the characters of a string into a vector.
pub fn chars_of(s: &str) -> (r: Vec<char>)
    ensures
        r@ == s@,
{
    let n = s.unicode_len();
    let mut r: Vec<char> = Vec::new();
    let mut i: usize = 0;
    while i < n
        invariant
            n == s@.len(),
            i <= n,
            r@ == s@.subrange(0, i as int),
        decreases n - i,
    {
        r.push(s.get_char(i));
        i = i + 1;
    }
    assert(s@.subrange(0, n as int) =~= s@);
    r
}

} // verus!
