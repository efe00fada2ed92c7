//! Fixed-layout integer reads and small byte-string helpers.

use byteorder::{ByteOrder, LittleEndian};
use vstd::prelude::*;

verus! {

/// The unsigned 32-bit value stored little-endian at `p..p + 4` of `b`.
pub open spec fn le_u32(b: Seq<u8>, p: int) -> int {
    b[p] as int + 256 * b[p + 1] as int + 65536 * b[p + 2] as int + 16777216 * b[p + 3] as int
}

/// Relies on byteorder's `LittleEndian::read_u32`: the first four bytes of
/// its argument, least significant first (it panics on fewer than four).
#[verifier::external_body]
pub(crate) fn read_u32_le(b: &[u8], pos: usize) -> (r: u32)
    requires
        pos + 4 <= b@.len(),
    ensures
        r as int == le_u32(b@, pos as int),
{
    LittleEndian::read_u32(&b[pos..pos + 4])
}

/// Relies on byteorder's `LittleEndian::read_u32_into`: the `k`-th value is
/// read from bytes `4k..4k + 4` of the source (it panics unless the source
/// holds exactly four bytes per value).
#[verifier::external_body]
pub(crate) fn read_u32s_le(b: &[u8], pos: usize, count: usize) -> (r: Vec<u32>)
    requires
        pos + 4 * count <= b@.len(),
    ensures
        r@.len() == count,
        forall|k: int| 0 <= k < count ==> r@[k] as int == le_u32(b@, pos + 4 * k),
{
    let mut r = vec![0u32; count];
    LittleEndian::read_u32_into(&b[pos..pos + 4 * count], &mut r);
    r
}


/// The index of the first `c` in `s` at or after `from`, or the length of
/// `s` if there is none.
pub open spec fn next_byte(s: Seq<u8>, from: int, c: u8) -> int
    decreases s.len() - from,
{
    if from >= s.len() {
        s.len() as int
    } else if s[from] == c {
        from
    } else {
        next_byte(s, from + 1, c)
    }
}

pub proof fn lemma_next_byte_bounds(s: Seq<u8>, from: int, c: u8)
    requires
        0 <= from <= s.len(),
    ensures
        from <= next_byte(s, from, c) <= s.len(),
        next_byte(s, from, c) < s.len() ==> s[next_byte(s, from, c)] == c,
    decreases s.len() - from,
{
    if from < s.len() && s[from] != c {
        lemma_next_byte_bounds(s, from + 1, c);
    }
}

pub fn find_byte(s: &[u8], from: usize, c: u8) -> (r: usize)
    requires
        from <= s@.len(),
    ensures
        r == next_byte(s@, from as int, c),
        from <= r <= s@.len(),
{
    proof {
        lemma_next_byte_bounds(s@, from as int, c);
    }
    let mut i = from;
    while i < s.len() && s[i] != c
        invariant
            from <= i <= s@.len(),
            next_byte(s@, from as int, c) == next_byte(s@, i as int, c),
        decreases s@.len() - i,
    {
        i = i + 1;
    }
    i
}

pub fn copy_range(s: &[u8], from: usize, to: usize) -> (r: Vec<u8>)
    requires
        from <= to <= s@.len(),
    ensures
        r@ == s@.subrange(from as int, to as int),
{
    let mut r: Vec<u8> = Vec::new();
    let mut i = from;
    while i < to
        invariant
            from <= i <= to <= s@.len(),
            r@ == s@.subrange(from as int, i as int),
        decreases to - i,
    {
        r.push(s[i]);
        i = i + 1;
    }
    r
}

/// A space or a tab.
pub open spec fn is_blank(c: u8) -> bool {
    c == 0x20 || c == 0x09
}

/// ASCII whitespace: space, tab, line feed, vertical tab, form feed and
/// carriage return.
pub open spec fn is_space(c: u8) -> bool {
    c == 0x20 || (0x09 <= c && c <= 0x0d)
}

/// The first index at or after `from` that does not hold a blank.
pub open spec fn skip_blanks(s: Seq<u8>, from: int) -> int
    decreases s.len() - from,
{
    if from >= s.len() || !is_blank(s[from]) {
        from
    } else {
        skip_blanks(s, from + 1)
    }
}

pub fn skip_blanks_from(s: &[u8], from: usize) -> (r: usize)
    requires
        from <= s@.len(),
    ensures
        r == skip_blanks(s@, from as int),
        from <= r <= s@.len(),
{
    let mut i = from;
    while i < s.len() && (s[i] == 0x20 || s[i] == 0x09)
        invariant
            from <= i <= s@.len(),
            skip_blanks(s@, from as int) == skip_blanks(s@, i as int),
        decreases s@.len() - i,
    {
        i = i + 1;
    }
    i
}

/// `s` without its leading and trailing ASCII whitespace.
pub open spec fn trim_spaces(s: Seq<u8>) -> Seq<u8>
    decreases s.len(),
{
    if s.len() > 0 && is_space(s[0]) {
        trim_spaces(s.drop_first())
    } else if s.len() > 0 && is_space(s.last()) {
        trim_spaces(s.drop_last())
    } else {
        s
    }
}

pub open spec fn is_digit(c: u8) -> bool {
    0x30 <= c && c <= 0x39
}

/// The value of a string of decimal digits.
pub open spec fn digits_value(s: Seq<u8>) -> int
    decreases s.len(),
{
    if s.len() == 0 {
        0
    } else {
        digits_value(s.drop_last()) * 10 + (s.last() - 0x30)
    }
}

/// The number that a non-empty string of decimal digits spells, if it fits
/// 32 bits.
pub open spec fn digits_u32(d: Seq<u8>) -> Option<u32> {
    if d.len() > 0 && (forall|i: int| 0 <= i < d.len() ==> is_digit(#[trigger] d[i])) && digits_value(d)
        <= u32::MAX {
        Some(digits_value(d) as u32)
    } else {
        None
    }
}

/// The unsigned 32-bit number that `s` spells in decimal: an optional `+`
/// and at least one digit, with surrounding ASCII whitespace ignored.
pub open spec fn decimal_u32(s: Seq<u8>) -> Option<u32> {
    let t = trim_spaces(s);
    digits_u32(
        if t.len() > 0 && t[0] == 0x2b {
            t.drop_first()
        } else {
            t
        },
    )
}

proof fn lemma_digits_value_grows(s: Seq<u8>, n: int)
    requires
        0 <= n <= s.len(),
        forall|i: int| 0 <= i < s.len() ==> is_digit(#[trigger] s[i]),
    ensures
        digits_value(s.take(n)) <= digits_value(s),
    decreases s.len() - n,
{
    if n < s.len() {
        lemma_digits_value_grows(s, n + 1);
        assert(s.take(n + 1).drop_last() =~= s.take(n));
        assert(digits_value(s.take(n)) >= 0) by {
            lemma_digits_value_nonneg(s.take(n));
        }
    } else {
        assert(s.take(n) =~= s);
    }
}

proof fn lemma_digits_value_nonneg(s: Seq<u8>)
    requires
        forall|i: int| 0 <= i < s.len() ==> is_digit(#[trigger] s[i]),
    ensures
        digits_value(s) >= 0,
    decreases s.len(),
{
    if s.len() > 0 {
        let init = s.drop_last();
        assert forall|i: int| 0 <= i < init.len() implies is_digit(#[trigger] init[i]) by {
            assert(init[i] == s[i]);
        }
        lemma_digits_value_nonneg(init);
        assert(is_digit(s[s.len() - 1]));
    }
}

/// Parses the decimal number that `s` holds, as [`decimal_u32`] describes.
pub fn parse_u32(s: &[u8]) -> (r: Option<u32>)
    ensures
        r == decimal_u32(s@),
{
    let mut start: usize = 0;
    let mut end: usize = s.len();
    assert(s@.subrange(0, s@.len() as int) =~= s@);
    while start < end && (s[start] == 0x20 || (0x09 <= s[start] && s[start] <= 0x0d))
        invariant
            start <= end <= s@.len(),
            trim_spaces(s@) == trim_spaces(s@.subrange(start as int, end as int)),
        decreases end - start,
    {
        assert(s@.subrange(start as int, end as int).drop_first() =~= s@.subrange(start + 1, end as int));
        start = start + 1;
    }
    while start < end && (s[end - 1] == 0x20 || (0x09 <= s[end - 1] && s[end - 1] <= 0x0d))
        invariant
            start <= end <= s@.len(),
            trim_spaces(s@) == trim_spaces(s@.subrange(start as int, end as int)),
            start < end ==> !is_space(s@[start as int]),
        decreases end - start,
    {
        assert(s@.subrange(start as int, end as int).drop_last() =~= s@.subrange(start as int, end - 1));
        end = end - 1;
    }
    let ghost t = s@.subrange(start as int, end as int);
    assert(trim_spaces(t) == t);
    assert(trim_spaces(s@) == t);
    if start < end && s[start] == 0x2b {
        start = start + 1;
    }
    let ghost d = s@.subrange(start as int, end as int);
    assert(d =~= (if t.len() > 0 && t[0] == 0x2b { t.drop_first() } else { t }));
    if start == end {
        return None;
    }
    let mut value: u64 = 0;
    let mut i = start;
    while i < end
        invariant
            start <= i <= end <= s@.len(),
            d == s@.subrange(start as int, end as int),
            decimal_u32(s@) == digits_u32(d),
            forall|k: int| start <= k < i ==> is_digit(#[trigger] s@[k]),
            value == digits_value(s@.subrange(start as int, i as int)),
            value <= u32::MAX,
        decreases end - i,
    {
        if !(0x30 <= s[i] && s[i] <= 0x39) {
            assert(d[i - start] == s@[i as int]);
            assert(!is_digit(d[i - start]));
            return None;
        }
        assert(s@.subrange(start as int, i + 1).drop_last() =~= s@.subrange(start as int, i as int));
        assert(s@.subrange(start as int, i + 1).last() == s@[i as int]);
        let next: u64 = value * 10 + (s[i] - 0x30) as u64;
        if next > u32::MAX as u64 {
            proof {
                assert forall|k: int| 0 <= k < i + 1 - start implies is_digit(#[trigger] s@.subrange(start as int, i + 1)[k]) by {
                    assert(s@.subrange(start as int, i + 1)[k] == s@[start + k]);
                }
                if forall|k: int| 0 <= k < d.len() ==> is_digit(#[trigger] d[k]) {
                    lemma_digits_value_grows(d, i + 1 - start);
                    assert(d.take(i + 1 - start) =~= s@.subrange(start as int, i + 1));
                }
            }
            return None;
        }
        value = next;
        i = i + 1;
    }
    proof {
        assert forall|k: int| 0 <= k < d.len() implies is_digit(#[trigger] d[k]) by {
            assert(d[k] == s@[start + k]);
        }
    }
    Some(value as u32)
}


pub fn bytes_eq(a: &[u8], b: &[u8]) -> (r: bool)
    ensures
        r == (a@ == b@),
{
    if a.len() != b.len() {
        return false;
    }
    let mut i: usize = 0;
    while i < a.len()
        invariant
            a@.len() == b@.len(),
            i <= a@.len(),
            forall|k: int| 0 <= k < i ==> a@[k] == b@[k],
        decreases a@.len() - i,
    {
        if a[i] != b[i] {
            return false;
        }
        i = i + 1;
    }
    assert(a@ =~= b@);
    true
}

} // verus!
