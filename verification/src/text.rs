//! Byte-level helpers shared by the parsers: searching, trimming and
//! case-insensitive comparison of ASCII text.

use vstd::prelude::*;
use vstd::slice::slice_subrange;

verus! {

/// ASCII whitespace: space, tab, line feed, vertical tab, form feed, carriage return.
pub open spec fn is_space(b: u8) -> bool {
    b == 32 || (9 <= b && b <= 13)
}

/// The ASCII lower-case form of a byte.
pub open spec fn lower(b: u8) -> u8 {
    if 65 <= b && b <= 90 {
        (b + 32) as u8
    } else {
        b
    }
}

/// A byte string with every ASCII upper-case letter lowered.
pub open spec fn lowered(s: Seq<u8>) -> Seq<u8> {
    Seq::new(s.len(), |i: int| lower(s[i]))
}

/// Equality of two byte strings up to ASCII case.
pub open spec fn same_ignoring_case(a: Seq<u8>, b: Seq<u8>) -> bool {
    lowered(a) =~= lowered(b)
}

/// The first index at or after `from` that holds `b`, or the length if there is none.
pub open spec fn find_byte(s: Seq<u8>, b: u8, from: int) -> int
    decreases s.len() - from,
{
    if 0 <= from < s.len() {
        if s[from] == b {
            from
        } else {
            find_byte(s, b, from + 1)
        }
    } else {
        s.len() as int
    }
}

/// The first index at or after `from` that holds no whitespace.
pub open spec fn skip_spaces(s: Seq<u8>, from: int) -> int
    decreases s.len() - from,
{
    if 0 <= from < s.len() && is_space(s[from]) {
        skip_spaces(s, from + 1)
    } else {
        from
    }
}

/// The end of `s[lo..to]` once trailing whitespace is dropped.
pub open spec fn drop_spaces(s: Seq<u8>, lo: int, to: int) -> int
    decreases to,
{
    if lo < to && 0 < to <= s.len() && is_space(s[to - 1]) {
        drop_spaces(s, lo, to - 1)
    } else {
        to
    }
}

/// `s` without leading and trailing whitespace.
pub open spec fn trimmed(s: Seq<u8>) -> Seq<u8> {
    let lo = skip_spaces(s, 0);
    let hi = drop_spaces(s, lo, s.len() as int);
    s.subrange(lo, hi)
}

/// Bytes appended to `s` do not move a byte that was found in `s`.
pub proof fn lemma_find_byte_stable(s: Seq<u8>, more: Seq<u8>, b: u8, from: int)
    requires
        0 <= from,
        find_byte(s, b, from) < s.len(),
    ensures
        find_byte(s + more, b, from) == find_byte(s, b, from),
    decreases s.len() - from,
{
    if from < s.len() {
        assert((s + more)[from] == s[from]);
        if s[from] != b {
            lemma_find_byte_stable(s, more, b, from + 1);
        }
    }
}

pub fn is_space_byte(b: u8) -> (r: bool)
    ensures
        r == is_space(b),
{
    b == 32 || (9 <= b && b <= 13)
}

pub fn lower_byte(b: u8) -> (r: u8)
    ensures
        r == lower(b),
{
    if 65 <= b && b <= 90 {
        b + 32
    } else {
        b
    }
}

/// Finds the first occurrence of `b` in `s` at or after `from`.
pub fn index_of(s: &[u8], b: u8, from: usize) -> (r: usize)
    requires
        from <= s@.len(),
    ensures
        r == find_byte(s@, b, from as int),
        from <= r <= s@.len(),
        r < s@.len() ==> s@[r as int] == b,
{
    let mut i: usize = from;
    while i < s.len() && s[i] != b
        invariant
            from <= i <= s@.len(),
            find_byte(s@, b, from as int) == find_byte(s@, b, i as int),
        decreases s@.len() - i,
    {
        i += 1;
    }
    i
}

/// Strips leading and trailing ASCII whitespace.
pub fn trim<'a>(s: &'a [u8]) -> (r: &'a [u8])
    ensures
        r@ == trimmed(s@),
{
    let mut lo: usize = 0;
    while lo < s.len() && is_space_byte(s[lo])
        invariant
            lo <= s@.len(),
            skip_spaces(s@, 0) == skip_spaces(s@, lo as int),
        decreases s@.len() - lo,
    {
        lo += 1;
    }
    let mut hi: usize = s.len();
    while lo < hi && is_space_byte(s[hi - 1])
        invariant
            lo <= hi <= s@.len(),
            drop_spaces(s@, lo as int, s@.len() as int) == drop_spaces(s@, lo as int, hi as int),
        decreases hi,
    {
        hi -= 1;
    }
    slice_subrange(s, lo, hi)
}

/// Copies `s` with ASCII letters lowered.
pub fn lower_bytes(s: &[u8]) -> (r: Vec<u8>)
    ensures
        r@ == lowered(s@),
{
    let mut out: Vec<u8> = Vec::new();
    let mut i: usize = 0;
    while i < s.len()
        invariant
            i <= s@.len(),
            out@.len() == i,
            forall|j: int| 0 <= j < i ==> out@[j] == lower(s@[j]),
        decreases s@.len() - i,
    {
        out.push(lower_byte(s[i]));
        i += 1;
    }
    assert(out@ =~= lowered(s@));
    out
}

/// Compares two byte strings up to ASCII case.
pub fn eq_ignore_case(a: &[u8], b: &[u8]) -> (r: bool)
    ensures
        r == same_ignoring_case(a@, b@),
{
    if a.len() != b.len() {
        assert(lowered(a@).len() != lowered(b@).len());
        return false;
    }
    let mut i: usize = 0;
    while i < a.len()
        invariant
            i <= a@.len(),
            a@.len() == b@.len(),
            forall|j: int| 0 <= j < i ==> lower(a@[j]) == lower(b@[j]),
        decreases a@.len() - i,
    {
        if lower_byte(a[i]) != lower_byte(b[i]) {
            assert(lowered(a@)[i as int] != lowered(b@)[i as int]);
            return false;
        }
        i += 1;
    }
    true
}

/// Copies a slice into a vector.
pub fn to_vec(s: &[u8]) -> (r: Vec<u8>)
    ensures
        r@ == s@,
{
    let mut out: Vec<u8> = Vec::new();
    let mut i: usize = 0;
    while i < s.len()
        invariant
            i <= s@.len(),
            out@ == s@.subrange(0, i as int),
        decreases s@.len() - i,
    {
        out.push(s[i]);
        assert(out@ =~= s@.subrange(0, i + 1));
        i += 1;
    }
    assert(out@ =~= s@);
    out
}

} // verus!
