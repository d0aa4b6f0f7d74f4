//! Comma-separated lists in text: whether a list names an item, each item taken without
//! the whitespace around it and compared up to ASCII case.

use vstd::prelude::*;
use vstd::string::StrSliceExecFns;

verus! {

/// The characters with the Unicode property White_Space.
pub open spec fn is_white_space(c: char) -> bool {
    let u = c as u32;
    (9 <= u && u <= 13) || u == 0x20 || u == 0x85 || u == 0xA0 || u == 0x1680 || (0x2000 <= u
        && u <= 0x200A) || u == 0x2028 || u == 0x2029 || u == 0x202F || u == 0x205F || u
        == 0x3000
}

/// The code of a character, with ASCII upper-case letters lowered.
pub open spec fn lower_code(c: char) -> u32 {
    let u = c as u32;
    if 65 <= u && u <= 90 {
        (u + 32) as u32
    } else {
        u
    }
}

/// Equality of two texts up to ASCII case.
pub open spec fn same_text(a: Seq<char>, b: Seq<char>) -> bool {
    a.len() == b.len() && forall|i: int| 0 <= i < a.len() ==> lower_code(#[trigger] a[i])
        == lower_code(b[i])
}

/// The first index at or after `from` that holds a comma, or the length if there is none.
pub open spec fn find_comma(s: Seq<char>, from: int) -> int
    decreases s.len() - from,
{
    if 0 <= from < s.len() {
        if s[from] == ',' {
            from
        } else {
            find_comma(s, from + 1)
        }
    } else {
        s.len() as int
    }
}

/// The first index in `from..to` that holds no whitespace, or `to`.
pub open spec fn skip_white(s: Seq<char>, from: int, to: int) -> int
    decreases to - from,
{
    if 0 <= from < to <= s.len() && is_white_space(s[from]) {
        skip_white(s, from + 1, to)
    } else {
        from
    }
}

/// The end of `s[lo..to]` once trailing whitespace is dropped.
pub open spec fn drop_white(s: Seq<char>, lo: int, to: int) -> int
    decreases to,
{
    if lo < to && 0 < to <= s.len() && is_white_space(s[to - 1]) {
        drop_white(s, lo, to - 1)
    } else {
        to
    }
}

/// `s[start..end]` without the whitespace at its two ends.
pub open spec fn trimmed_item(s: Seq<char>, start: int, end: int) -> Seq<char> {
    let lo = skip_white(s, start, end);
    s.subrange(lo, drop_white(s, lo, end))
}

/// Whether one of the comma-separated items of `s` that start at or after `start` is
/// `item`, once trimmed and up to ASCII case.
pub open spec fn lists_item_from(s: Seq<char>, item: Seq<char>, start: int) -> bool
    decreases s.len() - start,
{
    let end = find_comma(s, start);
    same_text(trimmed_item(s, start, end), item) || (0 <= start <= end < s.len()
        && lists_item_from(s, item, end + 1))
}

/// Whether `item` is one of the comma-separated items of `s`.
pub open spec fn lists_item(s: Seq<char>, item: Seq<char>) -> bool {
    lists_item_from(s, item, 0)
}

/// An item is found whatever the ASCII case in which it is asked for.
pub proof fn lemma_item_case(s: Seq<char>, a: Seq<char>, b: Seq<char>, start: int)
    requires
        same_text(a, b),
    ensures
        lists_item_from(s, a, start) == lists_item_from(s, b, start),
    decreases s.len() - start,
{
    let end = find_comma(s, start);
    let t = trimmed_item(s, start, end);
    assert(same_text(t, a) == same_text(t, b));
    if 0 <= start <= end < s.len() {
        lemma_item_case(s, a, b, end + 1);
    }
}

/// A search for a comma ends at or after its start and within the text.
pub proof fn lemma_find_comma_range(s: Seq<char>, from: int)
    requires
        0 <= from <= s.len(),
    ensures
        from <= find_comma(s, from) <= s.len(),
    decreases s.len() - from,
{
    if from < s.len() && s[from] != ',' {
        lemma_find_comma_range(s, from + 1);
    }
}

/// Trimming stays inside the item.
pub proof fn lemma_trim_range(s: Seq<char>, from: int, to: int)
    requires
        0 <= from <= to <= s.len(),
    ensures
        from <= skip_white(s, from, to) <= to,
        from <= drop_white(s, from, to) <= to,
    decreases to - from,
{
    if from < to {
        if is_white_space(s[from]) {
            lemma_trim_range(s, from + 1, to);
        }
        if is_white_space(s[to - 1]) {
            lemma_trim_range(s, from, to - 1);
        }
    }
}

/// Two texts that agree up to `to` have the same item in `start..to`.
pub proof fn lemma_item_within(a: Seq<char>, s: Seq<char>, start: int, to: int)
    requires
        0 <= start <= to <= a.len() <= s.len(),
        forall|i: int| 0 <= i < to ==> s[i] == a[i],
    ensures
        trimmed_item(s, start, to) == trimmed_item(a, start, to),
{
    lemma_skip_within(a, s, start, to);
    let lo = skip_white(a, start, to);
    lemma_trim_range(a, start, to);
    lemma_drop_within(a, s, lo, to);
    lemma_trim_range(a, lo, to);
    assert(s.subrange(lo, drop_white(a, lo, to)) =~= a.subrange(lo, drop_white(a, lo, to)));
}

/// Two texts that agree up to `to` have the same leading whitespace in `from..to`.
pub proof fn lemma_skip_within(a: Seq<char>, s: Seq<char>, from: int, to: int)
    requires
        0 <= from <= to <= a.len() <= s.len(),
        forall|i: int| 0 <= i < to ==> s[i] == a[i],
    ensures
        skip_white(s, from, to) == skip_white(a, from, to),
    decreases to - from,
{
    if from < to && is_white_space(a[from]) {
        lemma_skip_within(a, s, from + 1, to);
    }
}

/// Two texts that agree up to `to` have the same trailing whitespace in `lo..to`.
pub proof fn lemma_drop_within(a: Seq<char>, s: Seq<char>, lo: int, to: int)
    requires
        0 <= lo <= to <= a.len() <= s.len(),
        forall|i: int| 0 <= i < to ==> s[i] == a[i],
    ensures
        drop_white(s, lo, to) == drop_white(a, lo, to),
    decreases to,
{
    if lo < to && is_white_space(a[to - 1]) {
        lemma_drop_within(a, s, lo, to - 1);
    }
}

/// A search for a comma behind a prefix finds what it finds without the prefix.
pub proof fn lemma_find_comma_shift(p: Seq<char>, b: Seq<char>, from: int)
    requires
        0 <= from <= b.len(),
    ensures
        find_comma(p + b, p.len() + from) == p.len() + find_comma(b, from),
    decreases b.len() - from,
{
    if from < b.len() {
        assert((p + b)[p.len() + from] == b[from]);
        if b[from] != ',' {
            lemma_find_comma_shift(p, b, from + 1);
        }
    }
}

/// Leading whitespace behind a prefix is what it is without the prefix.
pub proof fn lemma_skip_shift(p: Seq<char>, b: Seq<char>, from: int, to: int)
    requires
        0 <= from <= to <= b.len(),
    ensures
        skip_white(p + b, p.len() + from, p.len() + to) == p.len() + skip_white(b, from, to),
    decreases to - from,
{
    if from < to {
        assert((p + b)[p.len() + from] == b[from]);
        if is_white_space(b[from]) {
            lemma_skip_shift(p, b, from + 1, to);
        }
    }
}

/// Trailing whitespace behind a prefix is what it is without the prefix.
pub proof fn lemma_drop_shift(p: Seq<char>, b: Seq<char>, lo: int, to: int)
    requires
        0 <= lo <= to <= b.len(),
    ensures
        drop_white(p + b, p.len() + lo, p.len() + to) == p.len() + drop_white(b, lo, to),
    decreases to,
{
    if lo < to {
        assert((p + b)[p.len() + to - 1] == b[to - 1]);
        if is_white_space(b[to - 1]) {
            lemma_drop_shift(p, b, lo, to - 1);
        }
    }
}

/// The items of a text behind a prefix are the items of the text.
pub proof fn lemma_items_shift(p: Seq<char>, b: Seq<char>, item: Seq<char>, from: int)
    requires
        0 <= from <= b.len(),
    ensures
        lists_item_from(p + b, item, p.len() + from) == lists_item_from(b, item, from),
    decreases b.len() - from,
{
    let k = p.len() as int;
    let end = find_comma(b, from);
    lemma_find_comma_shift(p, b, from);
    lemma_find_comma_range(b, from);
    lemma_skip_shift(p, b, from, end);
    lemma_trim_range(b, from, end);
    let lo = skip_white(b, from, end);
    lemma_drop_shift(p, b, lo, end);
    lemma_trim_range(b, lo, end);
    let hi = drop_white(b, lo, end);
    assert((p + b).subrange(k + lo, k + hi) =~= b.subrange(lo, hi));
    assert(trimmed_item(p + b, k + from, k + end) == trimmed_item(b, from, end));
    if end < b.len() {
        lemma_items_shift(p, b, item, end + 1);
        assert(k + (end + 1) == k + end + 1);
    }
}

/// Two lists joined by a comma name an item exactly where one of the two names it.
pub proof fn lemma_items_of_joined_lists(
    a: Seq<char>,
    b: Seq<char>,
    item: Seq<char>,
    start: int,
)
    requires
        0 <= start <= a.len(),
    ensures
        lists_item_from(a + seq![','] + b, item, start) == (lists_item_from(a, item, start)
            || lists_item(b, item)),
    decreases a.len() - start,
{
    let s = a + seq![','] + b;
    let end = find_comma(a, start);
    lemma_find_comma_range(a, start);
    lemma_find_comma_joined(a, b, start);
    assert forall|i: int| 0 <= i < end implies s[i] == a[i] by {}
    lemma_item_within(a, s, start, end);
    if end < a.len() {
        lemma_items_of_joined_lists(a, b, item, end + 1);
    } else {
        let p = a + seq![','];
        assert(p + b =~= s);
        lemma_items_shift(p, b, item, 0);
    }
}

/// The first comma of a text joined to another by a comma is the first comma of the text,
/// or the joining comma.
pub proof fn lemma_find_comma_joined(a: Seq<char>, b: Seq<char>, from: int)
    requires
        0 <= from <= a.len(),
    ensures
        find_comma(a + seq![','] + b, from) == find_comma(a, from),
    decreases a.len() - from,
{
    let s = a + seq![','] + b;
    if from < a.len() {
        assert(s[from] == a[from]);
        if a[from] != ',' {
            lemma_find_comma_joined(a, b, from + 1);
        }
    } else {
        assert(s[from] == ',');
    }
}

pub fn is_white_space_char(c: char) -> (r: bool)
    ensures
        r == is_white_space(c),
{
    let u = c as u32;
    (9 <= u && u <= 13) || u == 0x20 || u == 0x85 || u == 0xA0 || u == 0x1680 || (0x2000 <= u
        && u <= 0x200A) || u == 0x2028 || u == 0x2029 || u == 0x202F || u == 0x205F || u
        == 0x3000
}

pub fn lower_code_of(c: char) -> (r: u32)
    ensures
        r == lower_code(c),
{
    let u = c as u32;
    if 65 <= u && u <= 90 {
        u + 32
    } else {
        u
    }
}

/// The characters of a text.
pub fn chars_of(s: &str) -> (r: Vec<char>)
    ensures
        r@ == s@,
{
    let n = s.unicode_len();
    let mut out: Vec<char> = Vec::new();
    let mut i: usize = 0;
    while i < n
        invariant
            i <= n,
            n == s@.len(),
            out@ == s@.subrange(0, i as int),
        decreases n - i,
    {
        out.push(s.get_char(i));
        assert(out@ =~= s@.subrange(0, i + 1));
        i += 1;
    }
    assert(out@ =~= s@);
    out
}

/// Whether `s[lo..hi]` is `item` up to ASCII case.
pub fn range_is(s: &Vec<char>, lo: usize, hi: usize, item: &Vec<char>) -> (r: bool)
    requires
        lo <= hi <= s@.len(),
    ensures
        r == same_text(s@.subrange(lo as int, hi as int), item@),
{
    let ghost t = s@.subrange(lo as int, hi as int);
    if hi - lo != item.len() {
        return false;
    }
    let mut i: usize = 0;
    while i < item.len()
        invariant
            i <= item@.len(),
            lo <= hi <= s@.len(),
            hi - lo == item@.len(),
            t == s@.subrange(lo as int, hi as int),
            forall|j: int| 0 <= j < i ==> lower_code(#[trigger] t[j]) == lower_code(item@[j]),
        decreases item@.len() - i,
    {
        assert(t[i as int] == s@[lo + i]);
        if lower_code_of(s[lo + i]) != lower_code_of(item[i]) {
            return false;
        }
        i += 1;
    }
    true
}

/// Whether `item` is one of the comma-separated items of `s`, each item trimmed and
/// compared up to ASCII case.
pub fn text_lists_item(s: &Vec<char>, item: &Vec<char>) -> (r: bool)
    ensures
        r == lists_item(s@, item@),
{
    let n = s.len();
    let mut start: usize = 0;
    loop
        invariant
            start <= n,
            n == s@.len(),
            lists_item(s@, item@) == lists_item_from(s@, item@, start as int),
        decreases n - start,
    {
        let mut end: usize = start;
        while end < n && s[end] != ','
            invariant
                start <= end <= n,
                n == s@.len(),
                find_comma(s@, start as int) == find_comma(s@, end as int),
            decreases n - end,
        {
            end += 1;
        }
        let mut lo: usize = start;
        while lo < end && is_white_space_char(s[lo])
            invariant
                start <= lo <= end <= n,
                n == s@.len(),
                skip_white(s@, start as int, end as int) == skip_white(s@, lo as int, end as int),
            decreases end - lo,
        {
            lo += 1;
        }
        let mut hi: usize = end;
        while lo < hi && is_white_space_char(s[hi - 1])
            invariant
                lo <= hi <= end <= n,
                n == s@.len(),
                drop_white(s@, lo as int, end as int) == drop_white(s@, lo as int, hi as int),
            decreases hi,
        {
            hi -= 1;
        }
        if range_is(s, lo, hi, item) {
            return true;
        }
        if end >= n {
            return false;
        }
        start = end + 1;
    }
}

} // verus!
