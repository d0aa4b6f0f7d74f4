//! Lookups in a parsed header list, and comma-separated lists inside header values.

use vstd::prelude::*;
use vstd::slice::slice_subrange;
use crate::parse::{header_views, Header};
use crate::text::{eq_ignore_case, find_byte, index_of, same_ignoring_case, to_vec, trim, trimmed};

verus! {

/// The values of the headers named `name` (up to ASCII case), in the order of the list.
pub open spec fn values_of(hs: Seq<(Seq<u8>, Seq<u8>)>, name: Seq<u8>) -> Seq<Seq<u8>>
    decreases hs.len(),
{
    if hs.len() == 0 {
        Seq::empty()
    } else if same_ignoring_case(hs.last().0, name) {
        values_of(hs.drop_last(), name).push(hs.last().1)
    } else {
        values_of(hs.drop_last(), name)
    }
}

/// Whether one of the comma-separated items of `value` that start at or after `start`
/// equals `item`, once trimmed and up to ASCII case.
pub open spec fn has_item_from(value: Seq<u8>, item: Seq<u8>, start: int) -> bool
    decreases value.len() - start,
{
    let end = find_byte(value, 44, start);
    same_ignoring_case(trimmed(value.subrange(start, end)), item) || (0 <= start <= end
        < value.len() && has_item_from(value, item, end + 1))
}

/// Whether `item` is one of the comma-separated items of `value`.
pub open spec fn has_item(value: Seq<u8>, item: Seq<u8>) -> bool {
    has_item_from(value, item, 0)
}

/// Whether `item` is listed in one of `values`.
pub open spec fn any_has_item(values: Seq<Seq<u8>>, item: Seq<u8>) -> bool {
    exists|i: int| 0 <= i < values.len() && has_item(#[trigger] values[i], item)
}

/// The views of a list of byte strings.
pub open spec fn byte_views(vs: Seq<Vec<u8>>) -> Seq<Seq<u8>> {
    vs.map_values(|v: Vec<u8>| v@)
}

/// Collects the values of the headers named `name`, in order.
pub fn header_values(headers: &Vec<Header>, name: &[u8]) -> (r: Vec<Vec<u8>>)
    ensures
        byte_views(r@) == values_of(header_views(headers@), name@),
{
    let mut out: Vec<Vec<u8>> = Vec::new();
    let mut i: usize = 0;
    assert(header_views(headers@).subrange(0, 0) =~= Seq::empty());
    assert(byte_views(out@) =~= Seq::empty());
    while i < headers.len()
        invariant
            i <= headers@.len(),
            byte_views(out@) == values_of(header_views(headers@).subrange(0, i as int), name@),
        decreases headers@.len() - i,
    {
        let ghost hv = header_views(headers@);
        assert(hv.subrange(0, i + 1).drop_last() =~= hv.subrange(0, i as int));
        assert(hv.subrange(0, i + 1).last() == headers@[i as int]@);
        if eq_ignore_case(headers[i].name.as_slice(), name) {
            let ghost before = byte_views(out@);
            let v = to_vec(headers[i].value.as_slice());
            out.push(v);
            assert(byte_views(out@) =~= before.push(headers@[i as int].value@));
        }
        i += 1;
    }
    assert(header_views(headers@).subrange(0, i as int) =~= header_views(headers@));
    out
}

/// Whether `item` is one of the comma-separated items of `value`, each item trimmed
/// and compared up to ASCII case.
pub fn value_has_item(value: &[u8], item: &[u8]) -> (r: bool)
    ensures
        r == has_item(value@, item@),
{
    let mut start: usize = 0;
    loop
        invariant
            start <= value@.len(),
            has_item(value@, item@) == has_item_from(value@, item@, start as int),
        decreases value@.len() - start,
    {
        let end = index_of(value, 44, start);
        if eq_ignore_case(trim(slice_subrange(value, start, end)), item) {
            return true;
        }
        if end >= value.len() {
            return false;
        }
        start = end + 1;
    }
}

/// Whether `item` is listed in one of `values`.
pub fn values_have_item(values: &Vec<Vec<u8>>, item: &[u8]) -> (r: bool)
    ensures
        r == any_has_item(byte_views(values@), item@),
{
    let mut i: usize = 0;
    while i < values.len()
        invariant
            i <= values@.len(),
            forall|j: int| 0 <= j < i ==> !has_item(#[trigger] byte_views(values@)[j], item@),
        decreases values@.len() - i,
    {
        assert(byte_views(values@)[i as int] == values@[i as int]@);
        if value_has_item(values[i].as_slice(), item) {
            return true;
        }
        i += 1;
    }
    false
}

} // verus!
