//! Index arithmetic shared by the list and grid views: mapping between data
//! indices and the (re-used) view widgets which display them.
//!
//! A view over `len` widgets shows the data indices `first..first + len`;
//! data index `d` is shown by widget `d % len`.

use vstd::arithmetic::div_mod::*;
use vstd::prelude::*;

verus! {

/// The data index shown by widget `index` when the view starts at `first`
/// and uses `len` widgets: the unique index in `first..first + len` whose
/// remainder modulo `len` is `index`.
pub open spec fn spec_child_to_data(first: int, len: int, index: int) -> int {
    let d = (first / len) * len + index;
    if d < first {
        d + len
    } else {
        d
    }
}

/// Properties of [`spec_child_to_data`]: the result lies in the view window
/// and is shown by widget `index`.
pub proof fn lemma_child_to_data(first: int, len: int, index: int)
    requires
        0 <= first,
        0 < len,
        0 <= index < len,
    ensures
        first <= spec_child_to_data(first, len, index) < first + len,
        spec_child_to_data(first, len, index) % len == index,
        spec_child_to_data(first, len, index) >= 0,
{
    let q = first / len;
    lemma_fundamental_div_mod(first, len);
    lemma_mod_bound(first, len);
    let d = q * len + index;
    if d < first {
        assert(d + len == (q + 1) * len + index) by (nonlinear_arith)
            requires
                d == q * len + index,
        ;
        lemma_fundamental_div_mod_converse(d + len, len, q + 1, index);
    } else {
        lemma_fundamental_div_mod_converse(d, len, q, index);
    }
}

/// Two indices in one window of `len` consecutive indices with the same
/// remainder modulo `len` are equal.
pub proof fn lemma_window_unique(first: int, len: int, a: int, b: int)
    requires
        0 < len,
        first <= a < first + len,
        first <= b < first + len,
        a % len == b % len,
    ensures
        a == b,
{
    lemma_fundamental_div_mod(a, len);
    lemma_fundamental_div_mod(b, len);
    let qa = a / len;
    let qb = b / len;
    let r = a % len;
    assert(a - b == len * (qa - qb)) by (nonlinear_arith)
        requires
            a == len * qa + r,
            b == len * qb + r,
    ;
    if qa > qb {
        assert(len * (qa - qb) >= len) by (nonlinear_arith)
            requires
                qa - qb >= 1,
                len > 0,
        ;
    } else if qa < qb {
        assert(len * (qb - qa) >= len) by (nonlinear_arith)
            requires
                qb - qa >= 1,
                len > 0,
        ;
        assert(len * (qb - qa) == -(len * (qa - qb))) by (nonlinear_arith);
    } else {
        assert(len * (qa - qb) == 0) by (nonlinear_arith)
            requires
                qa == qb,
        ;
    }
}

/// Map a widget index to the data index it shows
pub fn child_to_data(first: usize, len: usize, index: usize) -> (r: usize)
    requires
        0 < len,
        index < len,
        first + len <= usize::MAX,
    ensures
        r == spec_child_to_data(first as int, len as int, index as int),
        first <= r < first + len,
        r % len == index,
{
    proof {
        lemma_child_to_data(first as int, len as int, index as int);
        lemma_fundamental_div_mod(first as int, len as int);
        lemma_mod_bound(first as int, len as int);
        assert((first / len) * len <= first) by (nonlinear_arith)
            requires
                first as int == len * (first / len) + first % len,
                first % len >= 0,
        ;
    }
    let mut data = (first / len) * len + index;
    if data < first {
        data = data + len;
    }
    data
}

/// Map a data index to the widget showing it
pub fn data_to_child(data: usize, len: usize) -> (r: usize)
    requires
        0 < len,
    ensures
        r == data % len,
        r < len,
{
    data % len
}

/// A widget shows the data index mapped back to it, and every data index in
/// the view window is shown by the widget it maps to.
pub proof fn law_child_data_roundtrip(first: int, len: int, index: int, data: int)
    requires
        0 <= first,
        0 < len,
        0 <= index < len,
        first <= data < first + len,
    ensures
        spec_child_to_data(first, len, index) % len == index,
        spec_child_to_data(first, len, data % len) == data,
{
    lemma_child_to_data(first, len, index);
    lemma_mod_bound(data, len);
    lemma_child_to_data(first, len, data % len);
    let d2 = spec_child_to_data(first, len, data % len);
    assert(d2 % len == data % len);
    lemma_mod_twice(data, len);
    lemma_window_unique(first, len, d2, data);
}

} // verus!
