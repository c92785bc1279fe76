//! Cartesian products of finite lists, which fix the order in which the
//! library walks columns, cells and keys.

use itertools::Itertools;
use vstd::prelude::*;

verus! {

/// The pairs of one item of `a` and one item of `b`, ordered by the item of
/// `a` first: all pairs with `a[0]` in the order of `b`, then all pairs with
/// `a[1]`, and so on.
pub open spec fn product_seq<A, B>(a: Seq<A>, b: Seq<B>) -> Seq<(A, B)> {
    Seq::new(a.len() * b.len(), |k: int| (a[k / (b.len() as int)], b[k % (b.len() as int)]))
}

/// The position in `product_seq(a, b)` of the pair made of `a[i]` and `b[j]`.
pub proof fn lemma_product_index<A, B>(a: Seq<A>, b: Seq<B>, i: int, j: int)
    requires
        0 <= i < a.len(),
        0 <= j < b.len(),
    ensures
        0 <= i * b.len() + j < product_seq(a, b).len(),
        product_seq(a, b)[i * b.len() + j] == (a[i], b[j]),
{
    let n = b.len() as int;
    let k = i * n + j;
    assert(0 <= k < a.len() * n) by (nonlinear_arith)
        requires
            0 <= i < a.len(),
            0 <= j < n,
            k == i * n + j,
    ;
    assert(k / n == i && k % n == j) by (nonlinear_arith)
        requires
            0 <= j < n,
            k == i * n + j,
    ;
}

/// Every position of `product_seq(a, b)` holds a pair of an item of `a` and
/// an item of `b`, at the indices that the position splits into.
pub proof fn lemma_product_split<A, B>(a: Seq<A>, b: Seq<B>, k: int)
    requires
        0 <= k < product_seq(a, b).len(),
    ensures
        b.len() > 0,
        0 <= (k / (b.len() as int)) < a.len(),
        0 <= (k % (b.len() as int)) < b.len(),
        k == (k / (b.len() as int)) * b.len() + (k % (b.len() as int)),
{
    let n = b.len() as int;
    let m = a.len() as int;
    assert(n > 0) by (nonlinear_arith)
        requires
            0 <= k < m * n,
            0 <= n,
            0 <= m,
    ;
    assert(0 <= k / n < m && 0 <= k % n < n && k == (k / n) * n + k % n) by (nonlinear_arith)
        requires
            0 <= k < m * n,
            n > 0,
    ;
}

/// Calls `Itertools::cartesian_product` of itertools on the items of `a` and
/// of `b` and collects what it yields. The contract claims what the
/// adaptor's documentation shows: every pair of an item of `a` with an item
/// of `b`, the item of `a` changing slowest. The items are copied, which for
/// the integers and tuples of integers used here keeps their value. The
/// number of pairs is bounded so that collecting them cannot run out of
/// room.
#[verifier::external_body]
pub(crate) fn cartesian_product<A: Copy, B: Copy>(a: &Vec<A>, b: &Vec<B>) -> (r: Vec<(A, B)>)
    requires
        a@.len() * b@.len() <= 0x10_0000,
    ensures
        r@ == product_seq(a@, b@),
{
    a.iter().copied().cartesian_product(b.iter().copied()).collect()
}

/// The integers from `lo` up to, but not including, `hi`, in rising order.
pub open spec fn range_seq(lo: int, hi: int) -> Seq<int> {
    Seq::new(if hi >= lo { (hi - lo) as nat } else { 0 }, |k: int| lo + k)
}

/// The list of integers `lo, lo + 1, .., hi - 1`.
pub fn range_i32(lo: i32, hi: i32) -> (r: Vec<i32>)
    ensures
        r@.len() == range_seq(lo as int, hi as int).len(),
        forall|k: int| 0 <= k < r@.len() ==> r@[k] as int == #[trigger] range_seq(lo as int, hi as int)[k],
{
    let mut r: Vec<i32> = Vec::new();
    let mut v: i32 = lo;
    while v < hi
        invariant
            lo <= v <= hi || (hi < lo && v == lo),
            r@.len() == v - lo,
            forall|k: int| 0 <= k < r@.len() ==> r@[k] as int == lo + k,
        decreases hi - v,
    {
        r.push(v);
        v = v + 1;
    }
    r
}

} // verus!
