//! Stable sorting by a ranking of places.

use vstd::prelude::*;

verus! {

/// A ranking of the places `0 .. count`: which place's item comes no later
/// than which. It is total and transitive, as the two lemmas show.
pub trait Ranking {
    /// How many places there are.
    spec fn count(&self) -> nat;

    /// Whether the item at place `i` comes no later than the item at `j`.
    spec fn before(&self, i: int, j: int) -> bool;

    /// Of two items, one comes no later than the other.
    proof fn lemma_total(&self, i: int, j: int)
        requires
            0 <= i < self.count(),
            0 <= j < self.count(),
        ensures
            self.before(i, j) || self.before(j, i),
    ;

    /// What comes no later than an item comes no later than anything that
    /// the item comes no later than.
    proof fn lemma_transitive(&self, i: int, j: int, k: int)
        requires
            0 <= i < self.count(),
            0 <= j < self.count(),
            0 <= k < self.count(),
            self.before(i, j),
            self.before(j, k),
        ensures
            self.before(i, k),
    ;

    /// How many places there are.
    fn len(&self) -> (n: usize)
        ensures
            n == self.count(),
    ;

    /// Whether the item at place `i` comes no later than the item at `j`.
    fn is_before(&self, i: usize, j: usize) -> (b: bool)
        requires
            i < self.count(),
            j < self.count(),
        ensures
            b == self.before(i as int, j as int),
    ;
}

/// `order` names each of the first `n` places once.
pub open spec fn is_arrangement(order: Seq<usize>, n: nat) -> bool {
    &&& order.len() == n
    &&& forall|a: int| 0 <= a < order.len() ==> #[trigger] order[a] < n
    &&& forall|a: int, b: int|
        0 <= a < b < order.len() ==> #[trigger] order[a] != #[trigger] order[b]
}

/// `order` lists the places of `r` in the order of their items: each place
/// once, no item before one that ranks before it, and items of equal rank
/// in the order of their places.
pub open spec fn is_stable_order<R: Ranking>(r: &R, order: Seq<usize>) -> bool {
    &&& is_arrangement(order, r.count())
    &&& forall|a: int, b: int|
        0 <= a < b < order.len() ==> r.before(#[trigger] order[a] as int, #[trigger] order[b] as int)
    &&& forall|a: int, b: int|
        0 <= a < b < order.len() && r.before(#[trigger] order[b] as int, #[trigger] order[a] as int)
            ==> order[a] < order[b]
}

/// The places of `r` in the order of their items. The sort is stable.
pub fn sorted_order<R: Ranking>(r: &R) -> (order: Vec<usize>)
    ensures
        is_stable_order(r, order@),
{
    let n = r.len();
    let mut order: Vec<usize> = Vec::new();
    let mut i: usize = 0;
    while i < n
        invariant
            i <= n,
            n == r.count(),
            order@.len() == i,
            forall|a: int| 0 <= a < i ==> #[trigger] order@[a] < i,
            forall|a: int, b: int| 0 <= a < b < i ==> #[trigger] order@[a] != #[trigger] order@[b],
            forall|a: int, b: int|
                0 <= a < b < i ==> r.before(#[trigger] order@[a] as int, #[trigger] order@[b] as int),
            forall|a: int, b: int|
                0 <= a < b < i && r.before(#[trigger] order@[b] as int, #[trigger] order@[a] as int)
                    ==> order@[a] < order@[b],
        decreases n - i,
    {
        let mut j: usize = i;
        while j > 0 && !r.is_before(order[j - 1], i)
            invariant
                j <= i < n,
                n == r.count(),
                order@.len() == i,
                forall|a: int| 0 <= a < i ==> #[trigger] order@[a] < i,
                forall|k: int| j <= k < i ==> !r.before(#[trigger] order@[k] as int, i as int),
            decreases j,
        {
            j = j - 1;
        }
        let ghost held = order@;
        proof {
            assert forall|a: int| 0 <= a < j implies r.before(
                #[trigger] held[a] as int,
                i as int,
            ) by {
                if a < j - 1 {
                    r.lemma_transitive(held[a] as int, held[j - 1] as int, i as int);
                }
            }
            assert forall|k: int| j <= k < i implies r.before(i as int, #[trigger] held[k] as int) by {
                r.lemma_total(i as int, held[k] as int);
            }
        }
        order.insert(j, i);
        proof {
            let now = order@;
            assert(now == held.insert(j as int, i));
            assert forall|a: int| 0 <= a < i + 1 implies #[trigger] now[a] < i + 1 by {
                if a < j {
                    assert(now[a] == held[a]);
                } else if a > j {
                    assert(now[a] == held[a - 1]);
                }
            }
            assert forall|a: int, b: int| 0 <= a < b < i + 1 implies #[trigger] now[a]
                != #[trigger] now[b] && r.before(now[a] as int, now[b] as int) && (r.before(
                now[b] as int,
                now[a] as int,
            ) ==> now[a] < now[b]) by {
                let a0 = if a < j { a } else { a - 1 };
                let b0 = if b < j { b } else { b - 1 };
                if a == j {
                    assert(now[b] == held[b - 1]);
                    assert(held[b - 1] < i);
                } else if b == j {
                    assert(now[a] == held[a]);
                    assert(held[a] < i);
                } else {
                    assert(now[a] == held[a0]);
                    assert(now[b] == held[b0]);
                    assert(held[a0] != held[b0]);
                }
            }
        }
        i = i + 1;
    }
    order
}

/// The first place at which `x` and `y` differ, or at which the shorter one
/// ends.
pub open spec fn first_difference(x: Seq<u8>, y: Seq<u8>) -> int
    decreases x.len(),
{
    if x.len() == 0 || y.len() == 0 || x[0] != y[0] {
        0
    } else {
        1 + first_difference(x.skip(1), y.skip(1))
    }
}

/// Whether `x` comes no later than `y` in the order of a dictionary: at the
/// first place where they differ `x` has the smaller byte, or `x` ends there.
pub open spec fn bytes_le(x: Seq<u8>, y: Seq<u8>) -> bool {
    let k = first_difference(x, y);
    if k == x.len() {
        true
    } else if k == y.len() {
        false
    } else {
        x[k] < y[k]
    }
}

/// `first_difference` is the place up to which the two agree and at which
/// they do not.
pub proof fn lemma_first_difference(x: Seq<u8>, y: Seq<u8>)
    ensures
        0 <= first_difference(x, y) <= x.len(),
        first_difference(x, y) <= y.len(),
        forall|k: int| 0 <= k < first_difference(x, y) ==> x[k] == y[k],
        first_difference(x, y) < x.len() && first_difference(x, y) < y.len() ==> x[first_difference(
            x,
            y,
        )] != y[first_difference(x, y)],
    decreases x.len(),
{
    if !(x.len() == 0 || y.len() == 0 || x[0] != y[0]) {
        let xs = x.skip(1);
        let ys = y.skip(1);
        lemma_first_difference(xs, ys);
        let d = first_difference(xs, ys);
        assert forall|k: int| 0 <= k < 1 + d implies x[k] == y[k] by {
            if k > 0 {
                assert(x[k] == xs[k - 1]);
                assert(y[k] == ys[k - 1]);
            }
        }
        if d < xs.len() && d < ys.len() {
            assert(x[1 + d] == xs[d]);
            assert(y[1 + d] == ys[d]);
        }
    }
}

/// A place up to which the two agree and at which they do not is
/// `first_difference`.
pub proof fn lemma_first_difference_is(x: Seq<u8>, y: Seq<u8>, at: int)
    requires
        0 <= at <= x.len(),
        at <= y.len(),
        forall|k: int| 0 <= k < at ==> x[k] == y[k],
        at < x.len() && at < y.len() ==> x[at] != y[at],
    ensures
        first_difference(x, y) == at,
{
    lemma_first_difference(x, y);
}

/// The order of the dictionary is total.
pub proof fn lemma_bytes_le_total(x: Seq<u8>, y: Seq<u8>)
    ensures
        bytes_le(x, y) || bytes_le(y, x),
{
    lemma_first_difference(x, y);
    lemma_first_difference_is(y, x, first_difference(x, y));
}

/// The order of the dictionary is transitive.
pub proof fn lemma_bytes_le_transitive(x: Seq<u8>, y: Seq<u8>, z: Seq<u8>)
    requires
        bytes_le(x, y),
        bytes_le(y, z),
    ensures
        bytes_le(x, z),
{
    lemma_first_difference(x, y);
    lemma_first_difference(y, z);
    let k1 = first_difference(x, y);
    let k2 = first_difference(y, z);
    let k = if k1 <= k2 { k1 } else { k2 };
    assert forall|i: int| 0 <= i < k implies x[i] == z[i] by {
        assert(x[i] == y[i]);
        assert(y[i] == z[i]);
    }
    lemma_first_difference_is(x, z, k);
}

/// Whether `x` comes no later than `y` in the order of a dictionary.
pub fn bytes_no_later(x: &[u8], y: &[u8]) -> (b: bool)
    ensures
        b == bytes_le(x@, y@),
{
    let mut k: usize = 0;
    while k < x.len() && k < y.len() && x[k] == y[k]
        invariant
            k <= x.len(),
            k <= y.len(),
            forall|i: int| 0 <= i < k ==> x@[i] == y@[i],
        decreases x.len() - k,
    {
        k = k + 1;
    }
    proof {
        lemma_first_difference_is(x@, y@, k as int);
    }
    if k == x.len() {
        true
    } else if k == y.len() {
        false
    } else {
        x[k] < y[k]
    }
}

} // verus!
