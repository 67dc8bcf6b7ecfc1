//! The four operators and their preimage computations.

use vstd::prelude::*;

use crate::{HigherIntoIterator, Item, item};

verus! {

/// The range transform inverted by `Neg`: the underlying map is the
/// reflection `x ↦ 1 - x` (self-inverse), applied to both endpoints of a
/// half-open range `(start, end)` with the direction flipped.
pub open spec fn neg_transform(r: (int, int)) -> (int, int) {
    (1 - r.1, 1 - r.0)
}

/// Negation operator marker: inverts the reflection `x ↦ 1 - x`.
#[derive(Clone)]
pub struct Neg;

impl HigherIntoIterator<Item<core::ops::Range<i64>>> for Neg {
    type Item = i64;

    type IntoIter = core::ops::Range<i64>;

    open spec fn hinto_req(self, arg: Item<core::ops::Range<i64>>) -> bool {
        &&& i64::MIN + 2 <= arg.val.start
        &&& i64::MIN + 2 <= arg.val.end
    }

    open spec fn hinto_ens(
        self,
        arg: Item<core::ops::Range<i64>>,
        r: core::ops::Range<i64>,
    ) -> bool {
        (r.start as int, r.end as int) == neg_transform((arg.val.start as int, arg.val.end as int))
    }

    fn hinto_iter(self, arg: Item<core::ops::Range<i64>>) -> core::ops::Range<i64> {
        let arg = arg.inner();
        core::ops::Range { start: 1 - arg.end, end: 1 - arg.start }
    }
}

impl HigherIntoIterator<Item<i64>> for Neg {
    type Item = i64;

    type IntoIter = core::ops::Range<i64>;

    open spec fn hinto_req(self, arg: Item<i64>) -> bool {
        i64::MIN + 2 <= arg.val
    }

    open spec fn hinto_ens(self, arg: Item<i64>, r: core::ops::Range<i64>) -> bool {
        &&& r.start == -arg.val
        &&& r.end == 1 - arg.val
    }

    fn hinto_iter(self, arg: Item<i64>) -> core::ops::Range<i64> {
        let arg = arg.inner();
        core::ops::Range { start: -arg, end: 1 - arg }
    }
}

/// The range transform of `Neg` is an involution: applying it twice to any
/// range returns the range unchanged, since the underlying map `x ↦ 1 - x`
/// is self-inverse.
pub proof fn lemma_neg_involution(r: (int, int))
    ensures
        neg_transform(neg_transform(r)) == r,
{
}

/// The range transform of `Neg` maps empty ranges to empty ranges and
/// non-empty ranges to non-empty ranges (a half-open range `(start, end)`
/// is empty exactly when `end <= start`).
pub proof fn lemma_neg_preserves_emptiness(r: (int, int))
    ensures
        (neg_transform(r).1 <= neg_transform(r).0) <==> (r.1 <= r.0),
{
}

/// Identity operator marker.
#[derive(Clone)]
pub struct Id;

impl HigherIntoIterator<Item<core::ops::Range<i64>>> for Id {
    type Item = i64;

    type IntoIter = core::ops::Range<i64>;

    open spec fn hinto_req(self, arg: Item<core::ops::Range<i64>>) -> bool {
        true
    }

    open spec fn hinto_ens(
        self,
        arg: Item<core::ops::Range<i64>>,
        r: core::ops::Range<i64>,
    ) -> bool {
        r == arg.val
    }

    fn hinto_iter(self, arg: Item<core::ops::Range<i64>>) -> core::ops::Range<i64> {
        arg.inner()
    }
}

impl HigherIntoIterator<Item<i64>> for Id {
    type Item = i64;

    type IntoIter = core::ops::Range<i64>;

    open spec fn hinto_req(self, arg: Item<i64>) -> bool {
        arg.val < i64::MAX
    }

    open spec fn hinto_ens(self, arg: Item<i64>, r: core::ops::Range<i64>) -> bool {
        &&& r.start == arg.val
        &&& r.end == arg.val + 1
    }

    fn hinto_iter(self, arg: Item<i64>) -> core::ops::Range<i64> {
        let arg = arg.inner();
        core::ops::Range { start: arg, end: arg + 1 }
    }
}

/// The `j`-th value of the second-component schedule of the `Add`
/// enumeration: `0, -1, 1, -2, 2, -3, 3, …` — every integer exactly once,
/// in order of increasing magnitude, the negative value of each magnitude
/// first.
pub open spec fn offset_at(j: int) -> int
    recommends
        0 <= j,
{
    if j % 2 == 0 {
        j / 2
    } else {
        -((j + 1) / 2)
    }
}

/// The position of the offset value `b` within the schedule `0, -1, 1,
/// -2, 2, …`; inverse of `offset_at`.
pub open spec fn block_of(b: int) -> int {
    if b >= 0 {
        2 * b
    } else {
        -(2 * b) - 1
    }
}

/// `block_of` is a left inverse of `offset_at`.
pub proof fn lemma_block_of_offset_at(j: int)
    requires
        0 <= j,
    ensures
        block_of(offset_at(j)) == j,
{
    vstd::arithmetic::div_mod::lemma_fundamental_div_mod(j, 2);
}

/// `offset_at` is a left inverse of `block_of`.
pub proof fn lemma_offset_at_block_of(b: int)
    ensures
        0 <= block_of(b),
        offset_at(block_of(b)) == b,
{
}

/// The element at position `k` (counting from 0) of the `Add` enumeration
/// over the non-empty target range `(s, e)`: position `k` lies in block
/// `k / (e - s)` of the offset schedule, at in-block position `k % (e - s)`.
pub open spec fn add_pair(s: int, e: int, k: int) -> (int, int)
    recommends
        s < e,
        0 <= k,
{
    let b = offset_at(k / (e - s));
    (s + k % (e - s) - b, b)
}

/// The position in the `Add` enumeration over `(s, e)` at which the pair
/// `(a, b)` with `a + b` in the target range appears.
pub open spec fn add_index_of(s: int, e: int, a: int, b: int) -> int
    recommends
        s < e,
        s <= a + b < e,
{
    block_of(b) * (e - s) + (a + b - s)
}

/// Every pair produced by the `Add` enumeration over `(s, e)` has its
/// component sum inside the target range.
pub proof fn lemma_add_pair_sum_in_range(s: int, e: int, k: int)
    requires
        s < e,
        0 <= k,
    ensures
        s <= add_pair(s, e, k).0 + add_pair(s, e, k).1 < e,
{
    vstd::arithmetic::div_mod::lemma_mod_bound(k, e - s);
}

/// Completeness of the `Add` enumeration: every pair `(a, b)` whose sum
/// lies in the non-empty target range `(s, e)` appears in the enumeration,
/// namely at position `add_index_of(s, e, a, b)`; and when `|b| <= m` that
/// position lies below `(2 * m + 1) * (e - s)`, so a consumer that pulls
/// that many elements has seen every pair with second component bounded
/// by `m`.
pub proof fn lemma_add_complete(s: int, e: int, a: int, b: int, m: int)
    requires
        s < e,
        s <= a + b < e,
        -m <= b <= m,
    ensures
        0 <= add_index_of(s, e, a, b),
        add_pair(s, e, add_index_of(s, e, a, b)) == (a, b),
        add_index_of(s, e, a, b) < (2 * m + 1) * (e - s),
{
    let len = e - s;
    let blk = block_of(b);
    let off = a + b - s;
    let k = add_index_of(s, e, a, b);
    lemma_offset_at_block_of(b);
    vstd::arithmetic::mul::lemma_mul_nonnegative(blk, len);
    vstd::arithmetic::div_mod::lemma_fundamental_div_mod_converse(k, len, blk, off);
    assert(add_pair(s, e, k) == (a, b));
    assert(blk <= 2 * m);
    vstd::arithmetic::mul::lemma_mul_inequality(blk, 2 * m, len);
    assert((2 * m + 1) * len == 2 * m * len + len) by (nonlinear_arith);
}

/// Uniqueness of the `Add` enumeration: distinct positions in the
/// enumeration over the same non-empty target range carry distinct pairs —
/// no pair is ever produced twice.
pub proof fn lemma_add_unique(s: int, e: int, k1: int, k2: int)
    requires
        s < e,
        0 <= k1,
        0 <= k2,
        k1 != k2,
    ensures
        add_pair(s, e, k1) != add_pair(s, e, k2),
{
    let len = e - s;
    vstd::arithmetic::div_mod::lemma_fundamental_div_mod(k1, len);
    vstd::arithmetic::div_mod::lemma_fundamental_div_mod(k2, len);
    vstd::arithmetic::div_mod::lemma_div_pos_is_pos(k1, len);
    vstd::arithmetic::div_mod::lemma_div_pos_is_pos(k2, len);
    if k1 / len == k2 / len {
        assert(k1 % len != k2 % len);
    } else {
        lemma_block_of_offset_at(k1 / len);
        lemma_block_of_offset_at(k2 / len);
        assert(offset_at(k1 / len) != offset_at(k2 / len));
    }
}

/// Ordering of the second components: the offset schedule starts at 0,
/// and after the block for offset `b >= 0` comes the block for `-(b + 1)`,
/// while after the block for a negative offset `-m` comes the block for
/// `m` — i.e. the second components follow `0, -1, 1, -2, 2, -3, 3, …`.
pub proof fn lemma_offset_schedule(j: int)
    requires
        0 <= j,
    ensures
        offset_at(0) == 0,
        offset_at(j) >= 0 ==> offset_at(j + 1) == -(offset_at(j) + 1),
        offset_at(j) < 0 ==> offset_at(j + 1) == -offset_at(j),
{
    vstd::arithmetic::div_mod::lemma_fundamental_div_mod(j, 2);
}

/// The second component of the `k`-th element of the `Add` enumeration
/// over `(s, e)` is the `(k / (e - s))`-th value of the offset schedule.
pub proof fn lemma_add_second_component(s: int, e: int, k: int)
    requires
        s < e,
        0 <= k,
    ensures
        add_pair(s, e, k).1 == offset_at(k / (e - s)),
{
}

/// Addition operator marker: enumerates the pairs whose sum lies in the
/// target.
#[derive(Clone)]
pub struct Add;

/// Lazy cursor over all integer pairs `(a, b)` with `a + b` in a target
/// range: for each offset `b` of the schedule `0, -1, 1, -2, 2, …` in
/// turn, one pair per element of the range.
pub struct AddRangeIter {
    /// The target range the component sums must fall into.
    pub range: core::ops::Range<i64>,
    /// Cursor walking across the target range; the next emitted sum.
    pub ind: i64,
    /// Current offset: the second component of the next emitted pair.
    pub add: i64,
}

impl AddRangeIter {
    /// The target range is non-empty, so the enumeration is infinite.
    pub open spec fn nonempty(self) -> bool {
        self.range.start < self.range.end
    }

    /// Cursor state is consistent: on a non-empty target the cursor lies
    /// inside the range.
    pub open spec fn wf(self) -> bool {
        self.nonempty() ==> self.range.start <= self.ind < self.range.end
    }

    /// How many pairs have been emitted so far; the next pair emitted is
    /// `add_pair(range.start, range.end, pos())`.
    pub open spec fn pos(self) -> int
        recommends
            self.wf(),
            self.nonempty(),
    {
        block_of(self.add as int) * (self.range.end - self.range.start) + (self.ind
            - self.range.start)
    }

    /// Produces the next pair of the enumeration and advances the cursor.
    /// On a non-empty target this never returns `None`; on an empty target
    /// it returns `None` without looping.
    pub fn next(&mut self) -> (r: Option<(i64, i64)>)
        requires
            old(self).wf(),
            old(self).nonempty() ==> i64::MIN <= old(self).ind - old(self).add <= i64::MAX,
            old(self).nonempty() && old(self).ind + 1 >= old(self).range.end ==> (if old(
                self,
            ).add >= 0 {
                old(self).add < i64::MAX
            } else {
                old(self).add > i64::MIN
            }),
        ensures
            final(self).range == old(self).range,
            final(self).wf(),
            !old(self).nonempty() ==> r is None && *final(self) == *old(self),
            old(self).nonempty() ==> (r matches Some(p) && p.0 == add_pair(
                old(self).range.start as int,
                old(self).range.end as int,
                old(self).pos(),
            ).0 && p.1 == add_pair(
                old(self).range.start as int,
                old(self).range.end as int,
                old(self).pos(),
            ).1),
            old(self).nonempty() ==> final(self).pos() == old(self).pos() + 1,
            old(self).nonempty() ==> final(self).ind as int == (if old(self).ind + 1 < old(
                self,
            ).range.end {
                old(self).ind as int + 1
            } else {
                old(self).range.start as int
            }),
            old(self).nonempty() ==> final(self).add as int == (if old(self).ind + 1 < old(
                self,
            ).range.end {
                old(self).add as int
            } else if old(self).add >= 0 {
                -(old(self).add as int) - 1
            } else {
                -(old(self).add as int)
            }),
    {
        if self.range.start >= self.range.end {
            return None;
        }
        proof {
            let s = self.range.start as int;
            let e = self.range.end as int;
            let len = e - s;
            let blk = block_of(self.add as int);
            let off = self.ind - s;
            lemma_offset_at_block_of(self.add as int);
            vstd::arithmetic::div_mod::lemma_fundamental_div_mod_converse(
                self.pos(),
                len,
                blk,
                off,
            );
            assert(add_pair(s, e, self.pos()).0 == self.ind - self.add);
            assert(add_pair(s, e, self.pos()).1 == self.add);
        }
        let res = (self.ind - self.add, self.add);
        let ghost prev = *self;
        self.ind = self.ind + 1;
        if self.ind >= self.range.end {
            self.ind = self.range.start;
            if self.add >= 0 {
                self.add = self.add + 1;
            }
            self.add = -self.add;
            proof {
                let len = self.range.end - self.range.start;
                assert(block_of(self.add as int) == block_of(prev.add as int) + 1);
                assert((block_of(prev.add as int) + 1) * len == block_of(prev.add as int) * len
                    + len) by (nonlinear_arith);
            }
        }
        Some(res)
    }
}

impl HigherIntoIterator<Item<core::ops::Range<i64>>> for Add {
    type Item = (i64, i64);

    type IntoIter = AddRangeIter;

    open spec fn hinto_req(self, arg: Item<core::ops::Range<i64>>) -> bool {
        true
    }

    open spec fn hinto_ens(self, arg: Item<core::ops::Range<i64>>, r: AddRangeIter) -> bool {
        &&& r.range == arg.val
        &&& r.ind == arg.val.start
        &&& r.add == 0
        &&& r.wf()
        &&& r.nonempty() ==> r.pos() == 0
    }

    fn hinto_iter(self, arg: Item<core::ops::Range<i64>>) -> AddRangeIter {
        let rng = arg.inner();
        let it = AddRangeIter { ind: rng.start, range: rng, add: 0 };
        proof {
            assert(block_of(0) * (it.range.end - it.range.start) == 0) by (nonlinear_arith);
        }
        it
    }
}

impl HigherIntoIterator<Item<i64>> for Add {
    type Item = (i64, i64);

    type IntoIter = AddRangeIter;

    open spec fn hinto_req(self, arg: Item<i64>) -> bool {
        arg.val < i64::MAX
    }

    open spec fn hinto_ens(self, arg: Item<i64>, r: AddRangeIter) -> bool {
        &&& r.range.start == arg.val
        &&& r.range.end == arg.val + 1
        &&& r.ind == arg.val
        &&& r.add == 0
        &&& r.pos() == 0
    }

    fn hinto_iter(self, arg: Item<i64>) -> AddRangeIter {
        let arg = arg.inner();
        Add.hinto_iter(item(core::ops::Range { start: arg, end: arg + 1 }))
    }
}

/// The square of an integer.
pub open spec fn square(n: int) -> int {
    n * n
}

/// Whether `v` is the square of some (equivalently, some non-negative)
/// integer.
pub open spec fn is_perfect_square(v: int) -> bool {
    exists|r: int| 0 <= r && #[trigger] square(r) == v
}

/// Squaring is monotonic on the non-negative integers.
proof fn lemma_square_monotonic(a: int, b: int)
    requires
        0 <= a <= b,
    ensures
        square(a) <= square(b),
{
    assert(a * a <= b * b) by (nonlinear_arith)
        requires
            0 <= a,
            a <= b,
    ;
}

/// A value strictly between two consecutive squares is not a perfect
/// square.
proof fn lemma_between_squares_not_square(v: int, root: int)
    requires
        0 <= root,
        square(root) <= v,
        v < square(root + 1),
        square(root) != v,
    ensures
        !is_perfect_square(v),
{
    assert forall|r: int| 0 <= r implies #[trigger] square(r) != v by {
        if r <= root {
            lemma_square_monotonic(r, root);
        } else {
            lemma_square_monotonic(root + 1, r);
        }
    }
}

/// A negative value is not a perfect square.
proof fn lemma_negative_not_square(v: int)
    requires
        v < 0,
    ensures
        !is_perfect_square(v),
{
    assert forall|r: int| 0 <= r implies #[trigger] square(r) != v by {
        vstd::arithmetic::mul::lemma_mul_nonnegative(r, r);
    }
}

/// Integer square root by bisection: the unique `root >= 0` with
/// `root * root <= v < (root + 1) * (root + 1)`.
fn isqrt(v: i64) -> (root: i64)
    requires
        v >= 0,
    ensures
        0 <= root < 3037000500,
        square(root as int) <= v as int,
        (v as int) < square(root as int + 1),
{
    let mut lo: i64 = 0;
    let mut hi: i64 = 3037000500;
    proof {
        assert(square(3037000500) > i64::MAX as int) by (nonlinear_arith);
    }
    while lo + 1 < hi
        invariant
            0 <= lo < hi <= 3037000500,
            v >= 0,
            square(lo as int) <= v as int,
            (v as int) < square(hi as int),
        decreases hi - lo,
    {
        let mid = lo + (hi - lo) / 2;
        proof {
            assert(0 <= mid * mid <= i64::MAX) by (nonlinear_arith)
                requires
                    0 < mid < 3037000500,
            ;
        }
        if mid * mid <= v {
            lo = mid;
        } else {
            hi = mid;
        }
    }
    lo
}

/// Square operator marker: enumerates the non-negative roots whose square
/// lies in the target.
#[derive(Clone)]
pub struct Square;

/// Lazy cursor over the non-negative roots of the perfect squares in a
/// target range, produced in increasing order.
pub struct SquareRangeIter {
    /// The target range the squares must fall into.
    pub range: core::ops::Range<i64>,
    /// Scan cursor: candidate squares below it have been ruled out.
    pub ind: i64,
}

impl SquareRangeIter {
    /// Produces the root of the next perfect square at or after the scan
    /// cursor within the target range, or `None` when no perfect square
    /// remains.
    pub fn next(&mut self) -> (r: Option<i64>)
        ensures
            final(self).range == old(self).range,
            match r {
                Some(root) => {
                    &&& root >= 0
                    &&& old(self).ind <= square(root as int) < old(self).range.end
                    &&& final(self).ind == square(root as int) + 1
                    &&& forall|x: int|
                        old(self).ind <= x < square(root as int) ==> !is_perfect_square(x)
                },
                None => {
                    &&& forall|x: int|
                        old(self).ind <= x < old(self).range.end ==> !is_perfect_square(x)
                    &&& final(self).ind == (if old(self).ind < old(self).range.end {
                        old(self).range.end
                    } else {
                        old(self).ind
                    })
                },
            },
    {
        let ghost s0 = *self;
        while self.ind < self.range.end
            invariant
                s0 == *old(self),
                self.range == s0.range,
                s0.ind <= self.ind,
                s0.ind < s0.range.end ==> self.ind <= self.range.end,
                s0.ind >= s0.range.end ==> self.ind == s0.ind,
                forall|x: int| s0.ind <= x < self.ind ==> !is_perfect_square(x),
            decreases self.range.end - self.ind,
        {
            let arg = self.ind;
            self.ind = self.ind + 1;
            if arg >= 0 {
                let root = isqrt(arg);
                if root * root == arg {
                    proof {
                        assert(square(root as int) == arg as int);
                    }
                    return Some(root);
                }
                proof {
                    lemma_between_squares_not_square(arg as int, root as int);
                }
            } else {
                proof {
                    lemma_negative_not_square(arg as int);
                }
            }
        }
        None
    }
}

impl HigherIntoIterator<Item<core::ops::Range<i64>>> for Square {
    type Item = i64;

    type IntoIter = SquareRangeIter;

    open spec fn hinto_req(self, arg: Item<core::ops::Range<i64>>) -> bool {
        true
    }

    open spec fn hinto_ens(self, arg: Item<core::ops::Range<i64>>, r: SquareRangeIter) -> bool {
        &&& r.range == arg.val
        &&& r.ind == arg.val.start
    }

    fn hinto_iter(self, arg: Item<core::ops::Range<i64>>) -> SquareRangeIter {
        let arg = arg.inner();
        SquareRangeIter { ind: arg.start, range: arg }
    }
}

impl HigherIntoIterator<Item<i64>> for Square {
    type Item = i64;

    type IntoIter = core::ops::Range<i64>;

    open spec fn hinto_req(self, arg: Item<i64>) -> bool {
        true
    }

    open spec fn hinto_ens(self, arg: Item<i64>, r: core::ops::Range<i64>) -> bool {
        &&& is_perfect_square(arg.val as int) ==> {
            &&& r.start >= 0
            &&& square(r.start as int) == arg.val
            &&& r.end == r.start + 1
        }
        &&& !is_perfect_square(arg.val as int) ==> r.start == 0 && r.end == 0
    }

    fn hinto_iter(self, arg: Item<i64>) -> core::ops::Range<i64> {
        let arg = arg.inner();
        if arg >= 0 {
            let root = isqrt(arg);
            if root * root == arg {
                proof {
                    assert(square(root as int) == arg as int);
                }
                core::ops::Range { start: root, end: root + 1 }
            } else {
                proof {
                    lemma_between_squares_not_square(arg as int, root as int);
                }
                core::ops::Range { start: 0, end: 0 }
            }
        } else {
            proof {
                lemma_negative_not_square(arg as int);
            }
            core::ops::Range { start: 0, end: 0 }
        }
    }
}

} // verus!
