use vstd::prelude::*;
use vstd::arithmetic::div_mod::{
    lemma_fundamental_div_mod, lemma_div_is_ordered, lemma_mod_bound,
    lemma_div_multiples_vanish,
};
use vstd::arithmetic::mul::{
    lemma_mul_inequality, lemma_mul_upper_bound, lemma_mul_is_distributive_add,
    lemma_mul_is_distributive_add_other_way,
    lemma_mul_is_distributive_sub,
};
use crate::sums::{
    sum64, lemma_sum64_nonneg, lemma_sum64_take_step, lemma_sum64_take_all,
    lemma_sum64_element, lemma_sum64_update,
};

verus! {

/// The share of `n` units that bucket `i` is owed before remainder
/// distribution: `floor(n * ws[i] / sum(ws))`.
pub open spec fn base_share(n: u64, ws: Seq<u64>, i: int) -> int {
    (n * ws[i]) / sum64(ws)
}

/// The fractional remainder of bucket `i`'s exact share, scaled by the weight
/// total: `(n * ws[i]) mod sum(ws)`.
pub open spec fn share_rem(n: u64, ws: Seq<u64>, i: int) -> int {
    (n * ws[i]) % sum64(ws)
}

/// Bucket `i` is served before bucket `j` when handing out remainder units:
/// larger scaled remainder first, ties broken by registration order.
pub open spec fn remainder_priority(n: u64, ws: Seq<u64>, i: int, j: int) -> bool {
    share_rem(n, ws, i) > share_rem(n, ws, j)
        || (share_rem(n, ws, i) == share_rem(n, ws, j) && i < j)
}

/// Sum of the first `k` base shares.
pub open spec fn base_share_sum(n: u64, ws: Seq<u64>, k: int) -> int
    decreases k,
{
    if k <= 0 {
        0
    } else {
        base_share_sum(n, ws, k - 1) + base_share(n, ws, k - 1)
    }
}

/// Sum of the first `k` scaled remainders.
pub open spec fn share_rem_sum(n: u64, ws: Seq<u64>, k: int) -> int
    decreases k,
{
    if k <= 0 {
        0
    } else {
        share_rem_sum(n, ws, k - 1) + share_rem(n, ws, k - 1)
    }
}

/// The defining identity of division with remainder, summed over the first
/// `k` buckets: `total * (base shares) + (scaled remainders) = n * (weights)`.
proof fn lemma_share_decomposition(n: u64, ws: Seq<u64>, k: int)
    requires
        sum64(ws) > 0,
        0 <= k <= ws.len(),
    ensures
        sum64(ws) * base_share_sum(n, ws, k) + share_rem_sum(n, ws, k)
            == n * sum64(ws.take(k)),
    decreases k,
{
    let total = sum64(ws);
    if k == 0 {
        assert(ws.take(0) =~= Seq::<u64>::empty());
    } else {
        lemma_share_decomposition(n, ws, k - 1);
        lemma_sum64_take_step(ws, k - 1);
        lemma_fundamental_div_mod(n * ws[k - 1], total);
        lemma_mul_is_distributive_add(total, base_share_sum(n, ws, k - 1), base_share(n, ws, k - 1));
        lemma_mul_is_distributive_add(n as int, sum64(ws.take(k - 1)), ws[k - 1] as int);
    }
}

/// Each scaled remainder lies in `[0, total)`, so the first `k` of them sum
/// to less than `k * total`.
proof fn lemma_share_rem_sum_bounds(n: u64, ws: Seq<u64>, k: int)
    requires
        sum64(ws) > 0,
        0 <= k <= ws.len(),
    ensures
        0 <= share_rem_sum(n, ws, k),
        share_rem_sum(n, ws, k) <= k * sum64(ws) - k,
    decreases k,
{
    let total = sum64(ws);
    if k > 0 {
        lemma_share_rem_sum_bounds(n, ws, k - 1);
        lemma_mod_bound(n * ws[k - 1], total);
        assert(k * total == (k - 1) * total + total) by {
            lemma_mul_is_distributive_sub(total, k, 1);
        }
    }
}

/// The base shares leave a remainder of between `0` and `len - 1` units
/// undistributed: `0 <= n - sum(base shares) <= len - 1`.
proof fn lemma_leftover_range(n: u64, ws: Seq<u64>)
    requires
        sum64(ws) > 0,
        ws.len() > 0,
    ensures
        0 <= n - base_share_sum(n, ws, ws.len() as int),
        n - base_share_sum(n, ws, ws.len() as int) <= ws.len() - 1,
{
    let len = ws.len() as int;
    let total = sum64(ws);
    let bs = base_share_sum(n, ws, len);
    let rs = share_rem_sum(n, ws, len);
    lemma_share_decomposition(n, ws, len);
    lemma_sum64_take_all(ws);
    assert(total * bs + rs == n * total);
    lemma_share_rem_sum_bounds(n, ws, len);
    assert(total * (n - bs) == rs) by {
        lemma_mul_is_distributive_sub(total, n as int, bs);
    }
    // 0 <= rs and rs <= len * total - len < len * total force 0 <= n - bs < len.
    assert(0 <= n - bs) by (nonlinear_arith)
        requires
            total * (n - bs) == rs,
            rs >= 0,
            total > 0,
    ;
    assert(n - bs <= len - 1) by (nonlinear_arith)
        requires
            total * (n - bs) == rs,
            rs <= len * total - len,
            total > 0,
            len > 0,
    ;
}

/// Count of `true` flags in a sequence.
pub open spec fn count_true(s: Seq<bool>) -> int
    decreases s.len(),
{
    if s.len() == 0 {
        0
    } else {
        count_true(s.drop_last()) + if s.last() { 1int } else { 0int }
    }
}

proof fn lemma_count_true_push(s: Seq<bool>, v: bool)
    ensures
        count_true(s.push(v)) == count_true(s) + if v { 1int } else { 0int },
{
    assert(s.push(v).drop_last() =~= s);
}

proof fn lemma_count_true_update(s: Seq<bool>, i: int)
    requires
        0 <= i < s.len(),
        !s[i],
    ensures
        count_true(s.update(i, true)) == count_true(s) + 1,
    decreases s.len(),
{
    if i == s.len() - 1 {
        assert(s.update(i, true).drop_last() =~= s.drop_last());
    } else {
        assert(s.update(i, true).drop_last() =~= s.drop_last().update(i, true));
        assert(s.update(i, true).last() == s.last());
        lemma_count_true_update(s.drop_last(), i);
    }
}

/// Distribute `n` indivisible units over weighted buckets by the
/// largest-remainder method: every bucket first receives
/// `floor(n * weight / total)` units, and the units still missing from `n`
/// go one each to the buckets with the largest scaled remainder
/// `(n * weight) mod total`, earlier buckets first on ties.
///
/// The result always sums to exactly `n`, each entry is the floor share or
/// one more, and a bucket received an extra unit only if it has remainder
/// priority over every bucket that did not.
pub fn apportion(n: u64, weights: &Vec<u64>) -> (alloc: Vec<u64>)
    requires
        weights@.len() > 0,
        sum64(weights@) > 0,
    ensures
        alloc@.len() == weights@.len(),
        sum64(alloc@) == n,
        forall|i: int| 0 <= i < alloc@.len() ==>
            base_share(n, weights@, i) <= #[trigger] (alloc@[i] as int)
                <= base_share(n, weights@, i) + 1,
        forall|i: int, j: int|
            0 <= i < alloc@.len() && 0 <= j < alloc@.len()
                && alloc@[i] == base_share(n, weights@, i) + 1
                && #[trigger] (alloc@[j] as int) == base_share(n, weights@, j)
                ==> #[trigger] remainder_priority(n, weights@, i, j),
{
    let ghost ws = weights@;
    let len = weights.len();
    let ghost total_spec = sum64(ws);

    // Weight total, exact in 128 bits.
    let mut total: u128 = 0;
    let mut k: usize = 0;
    while k < len
        invariant
            0 <= k <= len,
            len == ws.len(),
            weights@ == ws,
            total == sum64(ws.take(k as int)),
            total <= k * (u64::MAX as int),
        decreases len - k,
    {
        proof {
            lemma_sum64_take_step(ws, k as int);
            lemma_mul_is_distributive_add(u64::MAX as int, k as int, 1);
            lemma_mul_upper_bound(k as int + 1, usize::MAX as int, u64::MAX as int, u64::MAX as int);
        }
        total = total + weights[k] as u128;
        k = k + 1;
    }
    proof {
        lemma_sum64_take_all(ws);
    }

    // Floor shares and scaled remainders.
    let mut alloc: Vec<u64> = Vec::new();
    let mut rems: Vec<u128> = Vec::new();
    let mut handed_out: u128 = 0;
    let mut k: usize = 0;
    while k < len
        invariant
            0 <= k <= len,
            len == ws.len(),
            weights@ == ws,
            total == total_spec,
            total_spec == sum64(ws),
            total_spec > 0,
            alloc@.len() == k,
            rems@.len() == k,
            forall|i: int| 0 <= i < k ==> #[trigger] (alloc@[i] as int) == base_share(n, ws, i),
            forall|i: int| 0 <= i < k ==> #[trigger] (rems@[i] as int) == share_rem(n, ws, i),
            handed_out == base_share_sum(n, ws, k as int),
            handed_out <= k * (n as int),
        decreases len - k,
    {
        proof {
            lemma_mul_upper_bound(n as int, u64::MAX as int, ws[k as int] as int, u64::MAX as int);
        }
        let prod: u128 = (n as u128) * (weights[k] as u128);
        let q: u128 = prod / total;
        let rem: u128 = prod % total;
        proof {
            lemma_sum64_element(ws, k as int);
            lemma_mul_inequality(ws[k as int] as int, total_spec, n as int);
            // n * ws[k] <= n * total, so the quotient is at most n.
            assert((n as int) * (ws[k as int] as int) == (ws[k as int] as int) * (n as int))
                by (nonlinear_arith);
            assert((n as int) * total_spec == total_spec * (n as int)) by (nonlinear_arith);
            lemma_div_is_ordered((n as int) * (ws[k as int] as int), (n as int) * total_spec, total_spec);
            lemma_div_multiples_vanish(n as int, total_spec);
            assert(q <= n);
            lemma_mul_is_distributive_add_other_way(n as int, k as int, 1);
            lemma_mul_upper_bound(k as int + 1, usize::MAX as int, n as int, u64::MAX as int);
            assert(handed_out + q <= (k as int + 1) * (n as int));
        }
        alloc.push(q as u64);
        rems.push(rem);
        handed_out = handed_out + q;
        k = k + 1;
    }

    // Hand the leftover units to the buckets with the largest remainders.
    proof {
        lemma_leftover_range(n, ws);
    }
    let leftover: u64 = ((n as u128) - handed_out) as u64;
    let mut bumped: Vec<bool> = Vec::new();
    let mut k: usize = 0;
    while k < len
        invariant
            0 <= k <= len,
            bumped@.len() == k,
            forall|i: int| 0 <= i < k ==> !(#[trigger] bumped@[i]),
            count_true(bumped@) == 0,
        decreases len - k,
    {
        proof {
            lemma_count_true_push(bumped@, false);
        }
        bumped.push(false);
        k = k + 1;
    }

    let ghost base = alloc@;
    proof {
        // sum64 of the floor-share vector equals the spec prefix sum.
        assert forall|i: int| 0 <= i < len implies
            #[trigger] (base[i] as int) == base_share(n, ws, i) by {}
        lemma_base_vec_sum(n, ws, base, len as int);
        lemma_sum64_take_all(base);
    }

    let mut t: u64 = 0;
    while t < leftover
        invariant
            0 <= t <= leftover,
            len == ws.len(),
            len > 0,
            total_spec == sum64(ws),
            total_spec > 0,
            alloc@.len() == len,
            rems@.len() == len,
            bumped@.len() == len,
            leftover == n - base_share_sum(n, ws, len as int),
            leftover <= len - 1,
            forall|i: int| 0 <= i < len ==> #[trigger] (rems@[i] as int) == share_rem(n, ws, i),
            count_true(bumped@) == t,
            forall|i: int| 0 <= i < len && #[trigger] bumped@[i]
                ==> alloc@[i] as int == base_share(n, ws, i) + 1,
            forall|i: int| 0 <= i < len && !(#[trigger] bumped@[i])
                ==> alloc@[i] as int == base_share(n, ws, i),
            sum64(alloc@) == base_share_sum(n, ws, len as int) + t,
            forall|i: int, j: int|
                0 <= i < len && 0 <= j < len && #[trigger] bumped@[i] && !(#[trigger] bumped@[j])
                    ==> remainder_priority(n, ws, i, j),
        decreases leftover - t,
    {
        // Find the clear bucket with the largest remainder, earliest on ties.
        let mut best: usize = len;
        let mut k: usize = 0;
        while k < len
            invariant
                0 <= k <= len,
                len == ws.len(),
                alloc@.len() == len,
                rems@.len() == len,
                bumped@.len() == len,
                forall|i: int| 0 <= i < len ==> #[trigger] (rems@[i] as int) == share_rem(n, ws, i),
                best == len || (best < k && !bumped@[best as int]),
                best == len ==> forall|m: int| 0 <= m < k ==> #[trigger] bumped@[m],
                best < len ==> forall|m: int| 0 <= m < k && !(#[trigger] bumped@[m])
                    ==> (rems@[best as int] > rems@[m]
                        || (rems@[best as int] == rems@[m] && best <= m)),
            decreases len - k,
        {
            if !bumped[k] {
                if best == len || rems[k] > rems[best] {
                    best = k;
                }
            }
            k = k + 1;
        }
        proof {
            if best == len {
                assert forall|i: int| 0 <= i < len implies #[trigger] bumped@[i] by {}
                lemma_count_all_true(bumped@);
                assert(count_true(bumped@) == len);
                assert(false);
            }
        }
        let ghost old_alloc = alloc@;
        let ghost old_bumped = bumped@;
        let bi = best;
        let cur = alloc[bi];
        proof {
            lemma_sum64_element(alloc@, bi as int);
            lemma_sum64_nonneg(alloc@);
        }
        alloc.set(bi, cur + 1);
        bumped.set(bi, true);
        t = t + 1;
        proof {
            lemma_sum64_update(old_alloc, bi as int, (cur + 1) as u64);
            lemma_count_true_update(old_bumped, bi as int);
            assert forall|i: int, j: int|
                0 <= i < len && 0 <= j < len && #[trigger] bumped@[i] && !(#[trigger] bumped@[j])
                    implies remainder_priority(n, ws, i, j) by {
                if i == bi as int {
                    assert(!old_bumped[j]);
                    assert(rems@[bi as int] > rems@[j]
                        || (rems@[bi as int] == rems@[j] && bi as int <= j));
                    assert(j != bi as int);
                } else {
                    assert(old_bumped[i] && !old_bumped[j]);
                }
            }
        }
    }
    proof {
        assert forall|i: int| 0 <= i < len implies
            base_share(n, ws, i) <= #[trigger] (alloc@[i] as int) <= base_share(n, ws, i) + 1 by {
            if bumped@[i] {
            } else {
            }
        }
        assert forall|i: int, j: int|
            0 <= i < len && 0 <= j < len
                && alloc@[i] == base_share(n, ws, i) + 1
                && #[trigger] (alloc@[j] as int) == base_share(n, ws, j)
                implies #[trigger] remainder_priority(n, ws, i, j) by {
            assert(bumped@[i]);
            assert(!bumped@[j]);
        }
    }
    alloc
}

/// A vector whose entries are exactly the floor shares sums to the prefix sum
/// of floor shares.
proof fn lemma_base_vec_sum(n: u64, ws: Seq<u64>, base: Seq<u64>, k: int)
    requires
        0 <= k <= base.len(),
        forall|i: int| 0 <= i < base.len() ==> #[trigger] (base[i] as int) == base_share(n, ws, i),
    ensures
        sum64(base.take(k)) == base_share_sum(n, ws, k),
    decreases k,
{
    if k > 0 {
        lemma_base_vec_sum(n, ws, base, k - 1);
        lemma_sum64_take_step(base, k - 1);
    }
}

/// If every flag is set, the count of set flags is the length.
proof fn lemma_count_all_true(s: Seq<bool>)
    requires
        forall|i: int| 0 <= i < s.len() ==> #[trigger] s[i],
    ensures
        count_true(s) == s.len(),
    decreases s.len(),
{
    if s.len() > 0 {
        lemma_count_all_true(s.drop_last());
    }
}

} // verus!
