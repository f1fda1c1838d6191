use crate::block::BlockItem;
use vstd::arithmetic::div_mod::{
    lemma_fundamental_div_mod, lemma_fundamental_div_mod_converse,
};
use vstd::prelude::*;

verus! {

/// The items the round-robin distributor delivers to output slot `i` when a
/// merged stream `s` is split over `n` slots: the items standing at the
/// merged positions congruent to `i` modulo `n`, kept in merged order.
pub open spec fn rr_channel(s: Seq<BlockItem>, n: int, i: int) -> Seq<BlockItem>
    decreases s.len(),
{
    if s.len() == 0 {
        Seq::empty()
    } else {
        let rest = rr_channel(s.drop_last(), n, i);
        if (s.len() - 1) % n == i {
            rest.push(s.last())
        } else {
            rest
        }
    }
}

/// How many of the first `len` merged positions land in slot `i`.
pub open spec fn rr_count(len: int, n: int, i: int) -> int {
    if len <= i {
        0
    } else {
        (len - i - 1) / n + 1
    }
}

/// Slot `i` holds exactly the items of the merged positions `i + j * n`,
/// the `j`-th received being the one from position `i + j * n`.
pub proof fn lemma_rr_channel_shape(s: Seq<BlockItem>, n: int, i: int)
    requires
        1 <= n,
        0 <= i < n,
    ensures
        rr_channel(s, n, i).len() == rr_count(s.len() as int, n, i),
        forall|j: int|
            0 <= j < rr_count(s.len() as int, n, i) ==> rr_channel(s, n, i)[j] == s[i + j * n],
    decreases s.len(),
{
    broadcast use vstd::arithmetic::mul::lemma_mul_is_commutative;

    if s.len() == 0 {
    } else {
        let l = s.len() as int;
        lemma_rr_channel_shape(s.drop_last(), n, i);
        let q = (l - 1) / n;
        lemma_fundamental_div_mod(l - 1, n);
        if (l - 1) % n == i {
            // Position l - 1 itself lands in slot i, as its q-th item.
            assert(l - 1 == n * q + i);
            lemma_fundamental_div_mod_converse(n * q, n, q, 0);
            assert(rr_count(l, n, i) == q + 1);
            if l - 1 == i {
                assert(q == 0) by (nonlinear_arith)
                    requires n * q == 0 && n >= 1 && q >= 0;
                assert(rr_count(l - 1, n, i) == 0);
            } else {
                assert(n * q >= 1);
                assert(q >= 1) by (nonlinear_arith)
                    requires n * q >= 1 && n >= 1;
                assert((q - 1) * n + (n - 1) == n * q - 1) by (nonlinear_arith);
                lemma_fundamental_div_mod_converse(n * q - 1, n, q - 1, n - 1);
                assert(rr_count(l - 1, n, i) == q);
            }
            assert(rr_channel(s, n, i).len() == rr_count(l, n, i));
            assert forall|j: int| 0 <= j < rr_count(l, n, i) implies rr_channel(s, n, i)[j] == s[i
                + j * n] by {
                if j < q {
                    assert(rr_channel(s, n, i)[j] == rr_channel(s.drop_last(), n, i)[j]);
                    assert(i + j * n < l - 1) by (nonlinear_arith)
                        requires j < q && n >= 1 && l - 1 == n * q + i;
                    assert(s.drop_last()[i + j * n] == s[i + j * n]);
                } else {
                    assert(j == q);
                    assert(i + q * n == l - 1);
                    assert(rr_channel(s, n, i)[q] == s.last());
                }
            }
        } else {
            if l - 1 < i {
                assert(rr_count(l, n, i) == 0 && rr_count(l - 1, n, i) == 0);
            } else if l - 1 == i {
                // Then (l - 1) % n would be i, against the case split.
                lemma_fundamental_div_mod_converse(i, n, 0, i);
                assert(false);
            } else {
                // l - 1 - i is no multiple of n, so the floor count is flat.
                let x = l - 1 - i;
                let qx = x / n;
                let rx = x % n;
                lemma_fundamental_div_mod(x, n);
                assert(x == n * qx + rx);
                if rx == 0 {
                    lemma_fundamental_div_mod_converse(l - 1, n, qx, i);
                    assert(false);
                }
                lemma_fundamental_div_mod_converse(x - 1, n, qx, rx - 1);
                assert(rr_count(l, n, i) == rr_count(l - 1, n, i));
                assert forall|j: int| 0 <= j < rr_count(l, n, i) implies rr_channel(s, n, i)[j]
                    == s[i + j * n] by {
                    assert(rr_channel(s, n, i)[j] == rr_channel(s.drop_last(), n, i)[j]);
                    assert(j <= qx - 1 + 1);
                    assert(i + j * n < l - 1) by (nonlinear_arith)
                        requires j <= qx && n >= 1 && rx >= 1 && l - 1 - i == n * qx + rx;
                    assert(s.drop_last()[i + j * n] == s[i + j * n]);
                }
            }
        }
    }
}

/// Round-robin distribution: the item at merged position `p` is delivered
/// to output slot `p % n`, as the `p / n`-th item of that slot.
pub proof fn lemma_round_robin_position(s: Seq<BlockItem>, n: int, p: int)
    requires
        1 <= n,
        0 <= p < s.len(),
    ensures
        0 <= p % n < n,
        0 <= p / n < rr_channel(s, n, p % n).len(),
        rr_channel(s, n, p % n)[p / n] == s[p],
{
    let i = p % n;
    let j = p / n;
    lemma_fundamental_div_mod(p, n);
    assert(0 <= i < n && 0 <= j) by (nonlinear_arith)
        requires n >= 1 && p >= 0 && i == p % n && j == p / n;
    lemma_rr_channel_shape(s, n, i);
    let l = s.len() as int;
    assert(i + j * n == p) by (nonlinear_arith)
        requires p == n * j + i;
    // p < l puts j strictly below the slot's item count.
    assert(j < rr_count(l, n, i)) by {
        assert(l > i);
        let q = (l - i - 1) / n;
        let r = (l - i - 1) % n;
        lemma_fundamental_div_mod(l - i - 1, n);
        assert(j <= q) by (nonlinear_arith)
            requires
                n >= 1 && j * n <= l - 1 - i && l - i - 1 == n * q + r && 0 <= r < n && j >= 0
                    && q >= 0;
    }
}

/// Items of one slot keep their merged relative order: of two merged
/// positions routed to the same slot, the earlier one lands at the smaller
/// place in that slot.
pub proof fn lemma_round_robin_keeps_order(n: int, p1: int, p2: int)
    requires
        1 <= n,
        0 <= p1 < p2,
        p1 % n == p2 % n,
    ensures
        p1 / n < p2 / n,
{
    lemma_fundamental_div_mod(p1, n);
    lemma_fundamental_div_mod(p2, n);
    assert(p1 / n < p2 / n) by (nonlinear_arith)
        requires
            n >= 1 && p1 == n * (p1 / n) + p1 % n && p2 == n * (p2 / n) + p2 % n && p1 < p2 && p1
                % n == p2 % n && 0 <= p1 % n < n && 0 <= p2 % n < n;
}

/// The round-robin split is one arrival schedule: slot `i` sees exactly
/// the items that the schedule `p % n` attributes to branch `i`.
proof fn lemma_rr_channel_is_branch_view(s: Seq<BlockItem>, n: int, i: int)
    requires
        1 <= n,
    ensures
        rr_channel(s, n, i) == crate::fanin::branch_view(
            s,
            Seq::new(s.len(), |p: int| p % n),
            i,
        ),
    decreases s.len(),
{
    let sched = Seq::new(s.len(), |p: int| p % n);
    if s.len() == 0 {
        assert(rr_channel(s, n, i) =~= crate::fanin::branch_view(s, sched, i));
    } else {
        lemma_rr_channel_is_branch_view(s.drop_last(), n, i);
        assert(sched.drop_last() =~= Seq::new(s.drop_last().len(), |p: int| p % n));
        assert(sched.last() == (s.len() - 1) % n);
    }
}

/// Fan-out completeness: over all `n` output slots, the round-robin split
/// delivers exactly the items of the merged stream — none dropped, none
/// duplicated.
pub proof fn lemma_round_robin_complete(s: Seq<BlockItem>, n: int)
    requires
        1 <= n,
    ensures
        s.to_multiset() == crate::fanin::union_of(
            Seq::new(n as nat, |i: int| rr_channel(s, n, i)),
        ),
{
    let sched = Seq::new(s.len(), |p: int| p % n);
    assert forall|p: int| 0 <= p < sched.len() implies 0 <= #[trigger] sched[p] < n by {
        assert(0 <= p % n < n) by (nonlinear_arith)
            requires n >= 1 && p >= 0;
    }
    assert forall|i: int| 0 <= i < n implies #[trigger] crate::fanin::branch_view(s, sched, i)
        == Seq::new(n as nat, |k: int| rr_channel(s, n, k))[i] by {
        lemma_rr_channel_is_branch_view(s, n, i);
    }
    crate::fanin::lemma_fan_in_complete(s, sched, Seq::new(n as nat, |i: int| rr_channel(s, n, i)));
}

/// The distributor's per-item routing rule: the item the arrival counter
/// stands at goes to output slot `counter % n`.
pub fn route_target(counter: usize, n: usize) -> (i: usize)
    requires
        1 <= n,
    ensures
        i == counter as int % n as int,
        i < n,
{
    counter % n
}

/// Sequential model of the fan-out distributor: splits a merged stream over
/// `n` output slots by the round-robin rule, each slot receiving exactly
/// the items of its congruence class of merged positions, in merged order.
pub fn distribute(items: &Vec<BlockItem>, n: usize) -> (out: Vec<Vec<BlockItem>>)
    requires
        1 <= n,
    ensures
        out@.len() == n,
        forall|i: int| 0 <= i < n ==> #[trigger] out@[i]@ == rr_channel(items@, n as int, i),
{
    let mut out: Vec<Vec<BlockItem>> = Vec::new();
    let mut i: usize = 0;
    while i < n
        invariant
            1 <= n,
            i <= n,
            out@.len() == i,
            forall|k: int| 0 <= k < i ==> #[trigger] out@[k]@ == rr_channel(items@, n as int, k),
        decreases n - i,
    {
        let mut slot: Vec<BlockItem> = Vec::new();
        let mut p: usize = 0;
        while p < items.len()
            invariant
                1 <= n,
                i < n,
                p <= items.len(),
                slot@ == rr_channel(items@.take(p as int), n as int, i as int),
            decreases items.len() - p,
        {
            proof {
                assert(items@.take(p + 1).drop_last() =~= items@.take(p as int));
                assert(items@.take(p + 1).last() == items@[p as int]);
            }
            if p % n == i {
                slot.push(items[p]);
            }
            p += 1;
        }
        proof {
            assert(items@.take(items@.len() as int) =~= items@);
        }
        out.push(slot);
        i += 1;
    }
    out
}

} // verus!
