use crate::block::BlockItem;
use vstd::multiset::Multiset;
use vstd::prelude::*;

verus! {

/// What one fan-in branch forwards into the shared channel, out of the
/// items its upstream produces: every item up to and including the first
/// error, after which the branch stops pulling.
pub open spec fn branch_forwarded(s: Seq<BlockItem>) -> Seq<BlockItem>
    decreases s.len(),
{
    if s.len() == 0 {
        Seq::empty()
    } else if s.first() is Err {
        seq![s.first()]
    } else {
        seq![s.first()] + branch_forwarded(s.drop_first())
    }
}

/// No item of the stream is an in-band failure.
pub open spec fn error_free(s: Seq<BlockItem>) -> bool {
    forall|k: int| 0 <= k < s.len() ==> s[k] is Ok
}

/// An error-free upstream is forwarded whole: nothing dropped, nothing
/// added, order kept.
pub proof fn lemma_error_free_branch_forwards_all(s: Seq<BlockItem>)
    requires
        error_free(s),
    ensures
        branch_forwarded(s) == s,
    decreases s.len(),
{
    if s.len() == 0 {
        assert(branch_forwarded(s) =~= s);
    } else {
        assert(s[0] is Ok);
        lemma_error_free_branch_forwards_all(s.drop_first());
        assert(seq![s.first()] + s.drop_first() =~= s);
    }
}

/// A branch goes quiet after a failure: it forwards the items before the
/// first error, then that one error, then nothing more.
pub proof fn lemma_branch_stops_after_error(s: Seq<BlockItem>, k: int)
    requires
        0 <= k < s.len(),
        s[k] is Err,
        forall|j: int| 0 <= j < k ==> s[j] is Ok,
    ensures
        branch_forwarded(s) == s.take(k + 1),
    decreases k,
{
    if k == 0 {
        assert(branch_forwarded(s) =~= s.take(1));
    } else {
        assert(s[0] is Ok);
        let rest = s.drop_first();
        assert(rest[k - 1] is Err);
        assert(forall|j: int| 0 <= j < k - 1 ==> rest[j] is Ok);
        lemma_branch_stops_after_error(rest, k - 1);
        assert(seq![s.first()] + rest.take(k) =~= s.take(k + 1));
    }
}

/// The branch pump's per-item decision: the item is always forwarded, and
/// the branch keeps pulling exactly when the item was a success.
pub fn branch_continues(item: &BlockItem) -> (r: bool)
    ensures
        r == (*item is Ok),
{
    item.is_ok()
}

/// Sequential model of one fan-in branch task: given everything its
/// upstream would produce, the items the branch forwards into the shared
/// channel.
pub fn pump_branch(items: &Vec<BlockItem>) -> (fwd: Vec<BlockItem>)
    ensures
        fwd@ == branch_forwarded(items@),
{
    let mut fwd: Vec<BlockItem> = Vec::new();
    let mut p: usize = 0;
    while p < items.len()
        invariant
            p <= items.len(),
            fwd@ == items@.take(p as int),
            error_free(items@.take(p as int)),
        decreases items.len() - p,
    {
        let item = items[p];
        fwd.push(item);
        proof {
            assert(items@.take(p + 1).drop_last() =~= items@.take(p as int));
            assert(fwd@ =~= items@.take(p + 1));
        }
        if !branch_continues(&item) {
            proof {
                assert forall|j: int| 0 <= j < p implies items@[j] is Ok by {
                    assert(items@.take(p as int)[j] == items@[j]);
                }
                lemma_branch_stops_after_error(items@, p as int);
            }
            return fwd;
        }
        proof {
            assert(error_free(items@.take(p + 1))) by {
                assert forall|k: int| 0 <= k < p + 1 implies (#[trigger] items@.take(p + 1)[k])
                    is Ok by {
                    if k < p {
                        assert(items@.take(p as int)[k] == items@.take(p + 1)[k]);
                    }
                }
            }
        }
        p += 1;
    }
    proof {
        assert(items@.take(items@.len() as int) =~= items@);
        lemma_error_free_branch_forwards_all(items@);
    }
    fwd
}

/// The subsequence of the merged stream that branch `b` contributed, under
/// arrival schedule `sched`: `sched[p]` names the branch that delivered the
/// item at merged position `p`.
pub open spec fn branch_view(merged: Seq<BlockItem>, sched: Seq<int>, b: int) -> Seq<BlockItem>
    decreases merged.len(),
{
    if merged.len() == 0 || sched.len() != merged.len() {
        Seq::empty()
    } else {
        let rest = branch_view(merged.drop_last(), sched.drop_last(), b);
        if sched.last() == b {
            rest.push(merged.last())
        } else {
            rest
        }
    }
}

/// `merged` is a fan-in of `branches`: some arrival schedule interleaves
/// exactly the branches' items, each branch kept in its own order.
pub open spec fn is_fan_in(
    merged: Seq<BlockItem>,
    sched: Seq<int>,
    branches: Seq<Seq<BlockItem>>,
) -> bool {
    &&& sched.len() == merged.len()
    &&& forall|p: int| 0 <= p < sched.len() ==> 0 <= #[trigger] sched[p] < branches.len()
    &&& forall|b: int|
        0 <= b < branches.len() ==> #[trigger] branch_view(merged, sched, b) == branches[b]
}

/// The items of all branches thrown together, as a multiset.
pub open spec fn union_of(branches: Seq<Seq<BlockItem>>) -> Multiset<BlockItem>
    decreases branches.len(),
{
    if branches.len() == 0 {
        Multiset::empty()
    } else {
        union_of(branches.drop_last()).add(branches.last().to_multiset())
    }
}

proof fn lemma_union_of_empties(vs: Seq<Seq<BlockItem>>)
    requires
        forall|b: int| 0 <= b < vs.len() ==> #[trigger] vs[b].len() == 0,
    ensures
        union_of(vs) == Multiset::<BlockItem>::empty(),
    decreases vs.len(),
{
    broadcast use vstd::seq_lib::group_to_multiset_ensures;

    if vs.len() == 0 {
    } else {
        lemma_union_of_empties(vs.drop_last());
        assert(vs.last().to_multiset().len() == 0);
        assert(union_of(vs) =~= Multiset::<BlockItem>::empty());
    }
}

proof fn lemma_union_of_update_push(vs: Seq<Seq<BlockItem>>, b: int, x: BlockItem)
    requires
        0 <= b < vs.len(),
    ensures
        union_of(vs.update(b, vs[b].push(x))) == union_of(vs).insert(x),
    decreases vs.len(),
{
    broadcast use vstd::seq_lib::group_to_multiset_ensures;

    let vs2 = vs.update(b, vs[b].push(x));
    if b == vs.len() - 1 {
        assert(vs2.drop_last() =~= vs.drop_last());
        assert(vs2.last() == vs[b].push(x));
        assert(vs[b].push(x).to_multiset() =~= vs[b].to_multiset().insert(x));
        assert(union_of(vs.drop_last()).add(vs[b].to_multiset().insert(x)) =~= union_of(
            vs.drop_last(),
        ).add(vs[b].to_multiset()).insert(x));
        assert(vs.last() == vs[b]);
    } else {
        assert(vs2.drop_last() =~= vs.drop_last().update(b, vs.drop_last()[b].push(x)));
        assert(vs2.last() == vs.last());
        lemma_union_of_update_push(vs.drop_last(), b, x);
        assert(union_of(vs.drop_last()).insert(x).add(vs.last().to_multiset()) =~= union_of(
            vs.drop_last(),
        ).add(vs.last().to_multiset()).insert(x));
    }
}

proof fn lemma_merged_multiset(merged: Seq<BlockItem>, sched: Seq<int>, m: int)
    requires
        sched.len() == merged.len(),
        0 <= m,
        forall|p: int| 0 <= p < sched.len() ==> 0 <= #[trigger] sched[p] < m,
    ensures
        merged.to_multiset() == union_of(
            Seq::new(m as nat, |b: int| branch_view(merged, sched, b)),
        ),
    decreases merged.len(),
{
    broadcast use vstd::seq_lib::group_to_multiset_ensures;

    let views = Seq::new(m as nat, |b: int| branch_view(merged, sched, b));
    if merged.len() == 0 {
        assert(forall|b: int| 0 <= b < m ==> #[trigger] views[b].len() == 0);
        lemma_union_of_empties(views);
        assert(merged.to_multiset().len() == 0);
        assert(merged.to_multiset() =~= Multiset::<BlockItem>::empty());
    } else {
        let m0 = merged.drop_last();
        let sc0 = sched.drop_last();
        let x = merged.last();
        let bl = sched.last();
        assert(0 <= bl < m);
        lemma_merged_multiset(m0, sc0, m);
        let views0 = Seq::new(m as nat, |b: int| branch_view(m0, sc0, b));
        assert(views =~= views0.update(bl, views0[bl].push(x))) by {
            assert forall|b: int| 0 <= b < m implies views[b] == views0.update(
                bl,
                views0[bl].push(x),
            )[b] by {
                if b == bl {
                    assert(branch_view(merged, sched, b) == branch_view(m0, sc0, b).push(x));
                } else {
                    assert(branch_view(merged, sched, b) == branch_view(m0, sc0, b));
                }
            }
        }
        lemma_union_of_update_push(views0, bl, x);
        assert(m0.push(x) =~= merged);
        assert(m0.push(x).to_multiset() =~= m0.to_multiset().insert(x));
    }
}

/// Fan-in completeness: whatever arrival order the schedule describes, the
/// merged stream holds exactly the items the branches forwarded — none
/// dropped, none duplicated.
pub proof fn lemma_fan_in_complete(
    merged: Seq<BlockItem>,
    sched: Seq<int>,
    branches: Seq<Seq<BlockItem>>,
)
    requires
        is_fan_in(merged, sched, branches),
    ensures
        merged.to_multiset() == union_of(branches),
{
    lemma_merged_multiset(merged, sched, branches.len() as int);
    assert(Seq::new(branches.len(), |b: int| branch_view(merged, sched, b)) =~= branches);
}

/// Fan-in completeness for error-free upstreams: when no upstream ever
/// fails, each branch forwards its upstream whole, so the merged stream's
/// item multiset is exactly the union of all upstream items.
pub proof fn lemma_fan_in_complete_error_free(
    merged: Seq<BlockItem>,
    sched: Seq<int>,
    upstreams: Seq<Seq<BlockItem>>,
)
    requires
        forall|b: int| 0 <= b < upstreams.len() ==> error_free(#[trigger] upstreams[b]),
        is_fan_in(
            merged,
            sched,
            Seq::new(upstreams.len(), |b: int| branch_forwarded(upstreams[b])),
        ),
    ensures
        merged.to_multiset() == union_of(upstreams),
{
    let forwarded = Seq::new(upstreams.len(), |b: int| branch_forwarded(upstreams[b]));
    assert(forwarded =~= upstreams) by {
        assert forall|b: int| 0 <= b < upstreams.len() implies forwarded[b] == upstreams[b] by {
            lemma_error_free_branch_forwards_all(upstreams[b]);
        }
    }
    lemma_fan_in_complete(merged, sched, upstreams);
}

} // verus!
