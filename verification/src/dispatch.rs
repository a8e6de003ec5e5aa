//! Ordering of a passed proposal's execute calls.
//!
//! Dispatch order is a stable ascending sort by `execution_order`: calls
//! with equal ordinals keep their original relative order, so the emitted
//! batch is reproducible. Stability is specified through [`with_order`]:
//! for every ordinal, the subsequence of calls carrying it is exactly the
//! same before and after sorting.

use vstd::prelude::*;

use crate::state::{call_view, calls_views, CallView, ProposalExecuteCall};

verus! {

/// Ordinals never decrease along the sequence.
pub open spec fn sorted_by_order(s: Seq<CallView>) -> bool {
    forall|i: int, j: int| 0 <= i < j < s.len()
        ==> s[i].execution_order <= s[j].execution_order
}

/// The subsequence of calls whose ordinal is `k`, in their original order.
pub open spec fn with_order(s: Seq<CallView>, k: u64) -> Seq<CallView> {
    s.filter(|c: CallView| c.execution_order == k)
}

/// `output` is the stable ascending sort of `input` by `execution_order`:
/// it is sorted, and for every ordinal it carries exactly the calls of
/// `input` with that ordinal, in their original relative order. At most one
/// sequence satisfies this for a given `input`.
pub open spec fn is_stable_sort(input: Seq<CallView>, output: Seq<CallView>) -> bool {
    &&& sorted_by_order(output)
    &&& forall|k: u64| with_order(output, k) == with_order(input, k)
}

/// Filtering a concatenation filters both parts.
proof fn lemma_with_order_add(a: Seq<CallView>, b: Seq<CallView>, k: u64)
    ensures
        with_order(a + b, k) == with_order(a, k) + with_order(b, k),
    decreases b.len(),
{
    reveal(Seq::filter);
    if b.len() == 0 {
        assert(a + b =~= a);
        assert(with_order(b, k) =~= Seq::<CallView>::empty());
        assert(with_order(a, k) + with_order(b, k) =~= with_order(a, k));
    } else {
        lemma_with_order_add(a, b.drop_last(), k);
        let ab = a + b;
        assert(ab.drop_last() =~= a + b.drop_last());
        assert(ab.last() == b.last());
        if b.last().execution_order == k {
            assert(with_order(ab, k) == with_order(a + b.drop_last(), k).push(b.last()));
            assert(with_order(b, k) == with_order(b.drop_last(), k).push(b.last()));
            assert(with_order(a, k) + with_order(b.drop_last(), k).push(b.last())
                =~= (with_order(a, k) + with_order(b.drop_last(), k)).push(b.last()));
        } else {
            assert(with_order(ab, k) == with_order(a + b.drop_last(), k));
            assert(with_order(b, k) == with_order(b.drop_last(), k));
        }
    }
}

/// A sequence none of whose ordinals is `k` filters to nothing.
proof fn lemma_with_order_empty(s: Seq<CallView>, k: u64)
    requires
        forall|j: int| 0 <= j < s.len() ==> s[j].execution_order != k,
    ensures
        with_order(s, k) == Seq::<CallView>::empty(),
    decreases s.len(),
{
    reveal(Seq::filter);
    if s.len() == 0 {
        assert(with_order(s, k) =~= Seq::<CallView>::empty());
    } else {
        lemma_with_order_empty(s.drop_last(), k);
        assert(s.last().execution_order != k);
        assert(with_order(s, k) == with_order(s.drop_last(), k));
    }
}

/// Filtering a singleton keeps or drops its one element.
proof fn lemma_with_order_singleton(x: CallView, k: u64)
    ensures
        with_order(seq![x], k) == (if x.execution_order == k {
            seq![x]
        } else {
            Seq::<CallView>::empty()
        }),
{
    reveal(Seq::filter);
    let s = seq![x];
    assert(s.drop_last() =~= Seq::<CallView>::empty());
    assert(with_order(s.drop_last(), k) =~= Seq::<CallView>::empty());
    if x.execution_order == k {
        assert(with_order(s, k) == with_order(s.drop_last(), k).push(x));
        assert(with_order(s.drop_last(), k).push(x) =~= seq![x]);
    }
}

/// Moving the call at `i` back to position `p`, jumping only over calls
/// with strictly larger ordinals, never changes which calls carry each
/// ordinal nor their relative order.
proof fn lemma_stable_move(s: Seq<CallView>, p: int, i: int)
    requires
        0 <= p < i < s.len(),
        forall|j: int| p <= j < i ==> s[j].execution_order > s[i].execution_order,
    ensures
        forall|k: u64| with_order(s.remove(i).insert(p, s[i]), k) == with_order(s, k),
{
    let x = s[i];
    let a = s.subrange(0, p);
    let mid = s.subrange(p, i);
    let b = s.subrange(i + 1, s.len() as int);
    let t = s.remove(i).insert(p, x);
    assert(s =~= a + (mid + (seq![x] + b)));
    assert(t =~= a + (seq![x] + (mid + b)));
    assert forall|k: u64| with_order(t, k) == with_order(s, k) by {
        lemma_with_order_add(a, mid + (seq![x] + b), k);
        lemma_with_order_add(mid, seq![x] + b, k);
        lemma_with_order_add(seq![x], b, k);
        lemma_with_order_add(a, seq![x] + (mid + b), k);
        lemma_with_order_add(seq![x], mid + b, k);
        lemma_with_order_add(mid, b, k);
        lemma_with_order_singleton(x, k);
        if k == x.execution_order {
            lemma_with_order_empty(mid, k);
            assert(with_order(s, k) =~= with_order(a, k) + (seq![x] + with_order(b, k)));
            assert(with_order(t, k) =~= with_order(a, k) + (seq![x] + with_order(b, k)));
        } else {
            assert(with_order(s, k)
                =~= with_order(a, k) + (with_order(mid, k) + with_order(b, k)));
            assert(with_order(t, k)
                =~= with_order(a, k) + (with_order(mid, k) + with_order(b, k)));
        }
    }
}

/// A sequence with an element of ordinal `k` filters to something.
proof fn lemma_with_order_mem(s: Seq<CallView>, i: int)
    requires
        0 <= i < s.len(),
    ensures
        with_order(s, s[i].execution_order).len() > 0,
    decreases s.len(),
{
    reveal(Seq::filter);
    if i == s.len() - 1 {
        assert(with_order(s, s[i].execution_order)
            == with_order(s.drop_last(), s[i].execution_order).push(s[i]));
    } else {
        lemma_with_order_mem(s.drop_last(), i);
        assert(s.drop_last()[i] == s[i]);
        if s.last().execution_order == s[i].execution_order {
            assert(with_order(s, s[i].execution_order)
                == with_order(s.drop_last(), s[i].execution_order).push(s.last()));
        } else {
            assert(with_order(s, s[i].execution_order)
                == with_order(s.drop_last(), s[i].execution_order));
        }
    }
}

/// A nonempty filter comes from some element with that ordinal.
proof fn lemma_with_order_mem_rev(s: Seq<CallView>, k: u64)
    requires
        with_order(s, k).len() > 0,
    ensures
        exists|i: int| 0 <= i < s.len() && s[i].execution_order == k,
    decreases s.len(),
{
    reveal(Seq::filter);
    if s.len() == 0 {
    } else if s.last().execution_order == k {
        assert(s[s.len() - 1].execution_order == k);
    } else {
        assert(with_order(s, k) == with_order(s.drop_last(), k));
        lemma_with_order_mem_rev(s.drop_last(), k);
        let i = choose|i: int| 0 <= i < s.drop_last().len()
            && s.drop_last()[i].execution_order == k;
        assert(s[i].execution_order == k);
    }
}

/// Peeling the first element off a filter it belongs to.
proof fn lemma_with_order_front(s: Seq<CallView>, k: u64)
    requires
        s.len() > 0,
    ensures
        s[0].execution_order == k
            ==> with_order(s, k) == seq![s[0]] + with_order(s.drop_first(), k),
        s[0].execution_order != k ==> with_order(s, k) == with_order(s.drop_first(), k),
{
    assert(s =~= seq![s[0]] + s.drop_first());
    lemma_with_order_add(seq![s[0]], s.drop_first(), k);
    lemma_with_order_singleton(s[0], k);
    if s[0].execution_order != k {
        assert(Seq::<CallView>::empty() + with_order(s.drop_first(), k)
            =~= with_order(s.drop_first(), k));
    }
}

/// The stable-sort specification pins the dispatch order uniquely: two
/// sequences that are both stable sorts of the same batch are equal. In
/// particular, "ties keep their original relative order" leaves no freedom
/// at all in how a batch is dispatched.
pub proof fn lemma_stable_sort_unique(input: Seq<CallView>, o1: Seq<CallView>, o2: Seq<CallView>)
    requires
        is_stable_sort(input, o1),
        is_stable_sort(input, o2),
    ensures
        o1 == o2,
    decreases o1.len(),
{
    if o1.len() == 0 {
        if o2.len() > 0 {
            let k = o2[0].execution_order;
            lemma_with_order_mem(o2, 0);
            assert(with_order(o1, k) == with_order(input, k));
            assert(with_order(o2, k) == with_order(input, k));
            assert(with_order(o1, k).len() == 0) by {
                reveal(Seq::filter);
            }
            assert(false);
        }
        assert(o1 =~= o2);
    } else {
        // both heads carry the least ordinal of the batch, and are the
        // first element of its filter
        let k1 = o1[0].execution_order;
        if o2.len() == 0 {
            lemma_with_order_mem(o1, 0);
            assert(with_order(o2, k1).len() == 0) by {
                reveal(Seq::filter);
            }
            assert(false);
        }
        let k2 = o2[0].execution_order;
        lemma_with_order_mem(o1, 0);
        lemma_with_order_mem(o2, 0);
        if k1 != k2 {
            lemma_with_order_mem_rev(o1, k2);
            let i = choose|i: int| 0 <= i < o1.len() && o1[i].execution_order == k2;
            assert(k1 <= k2);
            lemma_with_order_mem_rev(o2, k1);
            let j = choose|j: int| 0 <= j < o2.len() && o2[j].execution_order == k1;
            assert(k2 <= k1);
            assert(false);
        }
        lemma_with_order_front(o1, k1);
        lemma_with_order_front(o2, k1);
        assert(o1[0] == with_order(o1, k1)[0]);
        assert(o2[0] == with_order(o2, k1)[0]);
        assert(o1[0] == o2[0]);

        // the tails are stable sorts of one another
        let t1 = o1.drop_first();
        let t2 = o2.drop_first();
        assert forall|k: u64| with_order(t1, k) == with_order(t2, k) by {
            lemma_with_order_front(o1, k);
            lemma_with_order_front(o2, k);
            if k == k1 {
                assert(seq![o1[0]] + with_order(t1, k) == seq![o2[0]] + with_order(t2, k));
                assert(with_order(t1, k)
                    =~= (seq![o1[0]] + with_order(t1, k)).drop_first());
                assert(with_order(t2, k)
                    =~= (seq![o2[0]] + with_order(t2, k)).drop_first());
            }
        }
        assert(sorted_by_order(t1)) by {
            assert forall|a: int, b: int| 0 <= a < b < t1.len()
                implies t1[a].execution_order <= t1[b].execution_order by {
                assert(t1[a] == o1[a + 1] && t1[b] == o1[b + 1]);
            }
        }
        assert(sorted_by_order(t2)) by {
            assert forall|a: int, b: int| 0 <= a < b < t2.len()
                implies t2[a].execution_order <= t2[b].execution_order by {
                assert(t2[a] == o2[a + 1] && t2[b] == o2[b + 1]);
            }
        }
        lemma_stable_sort_unique(t1, t1, t2);
        assert(o1.len() == o2.len());
        assert forall|i: int| 0 <= i < o1.len() implies o1[i] == o2[i] by {
            if i > 0 {
                assert(o1[i] == t1[i - 1]);
                assert(o2[i] == t2[i - 1]);
            }
        }
        assert(o1 =~= o2);
    }
}

/// Sorts a batch of execute calls into dispatch order: a stable ascending
/// insertion sort by `execution_order`.
pub fn sort_execute_calls(calls: Vec<ProposalExecuteCall>) -> (r: Vec<ProposalExecuteCall>)
    ensures
        is_stable_sort(calls_views(calls@), calls_views(r@)),
        r@.len() == calls@.len(),
{
    let mut v = calls;
    let ghost orig = v@;
    if v.len() <= 1 {
        proof {
            assert(calls_views(v@) =~= calls_views(orig));
        }
        return v;
    }
    let mut i: usize = 1;
    while i < v.len()
        invariant
            1 <= i <= v@.len(),
            v@.len() == orig.len(),
            forall|a: int, b: int| 0 <= a < b < i
                ==> v@[a].execution_order <= v@[b].execution_order,
            forall|k: u64| with_order(calls_views(v@), k) == with_order(calls_views(orig), k),
        decreases v@.len() - i,
    {
        let key = v[i].execution_order;
        let mut p: usize = i;
        while p > 0 && v[p - 1].execution_order > key
            invariant
                p <= i,
                i < v@.len(),
                key == v@[i as int].execution_order,
                forall|j: int| p <= j < i ==> v@[j].execution_order > key,
            decreases p,
        {
            p = p - 1;
        }
        if p < i {
            let ghost w0 = v@;
            let c = v.remove(i);
            v.insert(p, c);
            proof {
                let iw = i as int;
                let pw = p as int;
                assert(v@ =~= w0.remove(iw).insert(pw, w0[iw]));
                assert(calls_views(v@)
                    =~= calls_views(w0).remove(iw).insert(pw, call_view(w0[iw])));
                lemma_stable_move(calls_views(w0), pw, iw);
                // the prefix through `i` is sorted again
                assert forall|a: int, b: int| 0 <= a < b < i + 1
                    implies v@[a].execution_order <= v@[b].execution_order by {
                    if b == pw {
                        assert(w0[pw - 1].execution_order <= key);
                        if a < pw - 1 {
                            assert(w0[a].execution_order <= w0[pw - 1].execution_order);
                        }
                    } else if a == pw && b > pw {
                        assert(v@[b] == w0[b - 1]);
                    } else if a < pw && b > pw {
                        assert(v@[a] == w0[a] && v@[b] == w0[b - 1]);
                    } else if a > pw && b > pw {
                        assert(v@[a] == w0[a - 1] && v@[b] == w0[b - 1]);
                    }
                }
            }
        } else {
            proof {
                assert forall|a: int, b: int| 0 <= a < b < i + 1
                    implies v@[a].execution_order <= v@[b].execution_order by {
                    if b == i as int {
                        assert(v@[i as int - 1].execution_order <= key);
                        if a < i as int - 1 {
                            assert(v@[a].execution_order <= v@[i as int - 1].execution_order);
                        }
                    }
                }
            }
        }
        i = i + 1;
    }
    proof {
        assert forall|a: int, b: int|
            0 <= a < b < calls_views(v@).len()
            implies calls_views(v@)[a].execution_order
                <= calls_views(v@)[b].execution_order by {
            assert(calls_views(v@)[a] == call_view(v@[a]));
            assert(calls_views(v@)[b] == call_view(v@[b]));
        }
    }
    v
}

} // verus!
