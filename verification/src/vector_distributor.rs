//! Virtual-time fair interleaving of counted values.
//!
//! `distribute` expands a list of `(count, value)` pairs into a flat
//! sequence in which repeated values are spread as evenly as possible.
//! Each distinct value gets a period (total count over its own count)
//! and a virtual time starting at half its period; the value with the
//! smallest virtual time is emitted next, and emission advances its
//! virtual time by its period.  Virtual times are compared exactly, by
//! cross multiplication: after `e` emissions a value of weight `w` has
//! virtual time `(2e+1)*total/(2w)`, so comparisons reduce to integer
//! products with the total cancelled.

use vstd::multiset::Multiset;
use vstd::prelude::*;

verus! {

broadcast use {vstd::multiset::group_multiset_axioms, vstd::seq_lib::group_to_multiset_ensures};

/// One value in the scheduler's working set.
#[derive(Clone, Copy)]
struct PrioItem<T> {
    value: T,
    /// Emissions still owed; always at least one while queued.
    count: usize,
    /// Emissions requested in total; fixes this value's period.
    weight: usize,
}

/// The multiset holding `v` exactly `n` times.
pub open spec fn repeat_value<T>(v: T, n: nat) -> Multiset<T>
    decreases n,
{
    if n == 0 {
        Multiset::empty()
    } else {
        repeat_value(v, (n - 1) as nat).insert(v)
    }
}

/// How often `repeat_value(v, n)` holds a value.
pub proof fn lemma_repeat_value_count<T>(v: T, n: nat, w: T)
    ensures
        repeat_value(v, n).count(w) == if w == v {
            n as int
        } else {
            0
        },
    decreases n,
{
    if n > 0 {
        lemma_repeat_value_count(v, (n - 1) as nat, w);
    }
}

/// All emissions still owed by the queued items, as a multiset.
spec fn heap_ms<T>(s: Seq<PrioItem<T>>) -> Multiset<T>
    decreases s.len(),
{
    if s.len() == 0 {
        Multiset::empty()
    } else {
        heap_ms(s.drop_last()).add(repeat_value(s.last().value, s.last().count as nat))
    }
}

/// Number of emissions still owed by the queued items.
spec fn heap_count<T>(s: Seq<PrioItem<T>>) -> int
    decreases s.len(),
{
    if s.len() == 0 {
        0
    } else {
        heap_count(s.drop_last()) + s.last().count
    }
}

/// The multiset described by a list of `(count, value)` pairs.
pub open spec fn counts_ms<T>(s: Seq<(usize, T)>) -> Multiset<T>
    decreases s.len(),
{
    if s.len() == 0 {
        Multiset::empty()
    } else {
        counts_ms(s.drop_last()).add(repeat_value(s.last().1, s.last().0 as nat))
    }
}

/// The total count described by a list of `(count, value)` pairs.
pub open spec fn counts_total<T>(s: Seq<(usize, T)>) -> int
    decreases s.len(),
{
    if s.len() == 0 {
        0
    } else {
        counts_total(s.drop_last()) + s.last().0
    }
}

/// A queued item owes at least one emission and no more than its
/// weight, which never exceeds the total.
spec fn item_wf<T>(it: PrioItem<T>, total: int) -> bool {
    1 <= it.count && it.count <= it.weight && it.weight <= total
}

proof fn lemma_counts_total_nonneg<T>(s: Seq<(usize, T)>)
    ensures
        counts_total(s) >= 0,
    decreases s.len(),
{
    if s.len() > 0 {
        lemma_counts_total_nonneg(s.drop_last());
    }
}

/// Each entry's count is no more than the total.
proof fn lemma_counts_entry_le<T>(s: Seq<(usize, T)>, i: int)
    requires
        0 <= i < s.len(),
    ensures
        s[i].0 <= counts_total(s),
    decreases s.len(),
{
    lemma_counts_total_nonneg(s.drop_last());
    if i == s.len() - 1 {
    } else {
        lemma_counts_entry_le(s.drop_last(), i);
    }
}

/// Extending a prefix by one entry extends its multiset and total.
proof fn lemma_counts_prefix_step<T>(s: Seq<(usize, T)>, i: int)
    requires
        0 <= i < s.len(),
    ensures
        counts_ms(s.take(i + 1)) == counts_ms(s.take(i)).add(repeat_value(s[i].1, s[i].0 as nat)),
        counts_total(s.take(i + 1)) == counts_total(s.take(i)) + s[i].0,
{
    assert(s.take(i + 1).drop_last() =~= s.take(i));
    assert(s.take(i + 1).last() == s[i]);
}

/// A prefix's total never exceeds the whole list's total.
proof fn lemma_counts_total_prefix_le<T>(s: Seq<(usize, T)>, i: int)
    requires
        0 <= i <= s.len(),
    ensures
        counts_total(s.take(i)) <= counts_total(s),
    decreases s.len() - i,
{
    if i == s.len() {
        assert(s.take(i) =~= s);
    } else {
        lemma_counts_prefix_step(s, i);
        lemma_counts_total_prefix_le(s, i + 1);
    }
}

/// The owed count of a well-formed queue is nonnegative.
proof fn lemma_heap_count_nonneg<T>(s: Seq<PrioItem<T>>, total: int)
    requires
        forall|i: int| 0 <= i < s.len() ==> item_wf(#[trigger] s[i], total),
    ensures
        heap_count(s) >= 0,
    decreases s.len(),
{
    if s.len() > 0 {
        lemma_heap_count_nonneg(s.drop_last(), total);
    }
}

/// Swapping two neighbouring queue entries changes neither the owed
/// multiset nor the owed count.
proof fn lemma_heap_swap<T>(s: Seq<PrioItem<T>>, j: int)
    requires
        0 <= j,
        j + 1 < s.len(),
    ensures
        heap_ms(s.update(j, s[j + 1]).update(j + 1, s[j])) == heap_ms(s),
        heap_count(s.update(j, s[j + 1]).update(j + 1, s[j])) == heap_count(s),
    decreases s.len(),
{
    let s2 = s.update(j, s[j + 1]).update(j + 1, s[j]);
    if j + 1 == s.len() - 1 {
        let p = s.drop_last().drop_last();
        let ma = repeat_value(s[j].value, s[j].count as nat);
        let mb = repeat_value(s[j + 1].value, s[j + 1].count as nat);
        assert(s2.drop_last().drop_last() =~= p);
        assert(s2.last() == s[j] && s2.drop_last().last() == s[j + 1]);
        assert(s.last() == s[j + 1] && s.drop_last().last() == s[j]);
        assert(heap_ms(s2) == heap_ms(s2.drop_last()).add(ma));
        assert(heap_ms(s2.drop_last()) == heap_ms(p).add(mb));
        assert(heap_ms(s) == heap_ms(s.drop_last()).add(mb));
        assert(heap_ms(s.drop_last()) == heap_ms(p).add(ma));
        assert(heap_ms(p).add(mb).add(ma) =~= heap_ms(p).add(ma).add(mb));
        assert(heap_count(s2) == heap_count(s2.drop_last()) + s[j].count);
        assert(heap_count(s2.drop_last()) == heap_count(p) + s[j + 1].count);
        assert(heap_count(s) == heap_count(s.drop_last()) + s[j + 1].count);
        assert(heap_count(s.drop_last()) == heap_count(p) + s[j].count);
    } else {
        assert(s2.drop_last() =~= s.drop_last().update(j, s.drop_last()[j + 1]).update(
            j + 1,
            s.drop_last()[j],
        ));
        assert(s2.last() == s.last());
        lemma_heap_swap(s.drop_last(), j);
    }
}

/// Queue an item, keeping the working set ordered so that the entry
/// with the smallest virtual time sits at the tail.  The insertion
/// walks from the tail toward the head, swapping while the entry being
/// placed has a strictly greater virtual time than its left neighbour,
/// or an equal virtual time and a period no larger.
fn put_on_heap<T: Copy>(heap: &mut Vec<PrioItem<T>>, item: PrioItem<T>, Ghost(total): Ghost<int>)
    requires
        0 <= total <= usize::MAX as int / 4,
        forall|i: int| 0 <= i < old(heap).len() ==> item_wf(#[trigger] old(heap)@[i], total),
        item_wf(item, total),
    ensures
        final(heap)@.len() == old(heap)@.len() + 1,
        forall|i: int| 0 <= i < final(heap).len() ==> item_wf(#[trigger] final(heap)@[i], total),
        heap_ms(final(heap)@) == heap_ms(old(heap)@).add(
            repeat_value(item.value, item.count as nat),
        ),
        heap_count(final(heap)@) == heap_count(old(heap)@) + item.count,
{
    let ghost orig = heap@;
    let mut idx = heap.len();
    heap.push(item);
    proof {
        assert(heap@.drop_last() =~= orig);
    }
    while idx > 0
        invariant
            0 <= total <= usize::MAX as int / 4,
            idx < heap@.len(),
            heap@.len() == orig.len() + 1,
            forall|i: int| 0 <= i < heap@.len() ==> item_wf(#[trigger] heap@[i], total),
            heap_ms(heap@) == heap_ms(orig).add(repeat_value(item.value, item.count as nat)),
            heap_count(heap@) == heap_count(orig) + item.count,
        decreases idx,
    {
        let x = heap[idx];
        let y = heap[idx - 1];
        // emitted counts so far
        let ex = x.weight - x.count;
        let ey = y.weight - y.count;
        proof {
            assert((2 * (ex as int) + 1) * (y.weight as int) <= u128::MAX && 0 <= (2 * (ex as int)
                + 1) * (y.weight as int)) by (nonlinear_arith)
                requires
                    0 <= ex as int <= total,
                    0 <= y.weight as int <= total,
                    0 <= total <= usize::MAX as int / 4,
            ;
            assert((2 * (ey as int) + 1) * (x.weight as int) <= u128::MAX && 0 <= (2 * (ey as int)
                + 1) * (x.weight as int)) by (nonlinear_arith)
                requires
                    0 <= ey as int <= total,
                    0 <= x.weight as int <= total,
                    0 <= total <= usize::MAX as int / 4,
            ;
        }
        // virtual times cross-multiplied: (2e+1)*total/(2w) against
        // each other, with total and the halving cancelled
        let px = (2 * (ex as u128) + 1) * (y.weight as u128);
        let py = (2 * (ey as u128) + 1) * (x.weight as u128);
        // period comparison: a larger weight means a smaller period
        if px > py || (px == py && y.weight <= x.weight) {
            let ghost before = heap@;
            let tmp = heap[idx];
            let prev = heap[idx - 1];
            heap.set(idx, prev);
            heap.set(idx - 1, tmp);
            proof {
                assert(heap@ =~= before.update(idx - 1, before[idx as int]).update(
                    idx as int,
                    before[idx - 1],
                ));
                lemma_heap_swap(before, idx - 1);
            }
        }
        idx = idx - 1;
    }
}

/// Spread counted values evenly: the result holds exactly the multiset
/// the counts describe, reordered so that each value's occurrences
/// approximate its ideal evenly spaced schedule.
pub fn distribute<T: Copy>(counts: &Vec<(usize, T)>) -> (r: Vec<T>)
    requires
        counts_total(counts@) <= usize::MAX as int / 4,
    ensures
        r@.to_multiset() == counts_ms(counts@),
        r@.len() == counts_total(counts@),
{
    let ghost total: int = counts_total(counts@);
    proof {
        lemma_counts_total_nonneg(counts@);
        assert(counts@.take(0) =~= Seq::<(usize, T)>::empty());
    }
    let mut prioheap: Vec<PrioItem<T>> = Vec::new();
    let n = counts.len();
    let mut i: usize = 0;
    while i < n
        invariant
            0 <= total <= usize::MAX as int / 4,
            total == counts_total(counts@),
            n == counts@.len(),
            0 <= i <= n,
            forall|k: int| 0 <= k < prioheap@.len() ==> item_wf(#[trigger] prioheap@[k], total),
            heap_ms(prioheap@) == counts_ms(counts@.take(i as int)),
            heap_count(prioheap@) == counts_total(counts@.take(i as int)),
        decreases n - i,
    {
        let (count, value) = counts[i];
        proof {
            lemma_counts_prefix_step(counts@, i as int);
            lemma_counts_entry_le(counts@, i as int);
        }
        if count > 0 {
            put_on_heap(
                &mut prioheap,
                PrioItem { value, count, weight: count },
                Ghost(total),
            );
        } else {
            proof {
                assert(repeat_value(value, 0) =~= Multiset::<T>::empty());
                assert(heap_ms(prioheap@).add(Multiset::<T>::empty()) =~= heap_ms(prioheap@));
            }
        }
        i = i + 1;
    }
    proof {
        assert(counts@.take(n as int) =~= counts@);
    }
    let mut list: Vec<T> = Vec::new();
    while prioheap.len() > 0
        invariant
            0 <= total <= usize::MAX as int / 4,
            total == counts_total(counts@),
            forall|k: int| 0 <= k < prioheap@.len() ==> item_wf(#[trigger] prioheap@[k], total),
            list@.to_multiset().add(heap_ms(prioheap@)) == counts_ms(counts@),
            list@.len() + heap_count(prioheap@) == counts_total(counts@),
        decreases heap_count(prioheap@),
    {
        proof {
            lemma_heap_count_nonneg(prioheap@.drop_last(), total);
        }
        let ghost before = prioheap@;
        let mut item = prioheap.pop().unwrap();
        list.push(item.value);
        item.count = item.count - 1;
        proof {
            let v = before.last().value;
            let c = before.last().count as nat;
            assert(heap_ms(before) == heap_ms(prioheap@).add(repeat_value(v, c)));
            assert(repeat_value(v, c) == repeat_value(v, (c - 1) as nat).insert(v));
            assert(list@.to_multiset().add(heap_ms(prioheap@).add(repeat_value(v, (c - 1) as nat)))
                =~= counts_ms(counts@));
        }
        if item.count > 0 {
            put_on_heap(&mut prioheap, item, Ghost(total));
        } else {
            proof {
                assert(repeat_value(item.value, 0) =~= Multiset::<T>::empty());
                assert(list@.to_multiset().add(heap_ms(prioheap@)) =~= counts_ms(counts@));
            }
        }
    }
    proof {
        assert(list@.to_multiset().add(heap_ms(prioheap@)) =~= list@.to_multiset());
    }
    list
}

} // verus!
