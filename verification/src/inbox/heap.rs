//! A binary max-heap optimised for the case where most priorities are the same.
//!
//! The items are kept in an array in heap order: every item but the first is at most the item
//! at its parent's index. `push` sifts the new item up towards the front and `pop` takes the
//! first item, moving the last item into its place and sifting it down past the greater of its
//! children, so that the first item is always a greatest one. The items are ordered by their
//! `Ord` implementation, which orders them totally (see [`total_order`]).

use vstd::multiset::Multiset;
use vstd::prelude::*;
use vstd::std_specs::cmp::{PartialOrdIs, PartialOrdSpec};

verus! {

/// The largest number of items a heap can hold in one allocation.
pub open spec fn max_heap_len() -> int {
    isize::MAX as int / 8
}

/// The index of the parent of the item at index `i > 0`.
pub open spec fn parent(i: int) -> int {
    (i - 1) / 2
}

/// `a` orders at or below `b`.
pub open spec fn at_most<T: PartialOrd>(a: T, b: T) -> bool {
    a.is_le(&b)
}

/// `a` orders above `b`.
pub open spec fn above<T: PartialOrd>(a: T, b: T) -> bool {
    a.is_gt(&b)
}

/// The comparisons of `T` follow its specification and order the values totally, as `Ord`
/// asks of its implementations: any two values are ordered one way or the other, one orders
/// above another exactly when it does not order at or below it, and the order is transitive.
pub open spec fn total_order<T: PartialOrd>() -> bool {
    &&& T::obeys_partial_cmp_spec()
    &&& forall|a: T, b: T| #[trigger] at_most(a, b) || at_most(b, a)
    &&& forall|a: T, b: T| #[trigger] above(a, b) <==> !at_most(a, b)
    &&& forall|a: T, b: T, c: T|
        #![trigger at_most(a, b), at_most(b, c)]
        at_most(a, b) && at_most(b, c) ==> at_most(a, c)
}

/// The integers order totally.
pub proof fn lemma_u64_total_order()
    ensures
        total_order::<u64>(),
{
}

/// Every item of `s` but the first is at most the item at its parent's index.
pub open spec fn heap_ordered<T: PartialOrd>(s: Seq<T>) -> bool {
    forall|i: int| 0 < i < s.len() ==> at_most(s[i], s[#[trigger] parent(i)])
}

/// `s` with the items at `i` and `j` exchanged.
pub open spec fn swap_at<T>(s: Seq<T>, i: int, j: int) -> Seq<T> {
    s.update(i, s[j]).update(j, s[i])
}

/// `x` is in `m` and no item of `m` orders above it.
pub open spec fn is_greatest<T: PartialOrd>(m: Multiset<T>, x: T) -> bool {
    m.contains(x) && forall|y: T| m.contains(y) ==> at_most(y, x)
}

/// A binary max-heap optimised for the case where most priorities are the same.
#[derive(Debug)]
pub struct BinaryHeap<T>(Vec<T>);

impl<T: Ord> BinaryHeap<T> {
    /// The heap holds no more items than one allocation can, in heap order.
    pub closed spec fn wf(&self) -> bool {
        self.0@.len() <= max_heap_len() && heap_ordered(self.0@)
    }
}

impl<T: Ord> View for BinaryHeap<T> {
    type V = Multiset<T>;

    /// The items the heap holds.
    closed spec fn view(&self) -> Multiset<T> {
        self.0@.to_multiset()
    }
}

proof fn lemma_swap_multiset<T>(s: Seq<T>, i: int, j: int)
    requires
        0 <= i < s.len(),
        0 <= j < s.len(),
    ensures
        swap_at(s, i, j).to_multiset() =~= s.to_multiset(),
        swap_at(s, i, j).len() == s.len(),
{
    broadcast use vstd::seq_lib::group_to_multiset_ensures;

    if i != j {
        let t = s.update(i, s[j]);
        assert(t.to_multiset() =~= s.to_multiset().remove(s[i]).insert(s[j]));
        assert(t.update(j, s[i]).to_multiset() =~= t.to_multiset().remove(t[j]).insert(s[i]));
    } else {
        assert(swap_at(s, i, j) =~= s);
    }
}

/// Exchanges the items at `i` and `j`.
fn swap_items<T>(v: &mut Vec<T>, i: usize, j: usize)
    requires
        i < old(v)@.len(),
        j < old(v)@.len(),
    ensures
        final(v)@ == swap_at(old(v)@, i as int, j as int),
{
    if i == j {
        assert(v@ =~= swap_at(v@, i as int, j as int));
        return;
    }
    let ghost s = v@;
    let last = v.len() - 1;
    if j == last || i == last {
        let other = if j == last {
            i
        } else {
            j
        };
        let mut held = v.pop().unwrap();
        v.set_and_swap(other, &mut held);
        v.push(held);
        assert(v@ =~= swap_at(s, i as int, j as int));
    } else {
        let mut held = v.pop().unwrap();
        v.set_and_swap(i, &mut held);
        v.set_and_swap(j, &mut held);
        v.set_and_swap(i, &mut held);
        v.push(held);
        assert(v@ =~= swap_at(s, i as int, j as int));
    }
}

/// In heap order, every item is at most the first one.
proof fn lemma_first_is_greatest<T: PartialOrd>(s: Seq<T>, i: int)
    requires
        total_order::<T>(),
        heap_ordered(s),
        0 <= i < s.len(),
    ensures
        at_most(s[i], s[0]),
    decreases i,
{
    if i == 0 {
        assert(at_most(s[0], s[0]) || at_most(s[0], s[0]));
    } else {
        assert(at_most(s[i], s[parent(i)]));
        lemma_first_is_greatest(s, parent(i));
        assert(at_most(s[parent(i)], s[0]));
    }
}

/// The first item of a non-empty sequence in heap order is a greatest item of its multiset.
proof fn lemma_first_is_greatest_item<T: PartialOrd>(s: Seq<T>)
    requires
        total_order::<T>(),
        heap_ordered(s),
        s.len() > 0,
    ensures
        is_greatest(s.to_multiset(), s[0]),
{
    broadcast use vstd::seq_lib::group_to_multiset_ensures;

    assert(s.contains(s[0]));
    assert forall|y: T| s.to_multiset().contains(y) implies at_most(y, s[0]) by {
        assert(s.contains(y));
        let i = choose|i: int| 0 <= i < s.len() && s[i] == y;
        lemma_first_is_greatest(s, i);
    }
}

/// Items leave a heap from greatest to least: once a greatest item `x` of `m` is removed, a
/// greatest item of what is left orders at most as high as `x`.
pub proof fn law_pops_do_not_increase<T: PartialOrd>(m: Multiset<T>, x: T, y: T)
    requires
        is_greatest(m, x),
        is_greatest(m.remove(x), y),
    ensures
        at_most(y, x),
{
    broadcast use vstd::multiset::group_multiset_axioms;

    assert(m.remove(x).count(y) > 0);
    assert(m.count(y) > 0);
    assert(m.contains(y));
}

/// After a push, a greatest item of the heap orders at least as high as the pushed item and as
/// every item held before.
pub proof fn law_top_after_push<T: PartialOrd>(m: Multiset<T>, item: T, x: T)
    requires
        is_greatest(m.insert(item), x),
    ensures
        at_most(item, x),
        forall|y: T| m.contains(y) ==> at_most(y, x),
{
    broadcast use vstd::multiset::group_multiset_axioms;

    assert(m.insert(item).contains(item));
    assert forall|y: T| m.contains(y) implies at_most(y, x) by {
        assert(m.insert(item).contains(y));
    }
}

impl<T: Ord> BinaryHeap<T> {
    /// An empty heap.
    pub fn new() -> (h: BinaryHeap<T>)
        ensures
            h.wf(),
            h@ =~= Multiset::<T>::empty(),
    {
        let h = BinaryHeap(Vec::new());
        proof {
            broadcast use vstd::seq_lib::group_to_multiset_ensures;

            assert(h.0@ =~= Seq::<T>::empty());
            assert(h.0@.to_multiset().len() == 0);
            vstd::multiset::lemma_multiset_empty_len(h.0@.to_multiset());
        }
        h
    }

    /// Pushes `item`, sifting it up past every smaller item on its way to the front.
    pub fn push(&mut self, item: T)
        requires
            total_order::<T>(),
            old(self).wf(),
            old(self)@.len() < max_heap_len(),
        ensures
            final(self).wf(),
            final(self)@ =~= old(self)@.insert(item),
    {
        let mut v: Vec<T> = Vec::new();
        std::mem::swap(&mut v, &mut self.0);
        let ghost m1 = v@.to_multiset().insert(item);
        let ghost s0 = v@;
        proof {
            broadcast use vstd::seq_lib::group_to_multiset_ensures;

            assert(s0.push(item).to_multiset() =~= m1);
            assert(s0.len() == s0.to_multiset().len());
        }
        let mut node = v.len();
        v.push(item);
        proof {
            assert forall|i: int| 0 < i < v@.len() && i != node implies at_most(v@[i], v@[#[trigger] parent(i)]) by {
                assert(v@[i] == s0[i]);
                assert(at_most(s0[i], s0[parent(i)]));
            }
        }

        while node > 0 && v[node] > v[(node - 1) / 2]
            invariant
                total_order::<T>(),
                node < v@.len(),
                v@.len() <= max_heap_len(),
                v@.to_multiset() == m1,
                forall|i: int| 0 < i < v@.len() && i != node ==> at_most(v@[i], v@[#[trigger] parent(i)]),
                node > 0 ==> forall|i: int|
                    0 < i < v@.len() && #[trigger] parent(i) == node ==> at_most(v@[i], v@[parent(node as int)]),
            decreases node,
        {
            let p = (node - 1) / 2;
            let ghost s = v@;
            proof {
                assert(parent(node as int) == p);
                assert(above(s[node as int], s[p as int]));
                assert(at_most(s[p as int], s[node as int]));
            }
            swap_items(&mut v, node, p);
            proof {
                lemma_swap_multiset(s, node as int, p as int);
                assert forall|i: int| 0 < i < v@.len() && i != p implies at_most(v@[i], v@[#[trigger] parent(i)]) by {
                    let q = parent(i);
                    if i == node {
                    } else if q == node {
                        assert(at_most(s[i], s[p as int]));
                    } else if q == p {
                        assert(at_most(s[i], s[q]));
                        assert(at_most(s[q], s[node as int]));
                    } else {
                        assert(at_most(s[i], s[q]));
                    }
                }
                if p > 0 {
                    let g = parent(p as int);
                    assert(at_most(s[p as int], s[g]));
                    assert forall|i: int| 0 < i < v@.len() && #[trigger] parent(i) == p implies at_most(
                        v@[i],
                        v@[parent(p as int)],
                    ) by {
                        if i != node {
                            assert(at_most(s[i], s[parent(i)]));
                            assert(at_most(s[p as int], s[g]));
                        }
                    }
                }
            }
            node = p;
        }
        proof {
            if node > 0 {
                assert(!above(v@[node as int], v@[parent(node as int)]));
            }
            assert(heap_ordered(v@));
        }
        self.0 = v;
    }

    /// Pops a greatest item; popping an empty heap is a caller error.
    pub fn pop(&mut self) -> (r: Option<T>)
        requires
            total_order::<T>(),
            old(self).wf(),
            old(self)@.len() > 0,
        ensures
            final(self).wf(),
            r matches Some(x) && is_greatest(old(self)@, x) && final(self)@ =~= old(self)@.remove(x),
    {
        let ghost s = self.0@;
        proof {
            broadcast use vstd::seq_lib::group_to_multiset_ensures;

            assert(s.len() == s.to_multiset().len());
            lemma_first_is_greatest_item(s);
        }
        let mut v: Vec<T> = Vec::new();
        std::mem::swap(&mut v, &mut self.0);
        let end = v.len() - 1;
        swap_items(&mut v, 0, end);
        let item = v.pop();
        let ghost first = s[0];
        let ghost m1 = s.to_multiset().remove(first);
        proof {
            broadcast use vstd::seq_lib::group_to_multiset_ensures;

            lemma_swap_multiset(s, 0, end as int);
            let w = swap_at(s, 0, end as int);
            assert(w =~= w.drop_last().push(first));
            assert(v@ == w.drop_last());
            assert(v@.to_multiset() =~= m1);
            assert forall|i: int| 0 < i < v@.len() && parent(i) != 0 implies at_most(v@[i], v@[#[trigger] parent(i)]) by {
                assert(at_most(s[i], s[parent(i)]));
            }
        }

        let len = v.len();
        let mut node: usize = 0;
        loop
            invariant
                total_order::<T>(),
                len == v@.len(),
                len < max_heap_len(),
                node < len || node == 0,
                v@.to_multiset() == m1,
                forall|i: int| 0 < i < len && #[trigger] parent(i) != node ==> at_most(v@[i], v@[parent(i)]),
                node > 0 ==> forall|i: int|
                    0 < i < len && #[trigger] parent(i) == node ==> at_most(v@[i], v@[parent(node as int)]),
            ensures
                len == v@.len(),
                v@.to_multiset() == m1,
                heap_ordered(v@),
            decreases len - node,
        {
            assert(2 * node + 1 < usize::MAX) by {
                assert(isize::MAX as int / 8 > 0);
                assert(node < max_heap_len());
                assert(usize::MAX as int == 2 * (isize::MAX as int) + 1);
            }
            let left = 2 * node + 1;
            if left >= len {
                proof {
                    assert forall|i: int| 0 < i < len implies at_most(v@[i], v@[#[trigger] parent(i)]) by {
                        if parent(i) == node {
                            assert(i >= left);
                        }
                    }
                }
                break;
            }
            let mut child = left;
            if left + 1 < len && v[left + 1] > v[left] {
                child = left + 1;
            }
            proof {
                assert(parent(left as int) == node);
                assert(left + 1 < len ==> parent(left + 1) == node);
                if left + 1 < len {
                    if child == left {
                        assert(!above(v@[left + 1], v@[left as int]));
                    } else {
                        assert(at_most(v@[left as int], v@[left + 1]));
                    }
                }
            }
            if v[child] > v[node] {
                let ghost t = v@;
                proof {
                    assert(at_most(t[node as int], t[child as int]));
                }
                swap_items(&mut v, child, node);
                proof {
                    lemma_swap_multiset(t, child as int, node as int);
                    assert forall|i: int| 0 < i < len && #[trigger] parent(i) != child implies at_most(
                        v@[i],
                        v@[parent(i)],
                    ) by {
                        let q = parent(i);
                        if i == child {
                        } else if q == node {
                            assert(i == left || i == left + 1);
                        } else if i == node {
                            assert(at_most(t[child as int], t[parent(node as int)]));
                        } else {
                            assert(at_most(t[i], t[q]));
                        }
                    }
                    assert forall|i: int| 0 < i < len && #[trigger] parent(i) == child implies at_most(
                        v@[i],
                        v@[parent(child as int)],
                    ) by {
                        assert(at_most(t[i], t[parent(i)]));
                    }
                }
                node = child;
            } else {
                proof {
                    assert(!above(v@[child as int], v@[node as int]));
                    assert(at_most(v@[child as int], v@[node as int]));
                    assert forall|i: int| 0 < i < len implies at_most(v@[i], v@[#[trigger] parent(i)]) by {
                        if parent(i) == node {
                            assert(i == left || i == left + 1);
                            if left + 1 < len {
                                assert(at_most(v@[i], v@[child as int]));
                            }
                        }
                    }
                }
                break;
            }
        }

        self.0 = v;
        item
    }

    /// A greatest item, if there is one.
    pub fn peek(&self) -> (r: Option<&T>)
        requires
            total_order::<T>(),
            self.wf(),
        ensures
            r is None <==> self@.len() == 0,
            r matches Some(x) ==> is_greatest(self@, *x),
    {
        proof {
            broadcast use vstd::seq_lib::group_to_multiset_ensures;

            assert(self.0@.len() == self.0@.to_multiset().len());
            if self.0@.len() > 0 {
                lemma_first_is_greatest_item(self.0@);
            }
        }
        if self.0.len() > 0 {
            Some(&self.0[0])
        } else {
            None
        }
    }
}

} // verus!
