//! Choosing items from a sequence by their priority.

use vstd::prelude::*;

use super::{HasPriority, Priority};

verus! {

/// The rank of an item's priority.
pub open spec fn rank_of<T: HasPriority>(x: T) -> int {
    x.spec_priority().rank()
}

/// The rank of the highest priority in `s`, or `-1` when `s` is empty (an absent priority
/// orders below every present one).
pub open spec fn top_rank<T: HasPriority>(s: Seq<T>) -> int
    decreases s.len(),
{
    if s.len() == 0 {
        -1
    } else {
        let r = top_rank(s.drop_last());
        let l = rank_of(s.last());
        if l > r {
            l
        } else {
            r
        }
    }
}

/// `i` is the first index of an item of highest priority in `s`.
pub open spec fn is_first_max<T: HasPriority>(s: Seq<T>, i: int) -> bool {
    &&& 0 <= i < s.len()
    &&& forall|j: int| 0 <= j < s.len() ==> rank_of(#[trigger] s[j]) <= rank_of(s[i])
    &&& forall|j: int| 0 <= j < i ==> rank_of(#[trigger] s[j]) < rank_of(s[i])
}

/// `i` is the last index of an item of highest priority in `s`.
pub open spec fn is_last_max<T: HasPriority>(s: Seq<T>, i: int) -> bool {
    &&& 0 <= i < s.len()
    &&& forall|j: int| 0 <= j < s.len() ==> rank_of(#[trigger] s[j]) <= rank_of(s[i])
    &&& forall|j: int| i < j < s.len() ==> rank_of(#[trigger] s[j]) < rank_of(s[i])
}

/// `i` is the first index of an item of default priority in `s`.
pub open spec fn is_first_default<T: HasPriority>(s: Seq<T>, i: int) -> bool {
    &&& 0 <= i < s.len()
    &&& s[i].spec_priority() == Priority::spec_default()
    &&& forall|j: int| 0 <= j < i ==> (#[trigger] s[j]).spec_priority() != Priority::spec_default()
}

/// Some item of `s` has the default priority.
pub open spec fn has_default<T: HasPriority>(s: Seq<T>) -> bool {
    exists|j: int| 0 <= j < s.len() && (#[trigger] s[j]).spec_priority() == Priority::spec_default()
}

/// The first index of an item of highest priority in a non-empty `s`.
pub open spec fn first_max<T: HasPriority>(s: Seq<T>) -> int {
    choose|i: int| is_first_max(s, i)
}

/// The last index of an item of highest priority in a non-empty `s`.
pub open spec fn last_max<T: HasPriority>(s: Seq<T>) -> int {
    choose|i: int| is_last_max(s, i)
}

/// The first index of an item of default priority in `s`, when there is one.
pub open spec fn first_default<T: HasPriority>(s: Seq<T>) -> int {
    choose|i: int| is_first_default(s, i)
}

/// The top rank is the rank of some item, and no item ranks above it.
pub proof fn lemma_top_rank<T: HasPriority>(s: Seq<T>)
    ensures
        forall|j: int| 0 <= j < s.len() ==> rank_of(#[trigger] s[j]) <= top_rank(s),
        s.len() > 0 ==> exists|j: int| 0 <= j < s.len() && rank_of(#[trigger] s[j]) == top_rank(s),
        s.len() == 0 ==> top_rank(s) == -1,
        top_rank(s) >= -1,
    decreases s.len(),
{
    if s.len() > 0 {
        let t = s.drop_last();
        lemma_top_rank(t);
        assert forall|j: int| 0 <= j < s.len() implies rank_of(#[trigger] s[j]) <= top_rank(s) by {
            if j < t.len() {
                assert(s[j] == t[j]);
            }
        }
        if rank_of(s.last()) > top_rank(t) {
            assert(rank_of(s[s.len() - 1]) == top_rank(s));
        } else {
            let j = choose|j: int| 0 <= j < t.len() && rank_of(#[trigger] t[j]) == top_rank(t);
            assert(s[j] == t[j]);
        }
    }
}

/// A non-empty sequence has exactly one first index of highest priority.
pub proof fn lemma_first_max<T: HasPriority>(s: Seq<T>)
    requires
        s.len() > 0,
    ensures
        is_first_max(s, first_max(s)),
        rank_of(s[first_max(s)]) == top_rank(s),
        forall|i: int| #[trigger] is_first_max(s, i) ==> i == first_max(s),
{
    lemma_top_rank(s);
    let k = choose|j: int| 0 <= j < s.len() && rank_of(#[trigger] s[j]) == top_rank(s);
    lemma_first_reaching(s, k);
    let i = choose|i: int| is_first_max(s, i);
    assert forall|i2: int| #[trigger] is_first_max(s, i2) implies i2 == first_max(s) by {
        if i2 < i {
            assert(rank_of(s[i2]) < rank_of(s[i]));
        } else if i < i2 {
            assert(rank_of(s[i]) < rank_of(s[i2]));
        }
    }
}

proof fn lemma_first_reaching<T: HasPriority>(s: Seq<T>, k: int)
    requires
        0 <= k < s.len(),
        forall|j: int| 0 <= j < s.len() ==> rank_of(#[trigger] s[j]) <= rank_of(s[k]),
    ensures
        exists|i: int| is_first_max(s, i),
    decreases k,
{
    if exists|j: int| 0 <= j < k && rank_of(#[trigger] s[j]) == rank_of(s[k]) {
        let j = choose|j: int| 0 <= j < k && rank_of(#[trigger] s[j]) == rank_of(s[k]);
        lemma_first_reaching(s, j);
    } else {
        assert forall|j: int| 0 <= j < k implies rank_of(#[trigger] s[j]) < rank_of(s[k]) by {
            assert(rank_of(s[j]) <= rank_of(s[k]));
        }
        assert(is_first_max(s, k));
    }
}

proof fn lemma_last_reaching<T: HasPriority>(s: Seq<T>, k: int)
    requires
        0 <= k < s.len(),
        forall|j: int| 0 <= j < s.len() ==> rank_of(#[trigger] s[j]) <= rank_of(s[k]),
    ensures
        exists|i: int| is_last_max(s, i),
    decreases s.len() - k,
{
    if exists|j: int| k < j < s.len() && rank_of(#[trigger] s[j]) == rank_of(s[k]) {
        let j = choose|j: int| k < j < s.len() && rank_of(#[trigger] s[j]) == rank_of(s[k]);
        lemma_last_reaching(s, j);
    } else {
        assert forall|j: int| k < j < s.len() implies rank_of(#[trigger] s[j]) < rank_of(s[k]) by {
            assert(rank_of(s[j]) <= rank_of(s[k]));
        }
        assert(is_last_max(s, k));
    }
}

/// A non-empty sequence has exactly one last index of highest priority.
pub proof fn lemma_last_max<T: HasPriority>(s: Seq<T>)
    requires
        s.len() > 0,
    ensures
        is_last_max(s, last_max(s)),
        rank_of(s[last_max(s)]) == top_rank(s),
        forall|i: int| #[trigger] is_last_max(s, i) ==> i == last_max(s),
{
    lemma_top_rank(s);
    let k = choose|j: int| 0 <= j < s.len() && rank_of(#[trigger] s[j]) == top_rank(s);
    lemma_last_reaching(s, k);
    let i = choose|i: int| is_last_max(s, i);
    assert forall|i2: int| #[trigger] is_last_max(s, i2) implies i2 == last_max(s) by {
        if i2 < i {
            assert(rank_of(s[i]) < rank_of(s[i2]));
        } else if i < i2 {
            assert(rank_of(s[i2]) < rank_of(s[i]));
        }
    }
}

/// A sequence holding a default-priority item has exactly one first such index.
pub proof fn lemma_first_default<T: HasPriority>(s: Seq<T>)
    requires
        has_default(s),
    ensures
        is_first_default(s, first_default(s)),
        forall|i: int| #[trigger] is_first_default(s, i) ==> i == first_default(s),
{
    let k = choose|j: int| 0 <= j < s.len() && (#[trigger] s[j]).spec_priority() == Priority::spec_default();
    lemma_first_default_reaching(s, k);
    let i = choose|i: int| is_first_default(s, i);
    assert forall|i2: int| #[trigger] is_first_default(s, i2) implies i2 == first_default(s) by {
        if i2 < i {
            assert(s[i2].spec_priority() != Priority::spec_default());
        } else if i < i2 {
            assert(s[i].spec_priority() != Priority::spec_default());
        }
    }
}

proof fn lemma_first_default_reaching<T: HasPriority>(s: Seq<T>, k: int)
    requires
        0 <= k < s.len(),
        s[k].spec_priority() == Priority::spec_default(),
    ensures
        exists|i: int| is_first_default(s, i),
    decreases k,
{
    if exists|j: int| 0 <= j < k && (#[trigger] s[j]).spec_priority() == Priority::spec_default() {
        let j = choose|j: int| 0 <= j < k && (#[trigger] s[j]).spec_priority() == Priority::spec_default();
        lemma_first_default_reaching(s, j);
    } else {
        assert(is_first_default(s, k));
    }
}

/// Finds the first index of an item of highest priority in a non-empty vector.
pub fn find_first_max<T: HasPriority>(v: &Vec<T>) -> (i: usize)
    requires
        v@.len() > 0,
    ensures
        i as int == first_max(v@),
        is_first_max(v@, i as int),
{
    let mut best: usize = 0;
    let mut best_p = v[0].priority();
    let mut k: usize = 1;
    while k < v.len()
        invariant
            1 <= k <= v@.len(),
            best < k,
            best_p == v@[best as int].spec_priority(),
            forall|j: int| 0 <= j < k ==> rank_of(#[trigger] v@[j]) <= rank_of(v@[best as int]),
            forall|j: int| 0 <= j < best ==> rank_of(#[trigger] v@[j]) < rank_of(v@[best as int]),
        decreases v@.len() - k,
    {
        let p = v[k].priority();
        if best_p.lt(&p) {
            best = k;
            best_p = p;
        }
        k = k + 1;
    }
    proof {
        assert(is_first_max(v@, best as int));
        lemma_first_max(v@);
    }
    best
}

/// Finds the last index of an item of highest priority in a non-empty deque.
pub fn find_last_max<T: HasPriority>(v: &std::collections::VecDeque<T>) -> (i: usize)
    requires
        v@.len() > 0,
    ensures
        i as int == last_max(v@),
        is_last_max(v@, i as int),
{
    let mut best: usize = 0;
    let mut best_p = v[0].priority();
    let mut k: usize = 1;
    while k < v.len()
        invariant
            1 <= k <= v@.len(),
            best < k,
            best_p == v@[best as int].spec_priority(),
            forall|j: int| 0 <= j < k ==> rank_of(#[trigger] v@[j]) <= rank_of(v@[best as int]),
            forall|j: int| best < j < k ==> rank_of(#[trigger] v@[j]) < rank_of(v@[best as int]),
        decreases v@.len() - k,
    {
        let p = v[k].priority();
        if !p.lt(&best_p) {
            best = k;
            best_p = p;
        }
        k = k + 1;
    }
    proof {
        assert(is_last_max(v@, best as int));
        lemma_last_max(v@);
    }
    best
}

/// Finds the first index of an item of default priority in a deque, if there is one.
pub fn find_first_default<T: HasPriority>(v: &std::collections::VecDeque<T>) -> (r: Option<usize>)
    ensures
        r.is_none() <==> !has_default(v@),
        r matches Some(i) ==> i as int == first_default(v@) && is_first_default(v@, i as int),
{
    let mut k: usize = 0;
    while k < v.len()
        invariant
            0 <= k <= v@.len(),
            forall|j: int| 0 <= j < k ==> (#[trigger] v@[j]).spec_priority() != Priority::spec_default(),
        decreases v@.len() - k,
    {
        if v[k].priority().is_default() {
            proof {
                assert(is_first_default(v@, k as int));
                lemma_first_default(v@);
            }
            return Some(k);
        }
        k = k + 1;
    }
    None
}

} // verus!

verus! {

/// The highest priority in a vector, if it is not empty.
pub fn top_priority<T: HasPriority>(v: &Vec<T>) -> (r: Option<Priority>)
    ensures
        match r {
            Some(p) => v@.len() > 0 && p.rank() == top_rank(v@),
            None => v@.len() == 0 && top_rank(v@) == -1,
        },
{
    proof {
        lemma_top_rank(v@);
    }
    if v.len() == 0 {
        None
    } else {
        let i = find_first_max(v);
        proof {
            lemma_first_max(v@);
        }
        Some(v[i].priority())
    }
}

/// Whether the optional priority `a` orders strictly before `b`, an absent priority ordering
/// before every present one.
pub fn opt_lt(a: Option<Priority>, b: Option<Priority>) -> (r: bool)
    ensures
        r == (crate::inbox::state::opt_rank(a) < crate::inbox::state::opt_rank(b)),
{
    match (a, b) {
        (None, None) => false,
        (None, Some(_)) => true,
        (Some(_), None) => false,
        (Some(x), Some(y)) => x.lt(&y),
    }
}

} // verus!
