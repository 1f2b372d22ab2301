//! Ordering time-stamped items: a stable sort by time stamp.
use vstd::prelude::*;

verus! {

/// An item that carries a time stamp in microseconds.
pub trait Timed {
    spec fn at(&self) -> u64;

    fn time(&self) -> (r: u64)
        ensures
            r == self.at(),
    ;
}

/// The number of leading items of `s` stamped no later than `k`: where an
/// item stamped `k` goes so that it follows every item with the same stamp.
pub open spec fn insert_pos<T: Timed>(s: Seq<T>, k: u64) -> nat
    decreases s.len(),
{
    if s.len() == 0 {
        0
    } else if s[0].at() <= k {
        1 + insert_pos(s.drop_first(), k)
    } else {
        0
    }
}

/// `s` ordered by time stamp, items with equal stamps kept in their order.
pub open spec fn sorted_by_time<T: Timed>(s: Seq<T>) -> Seq<T>
    decreases s.len(),
{
    if s.len() == 0 {
        s
    } else {
        let rest = sorted_by_time(s.drop_last());
        rest.insert(insert_pos(rest, s.last().at()) as int, s.last())
    }
}

/// Microseconds from the previous item of `s` to item `i` (zero for the first).
pub open spec fn gap<T: Timed>(s: Seq<T>, i: int) -> int {
    if i == 0 {
        0
    } else {
        s[i].at() - s[i - 1].at()
    }
}

pub open spec fn is_time_ordered<T: Timed>(s: Seq<T>) -> bool {
    forall|i: int, j: int| 0 <= i <= j < s.len() ==> s[i].at() <= s[j].at()
}

proof fn lemma_insert_pos<T: Timed>(s: Seq<T>, k: u64)
    ensures
        insert_pos(s, k) <= s.len(),
        forall|i: int| 0 <= i < insert_pos(s, k) ==> s[i].at() <= k,
        insert_pos(s, k) < s.len() ==> s[insert_pos(s, k) as int].at() > k,
    decreases s.len(),
{
    if s.len() > 0 && s[0].at() <= k {
        lemma_insert_pos(s.drop_first(), k);
        assert forall|i: int| 0 <= i < insert_pos(s, k) implies s[i].at() <= k by {
            if i > 0 {
                assert(s[i] == s.drop_first()[i - 1]);
            }
        }
    }
}

proof fn lemma_insert_pos_at<T: Timed>(s: Seq<T>, k: u64, j: int)
    requires
        0 <= j <= s.len(),
        forall|i: int| 0 <= i < j ==> s[i].at() <= k,
        j < s.len() ==> s[j].at() > k,
    ensures
        insert_pos(s, k) == j,
    decreases s.len(),
{
    if j > 0 {
        assert forall|i: int| 0 <= i < j - 1 implies s.drop_first()[i].at() <= k by {
            assert(s.drop_first()[i] == s[i + 1]);
        }
        lemma_insert_pos_at(s.drop_first(), k, j - 1);
    }
}

/// The stable sort orders by time stamp and keeps the length.
pub proof fn lemma_sorted_by_time<T: Timed>(s: Seq<T>)
    ensures
        sorted_by_time(s).len() == s.len(),
        is_time_ordered(sorted_by_time(s)),
    decreases s.len(),
{
    if s.len() > 0 {
        let rest = sorted_by_time(s.drop_last());
        lemma_sorted_by_time(s.drop_last());
        let k = s.last().at();
        lemma_insert_pos(rest, k);
        let p = insert_pos(rest, k) as int;
        let r = rest.insert(p, s.last());
        assert forall|i: int, j: int| 0 <= i <= j < r.len() implies r[i].at() <= r[j].at() by {
            if i < p && j > p {
                assert(r[i] == rest[i]);
                assert(r[j] == rest[j - 1]);
            } else if i < p && j == p {
                assert(r[i] == rest[i]);
            } else if i == p && j > p {
                assert(r[j] == rest[j - 1]);
                assert(rest[p].at() <= rest[j - 1].at());
            } else if i > p {
                assert(r[i] == rest[i - 1]);
                assert(r[j] == rest[j - 1]);
            } else if j < p {
                assert(r[i] == rest[i]);
                assert(r[j] == rest[j]);
            }
        }
    }
}

/// Sorts `v` by time stamp; items with equal stamps keep their order.
pub fn sort_by_time<T: Timed>(v: Vec<T>) -> (r: Vec<T>)
    ensures
        r@ == sorted_by_time(v@),
{
    let ghost orig = v@;
    let total = v.len();
    let mut rest = v;
    let mut out: Vec<T> = Vec::new();
    let mut taken: usize = 0;
    assert(orig.subrange(0, 0) =~= Seq::<T>::empty());
    while rest.len() > 0
        invariant
            taken + rest@.len() == orig.len(),
            orig.len() == total,
            rest@ == orig.subrange(taken as int, orig.len() as int),
            out@ == sorted_by_time(orig.subrange(0, taken as int)),
        decreases rest@.len(),
    {
        assert(rest@[0] == orig[taken as int]);
        let x = rest.remove(0);
        let k = x.time();
        let mut j: usize = 0;
        while j < out.len() && out[j].time() <= k
            invariant
                j <= out@.len(),
                forall|i: int| 0 <= i < j ==> out@[i].at() <= k,
            decreases out@.len() - j,
        {
            j += 1;
        }
        proof {
            lemma_insert_pos_at(out@, k, j as int);
            let pre = orig.subrange(0, taken + 1);
            assert(pre.drop_last() =~= orig.subrange(0, taken as int));
            assert(pre.last() == x);
        }
        out.insert(j, x);
        taken += 1;
        assert(rest@ =~= orig.subrange(taken as int, orig.len() as int));
    }
    assert(orig.subrange(0, taken as int) =~= orig);
    out
}

} // verus!

verus! {

impl Timed for (u64, usize) {
    open spec fn at(&self) -> u64 {
        self.0
    }

    fn time(&self) -> (r: u64) {
        self.0
    }
}

} // verus!

verus! {

/// The stable sort holds only items of its input.
pub proof fn lemma_sorted_elements<T: Timed>(s: Seq<T>, j: int)
    requires
        0 <= j < sorted_by_time(s).len(),
    ensures
        exists|i: int| 0 <= i < s.len() && s[i] == #[trigger] sorted_by_time(s)[j],
    decreases s.len(),
{
    lemma_sorted_by_time(s);
    let rest = sorted_by_time(s.drop_last());
    lemma_sorted_by_time(s.drop_last());
    let p = insert_pos(rest, s.last().at()) as int;
    lemma_insert_pos(rest, s.last().at());
    if j == p {
        assert(s[s.len() - 1] == sorted_by_time(s)[j]);
    } else {
        let jj = if j < p { j } else { j - 1 };
        lemma_sorted_elements(s.drop_last(), jj);
        let i = choose|i: int| 0 <= i < s.drop_last().len() && s.drop_last()[i] == sorted_by_time(s.drop_last())[jj];
        assert(s[i] == sorted_by_time(s)[j]);
    }
}

} // verus!
