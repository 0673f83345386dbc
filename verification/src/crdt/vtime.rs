//! Version vectors: one counter for each replica, ordered componentwise.
use crate::crdt::assoc::AssocList;
use crate::utility::{ReplicaId, UWMapItem};
use std::cmp::Ordering;
use vstd::prelude::*;
use vstd::std_specs::cmp::{PartialEqSpecImpl, PartialOrdSpecImpl};

verus! {

/// What a version vector stands for: the counters that are not zero, by
/// replica.
pub type Clock = Map<Seq<char>, u64>;

/// The counter of replica `r`; zero where none is recorded.
pub open spec fn count_of(c: Clock, r: Seq<char>) -> u64 {
    if c.contains_key(r) {
        c[r]
    } else {
        0
    }
}

/// No counter is recorded as zero, so equal counters mean equal maps.
pub open spec fn canonical(c: Clock) -> bool {
    forall|r: Seq<char>| c.contains_key(r) ==> #[trigger] c[r] > 0
}

/// `a <= b`: no replica counts more in `a` than in `b`.
pub open spec fn dominated(a: Clock, b: Clock) -> bool {
    forall|r: Seq<char>|
        #![trigger count_of(a, r)]
        #![trigger count_of(b, r)]
        count_of(a, r) <= count_of(b, r)
}

/// `a < b`: `a <= b` and not `b <= a`.
pub open spec fn strictly_before(a: Clock, b: Clock) -> bool {
    dominated(a, b) && !dominated(b, a)
}

/// The larger of two counters.
pub open spec fn larger(x: u64, y: u64) -> u64 {
    if x >= y {
        x
    } else {
        y
    }
}

/// The componentwise maximum.
pub open spec fn joined(a: Clock, b: Clock) -> Clock {
    Map::new(
        |r: Seq<char>| a.contains_key(r) || b.contains_key(r),
        |r: Seq<char>| larger(count_of(a, r), count_of(b, r)),
    )
}

/// `c` with the counter of `r` raised by one.
pub open spec fn bumped(c: Clock, r: Seq<char>) -> Clock {
    c.insert(r, (count_of(c, r) + 1) as u64)
}

/// How `a` stands to `b`: before, equal, after, or neither.
pub open spec fn clock_order(a: Clock, b: Clock) -> Option<Ordering> {
    if dominated(a, b) && dominated(b, a) {
        Some(Ordering::Equal)
    } else if dominated(a, b) {
        Some(Ordering::Less)
    } else if dominated(b, a) {
        Some(Ordering::Greater)
    } else {
        None
    }
}

/// Two vectors that dominate each other are the same vector.
pub proof fn lemma_dominated_antisymmetric(a: Clock, b: Clock)
    requires
        canonical(a),
        canonical(b),
        dominated(a, b),
        dominated(b, a),
    ensures
        a == b,
{
    assert forall|r: Seq<char>| a.contains_key(r) <==> b.contains_key(r) by {
        assert(count_of(a, r) <= count_of(b, r));
        assert(count_of(b, r) <= count_of(a, r));
    }
    assert forall|r: Seq<char>| a.contains_key(r) implies a[r] == b[r] by {
        assert(count_of(a, r) <= count_of(b, r));
        assert(count_of(b, r) <= count_of(a, r));
    }
    assert(a =~= b);
}

pub proof fn lemma_dominated_reflexive(a: Clock)
    ensures
        dominated(a, a),
{
}

pub proof fn lemma_dominated_transitive(a: Clock, b: Clock, c: Clock)
    requires
        dominated(a, b),
        dominated(b, c),
    ensures
        dominated(a, c),
{
    assert forall|r: Seq<char>| count_of(a, r) <= count_of(c, r) by {
        assert(count_of(a, r) <= count_of(b, r));
        assert(count_of(b, r) <= count_of(c, r));
    }
}

/// The order is antisymmetric: what is before is not after, the two
/// directions mirror each other, and vectors that compare equal are equal.
pub proof fn lemma_order_antisymmetric(a: Clock, b: Clock)
    requires
        canonical(a),
        canonical(b),
    ensures
        clock_order(a, b) == Some(Ordering::Less) <==> clock_order(b, a) == Some(
            Ordering::Greater,
        ),
        clock_order(a, b) == Some(Ordering::Equal) <==> a == b,
        clock_order(a, b) == Some(Ordering::Equal) <==> clock_order(b, a) == Some(
            Ordering::Equal,
        ),
        clock_order(a, b) is None <==> clock_order(b, a) is None,
{
    if dominated(a, b) && dominated(b, a) {
        lemma_dominated_antisymmetric(a, b);
    }
    if a == b {
        lemma_dominated_reflexive(a);
    }
}

/// The order is transitive wherever it relates the vectors: from `a <= b` and
/// `b <= c` follows `a <= c`, strictly if either step is strict.
pub proof fn lemma_order_transitive(a: Clock, b: Clock, c: Clock)
    requires
        clock_order(a, b) == Some(Ordering::Less) || clock_order(a, b) == Some(Ordering::Equal),
        clock_order(b, c) == Some(Ordering::Less) || clock_order(b, c) == Some(Ordering::Equal),
    ensures
        clock_order(a, c) == Some(Ordering::Less) || clock_order(a, c) == Some(Ordering::Equal),
        clock_order(a, b) == Some(Ordering::Less) || clock_order(b, c) == Some(Ordering::Less)
            ==> clock_order(a, c) == Some(Ordering::Less),
{
    lemma_dominated_transitive(a, b, c);
    if dominated(c, a) {
        lemma_dominated_transitive(c, a, b);
        lemma_dominated_transitive(b, c, a);
    }
}

/// The maximum of two vectors is above both, and below whatever is above
/// both.
pub proof fn lemma_joined_is_least_upper_bound(a: Clock, b: Clock, c: Clock)
    ensures
        dominated(a, joined(a, b)),
        dominated(b, joined(a, b)),
        dominated(a, c) && dominated(b, c) ==> dominated(joined(a, b), c),
        canonical(a) && canonical(b) ==> canonical(joined(a, b)),
{
    let j = joined(a, b);
    assert forall|r: Seq<char>| count_of(j, r) == larger(count_of(a, r), count_of(b, r)) by {}
    if dominated(a, c) && dominated(b, c) {
        assert forall|r: Seq<char>| count_of(j, r) <= count_of(c, r) by {
            assert(count_of(a, r) <= count_of(c, r));
            assert(count_of(b, r) <= count_of(c, r));
        }
    }
}

/// `merge(a, b) == merge(b, a)`.
pub proof fn lemma_joined_commutative(a: Clock, b: Clock)
    ensures
        joined(a, b) == joined(b, a),
{
    assert(joined(a, b) =~= joined(b, a));
}

/// `merge(merge(a, b), c) == merge(a, merge(b, c))`.
pub proof fn lemma_joined_associative(a: Clock, b: Clock, c: Clock)
    ensures
        joined(joined(a, b), c) == joined(a, joined(b, c)),
{
    assert(joined(joined(a, b), c) =~= joined(a, joined(b, c)));
}

/// `merge(a, a) == a`.
pub proof fn lemma_joined_idempotent(a: Clock)
    ensures
        joined(a, a) == a,
{
    assert(joined(a, a) =~= a);
}

/// A bump leads strictly upward.
pub proof fn lemma_bumped_is_after(c: Clock, r: Seq<char>)
    requires
        count_of(c, r) < u64::MAX,
    ensures
        strictly_before(c, bumped(c, r)),
        canonical(c) ==> canonical(bumped(c, r)),
{
    let d = bumped(c, r);
    assert forall|x: Seq<char>| count_of(c, x) <= count_of(d, x) by {}
    assert(count_of(d, r) > count_of(c, r));
}

/// A version vector.
pub struct VTime {
    counts: AssocList<String, u64>,
}

impl DeepView for VTime {
    type V = Clock;

    closed spec fn deep_view(&self) -> Clock {
        self.counts.deep_view()
    }
}

impl View for VTime {
    type V = Clock;

    open spec fn view(&self) -> Clock {
        self.deep_view()
    }
}

impl VTime {
    #[verifier::type_invariant]
    spec fn inv(&self) -> bool {
        canonical(self.counts.deep_view())
    }

    /// The vector in which every replica counts zero.
    pub fn zero() -> (v: Self)
        ensures
            v@ == Map::<Seq<char>, u64>::empty(),
    {
        VTime { counts: AssocList::new() }
    }

    /// The counter of `replica_id`.
    pub fn count(&self, replica_id: &ReplicaId) -> (n: u64)
        ensures
            n == count_of(self@, replica_id@),
            canonical(self@),
    {
        proof {
            use_type_invariant(self);
        }
        match self.counts.get(replica_id) {
            Some(n) => *n,
            None => 0,
        }
    }

    /// Whether the counter of `replica_id` can still be raised.
    pub fn can_inc(&self, replica_id: &ReplicaId) -> (b: bool)
        ensures
            b == (count_of(self@, replica_id@) < u64::MAX),
    {
        self.count(replica_id) < u64::MAX
    }

    /// Raises the counter of `replica_id` by one.
    pub fn inc(&mut self, replica_id: ReplicaId)
        requires
            count_of(old(self)@, replica_id@) < u64::MAX,
        ensures
            final(self)@ == bumped(old(self)@, replica_id@),
    {
        proof {
            use_type_invariant(&*self);
            lemma_bumped_is_after(self@, replica_id@);
        }
        let n = self.count(&replica_id);
        let mut counts: AssocList<String, u64> = AssocList::new();
        core::mem::swap(&mut self.counts, &mut counts);
        counts.insert(replica_id, n + 1);
        core::mem::swap(&mut self.counts, &mut counts);
    }

    /// Records `n` as the counter of `replica_id`; zero takes the entry out.
    pub fn set(&mut self, replica_id: ReplicaId, n: u64)
        ensures
            final(self)@ == if n == 0 {
                old(self)@.remove(replica_id@)
            } else {
                old(self)@.insert(replica_id@, n)
            },
    {
        proof {
            use_type_invariant(&*self);
        }
        let mut counts: AssocList<String, u64> = AssocList::new();
        core::mem::swap(&mut self.counts, &mut counts);
        if n == 0 {
            let _ = counts.remove(&replica_id);
        } else {
            counts.insert(replica_id, n);
        }
        core::mem::swap(&mut self.counts, &mut counts);
    }

    /// The number of replicas with a counter above zero.
    pub fn len(&self) -> (n: usize)
        ensures
            n == self.replicas().len(),
            self.replicas().no_duplicates(),
            forall|r: Seq<char>| self.replicas().contains(r) <==> self@.contains_key(r),
    {
        let n = self.counts.len();
        n
    }

    /// The replicas with a counter above zero, in the order in which they are
    /// stored.
    pub closed spec fn replicas(&self) -> Seq<Seq<char>> {
        self.counts.keys()
    }

    /// The replica stored at place `i`, with its counter.
    pub fn entry(&self, i: usize) -> (e: (&ReplicaId, u64))
        requires
            i < self.replicas().len(),
        ensures
            e.0@ == self.replicas()[i as int],
            self@.contains_key(e.0@),
            e.1 == self@[e.0@],
            e.1 > 0,
    {
        proof {
            use_type_invariant(self);
        }
        let k = self.counts.key_at(i);
        let v = self.counts.value_at(i);
        (k, *v)
    }

    /// `self <= other`.
    pub fn leq(&self, other: &VTime) -> (b: bool)
        ensures
            b == dominated(self@, other@),
    {
        proof {
            use_type_invariant(self);
            use_type_invariant(other);
        }
        let n = self.len();
        let mut i: usize = 0;
        while i < n
            invariant
                i <= n,
                n == self.replicas().len(),
                forall|r: Seq<char>| self.replicas().contains(r) <==> self@.contains_key(r),
                forall|j: int|
                    0 <= j < i ==> count_of(self@, #[trigger] self.replicas()[j]) <= count_of(
                        other@,
                        self.replicas()[j],
                    ),
            decreases n - i,
        {
            let (r, c) = self.entry(i);
            if c > other.count(r) {
                assert(!(count_of(self@, r@) <= count_of(other@, r@)));
                return false;
            }
            i += 1;
        }
        assert forall|r: Seq<char>| count_of(self@, r) <= count_of(other@, r) by {
            if self@.contains_key(r) {
                let j = self.replicas().index_of(r);
                assert(self.replicas()[j] == r);
            }
        }
        true
    }

    /// `self < other`: below it and not the same.
    pub fn precedes(&self, other: &VTime) -> (b: bool)
        ensures
            b == strictly_before(self@, other@),
    {
        self.leq(other) && !other.leq(self)
    }

    /// The componentwise maximum of `a` and `b`.
    pub fn merge(a: &VTime, b: &VTime) -> (m: VTime)
        ensures
            m@ == joined(a@, b@),
    {
        proof {
            use_type_invariant(a);
            use_type_invariant(b);
        }
        let mut out = a.replicate();
        let n = b.len();
        let mut i: usize = 0;
        while i < n
            invariant
                i <= n,
                n == b.replicas().len(),
                canonical(a@),
                canonical(b@),
                b.replicas().no_duplicates(),
                forall|r: Seq<char>| b.replicas().contains(r) <==> b@.contains_key(r),
                forall|r: Seq<char>|
                    out@.contains_key(r) <==> (a@.contains_key(r) || b.replicas().take(
                        i as int,
                    ).contains(r)),
                forall|r: Seq<char>|
                    out@.contains_key(r) ==> #[trigger] out@[r] == if b.replicas().take(
                        i as int,
                    ).contains(r) {
                        larger(count_of(a@, r), count_of(b@, r))
                    } else {
                        count_of(a@, r)
                    },
            decreases n - i,
        {
            let (r, c) = b.entry(i);
            let mine = a.count(r);
            let ghost before = b.replicas().take(i as int);
            let ghost after = b.replicas().take(i + 1);
            assert(after =~= before.push(r@));
            assert forall|x: Seq<char>| after.contains(x) <==> (before.contains(x) || x == r@) by {
                if before.contains(x) {
                    let j = before.index_of(x);
                    assert(after[j] == x);
                }
                if x == r@ {
                    assert(after[i as int] == x);
                }
                if after.contains(x) {
                    let j = after.index_of(x);
                    if j < i {
                        assert(before[j] == x);
                    }
                }
            }
            assert(!before.contains(r@)) by {
                if before.contains(r@) {
                    let j = before.index_of(r@);
                    assert(b.replicas()[j] == r@);
                    assert(b.replicas()[i as int] == r@);
                }
            }
            let top = if mine >= c {
                mine
            } else {
                c
            };
            out.set(r.replicate(), top);
            i += 1;
        }
        assert(b.replicas().take(n as int) =~= b.replicas());
        assert(out@ =~= joined(a@, b@));
        out
    }
}

impl UWMapItem for VTime {
    fn replicate(&self) -> (copy: Self) {
        proof {
            use_type_invariant(self);
        }
        VTime { counts: self.counts.replicate() }
    }
}

impl Clone for VTime {
    fn clone(&self) -> (copy: Self)
        ensures
            copy@ == self@,
    {
        self.replicate()
    }
}

impl PartialEq for VTime {
    fn eq(&self, other: &Self) -> (b: bool) {
        proof {
            use_type_invariant(self);
            use_type_invariant(other);
            if dominated(self@, other@) && dominated(other@, self@) {
                lemma_dominated_antisymmetric(self@, other@);
            }
        }
        self.leq(other) && other.leq(self)
    }
}

impl PartialEqSpecImpl for VTime {
    open spec fn obeys_eq_spec() -> bool {
        true
    }

    open spec fn eq_spec(&self, other: &Self) -> bool {
        self@ == other@
    }
}

impl Eq for VTime {

}

impl PartialOrd for VTime {
    fn partial_cmp(&self, other: &Self) -> (r: Option<Ordering>) {
        let below = self.leq(other);
        let above = other.leq(self);
        if below && above {
            Some(Ordering::Equal)
        } else if below {
            Some(Ordering::Less)
        } else if above {
            Some(Ordering::Greater)
        } else {
            None
        }
    }
}

impl PartialOrdSpecImpl for VTime {
    open spec fn obeys_partial_cmp_spec() -> bool {
        true
    }

    open spec fn partial_cmp_spec(&self, other: &Self) -> Option<Ordering> {
        clock_order(self@, other@)
    }
}

} // verus!
