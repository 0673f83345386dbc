//! Last-writer-wins registers: a value and the time at which it was written.
use crate::crdt::uw_map::Mergeable;
use crate::utility::{epoch_now_nanos, UWMapItem, UnixEpochTimeNanos};
use vstd::prelude::*;

verus! {

/// What a register stands for: what its value stands for, and the time of the
/// write.
pub struct Stamped<A> {
    pub val: A,
    pub time: u128,
}

/// The later write; `a` where the times are equal.
pub open spec fn later<A>(a: Stamped<A>, b: Stamped<A>) -> Stamped<A> {
    if a.time < b.time {
        b
    } else {
        a
    }
}

/// `merge(a, a) == a`.
pub proof fn lemma_later_idempotent<A>(a: Stamped<A>)
    ensures
        later(a, a) == a,
{
}

/// `merge(merge(a, b), c) == merge(a, merge(b, c))`.
pub proof fn lemma_later_associative<A>(a: Stamped<A>, b: Stamped<A>, c: Stamped<A>)
    ensures
        later(later(a, b), c) == later(a, later(b, c)),
{
}

/// `merge(a, b) == merge(b, a)`, unless two different writes carry the same
/// time: then each side keeps its own.
pub proof fn lemma_later_commutative<A>(a: Stamped<A>, b: Stamped<A>)
    requires
        a.time != b.time || a == b,
    ensures
        later(a, b) == later(b, a),
{
}

/// The merge never goes back in time, and keeps one of the two writes.
pub proof fn lemma_later_is_one_of<A>(a: Stamped<A>, b: Stamped<A>)
    ensures
        later(a, b) == a || later(a, b) == b,
        later(a, b).time >= a.time,
        later(a, b).time >= b.time,
{
}

/// A value with the time at which it was written.
pub struct LWWReg<T: UWMapItem> {
    pub val: T,
    pub time: UnixEpochTimeNanos,
}

impl<T: UWMapItem> DeepView for LWWReg<T> {
    type V = Stamped<T::V>;

    open spec fn deep_view(&self) -> Stamped<T::V> {
        Stamped { val: self.val.deep_view(), time: self.time }
    }
}

impl<T: UWMapItem> View for LWWReg<T> {
    type V = Stamped<T::V>;

    open spec fn view(&self) -> Stamped<T::V> {
        self.deep_view()
    }
}

impl<T: UWMapItem> LWWReg<T> {
    /// A register that holds `val`, written at `time`.
    pub fn with_time(val: T, time: UnixEpochTimeNanos) -> (reg: LWWReg<T>)
        ensures
            reg.val == val,
            reg.time == time,
    {
        LWWReg { val, time }
    }

    /// A register that holds `val`, written now. The time is whatever the
    /// clock says.
    pub fn new(val: T) -> (reg: LWWReg<T>)
        ensures
            reg.val == val,
    {
        let time = epoch_now_nanos();
        LWWReg::with_time(val, time)
    }

    pub fn value(&self) -> (val: &T)
        ensures
            *val == self.val,
    {
        &self.val
    }

    /// Overwrites the value, as written at `time`.
    pub fn set_at(&mut self, val: T, time: UnixEpochTimeNanos)
        ensures
            final(self).val == val,
            final(self).time == time,
    {
        self.val = val;
        self.time = time;
    }

    /// Overwrites the value, as written now.
    pub fn set(&mut self, val: T)
        ensures
            final(self).val == val,
    {
        let time = epoch_now_nanos();
        self.set_at(val, time);
    }

    /// The later of the two writes; `a` where the times are equal.
    pub fn merge(a: &LWWReg<T>, b: &LWWReg<T>) -> (m: LWWReg<T>)
        ensures
            m@ == later(a@, b@),
    {
        if a.time < b.time {
            LWWReg { val: b.val.replicate(), time: b.time }
        } else {
            LWWReg { val: a.val.replicate(), time: a.time }
        }
    }
}

impl<T: UWMapItem> UWMapItem for LWWReg<T> {
    fn replicate(&self) -> (copy: Self) {
        LWWReg { val: self.val.replicate(), time: self.time }
    }
}

impl<T: UWMapItem> Clone for LWWReg<T> {
    fn clone(&self) -> (copy: Self)
        ensures
            copy@ == self@,
    {
        self.replicate()
    }
}

impl<T: UWMapItem> Mergeable for LWWReg<T> {
    open spec fn merged(a: Stamped<T::V>, b: Stamped<T::V>) -> Stamped<T::V> {
        later(a, b)
    }

    fn merge(&self, other: &Self) -> (m: Self) {
        LWWReg::merge(self, other)
    }
}

} // verus!
