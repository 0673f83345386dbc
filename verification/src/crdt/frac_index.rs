//! Positions among siblings: byte strings in dictionary order, between any
//! two of which another can be made. The crate `fractional_index` makes them;
//! this file holds them as bytes and states what it relies on.
use crate::crdt::lex::{agree, bytes_eq, bytes_lt, lex_lt};
use crate::utility::UWMapItem;
use fractional_index::FractionalIndex;
use vstd::prelude::*;

verus! {

/// The byte that ends every position.
pub const TERMINATOR: u8 = 128;

/// A position is a byte string that ends with the terminator.
pub open spec fn terminated(b: Seq<u8>) -> bool {
    b.len() > 0 && b[b.len() - 1] == TERMINATOR
}

/// The bytes of the position that `FractionalIndex::new_before` makes from
/// the position with the bytes `x`.
pub uninterp spec fn before_of(x: Seq<u8>) -> Seq<u8>;

/// The bytes of the position that `FractionalIndex::new_after` makes from the
/// position with the bytes `x`.
pub uninterp spec fn after_of(x: Seq<u8>) -> Seq<u8>;

/// The bytes of the position that `FractionalIndex::new_between` makes from
/// the positions with the bytes `lo` and `hi`, if it makes one.
pub uninterp spec fn between_of(lo: Seq<u8>, hi: Seq<u8>) -> Option<Seq<u8>>;

/// Where `lo` and `hi` agree before their last bytes, `hi` holds no zero up
/// to and with the first byte in which they differ. Outside of this
/// `FractionalIndex::new_between` subtracts one from a zero byte.
pub open spec fn between_defined(lo: Seq<u8>, hi: Seq<u8>) -> bool {
    forall|i: int|
        0 <= i < lo.len() - 1 && i < hi.len() - 1 && agree(lo, hi, i) ==> #[trigger] hi[i] != 0
}

/// `FractionalIndex::default`: the position that holds the terminator alone.
#[verifier::external_body]
fn outside_default() -> (b: Vec<u8>)
    ensures
        b@ == seq![TERMINATOR],
{
    FractionalIndex::default().as_bytes().to_vec()
}

/// `FractionalIndex::new_before` on the position with the bytes `x`: a
/// position that comes before it.
#[verifier::external_body]
fn outside_before(x: &Vec<u8>) -> (b: Vec<u8>)
    requires
        terminated(x@),
    ensures
        b@ == before_of(x@),
        terminated(b@),
        lex_lt(b@, x@),
{
    let at = FractionalIndex::from_bytes(x.clone()).unwrap_or_default();
    FractionalIndex::new_before(&at).as_bytes().to_vec()
}

/// `FractionalIndex::new_after` on the position with the bytes `x`: a
/// position that comes after it.
#[verifier::external_body]
fn outside_after(x: &Vec<u8>) -> (b: Vec<u8>)
    requires
        terminated(x@),
    ensures
        b@ == after_of(x@),
        terminated(b@),
        lex_lt(x@, b@),
{
    let at = FractionalIndex::from_bytes(x.clone()).unwrap_or_default();
    FractionalIndex::new_after(&at).as_bytes().to_vec()
}

/// `FractionalIndex::new_between` on the positions with the bytes `lo` and
/// `hi`: a position strictly between them where `lo` comes before `hi`, and
/// none otherwise.
#[verifier::external_body]
fn outside_between(lo: &Vec<u8>, hi: &Vec<u8>) -> (b: Option<Vec<u8>>)
    requires
        terminated(lo@),
        terminated(hi@),
        between_defined(lo@, hi@),
    ensures
        b.deep_view() == between_of(lo@, hi@),
        b is Some <==> lex_lt(lo@, hi@),
        b matches Some(c) ==> terminated(c@) && lex_lt(lo@, c@) && lex_lt(c@, hi@),
{
    let lower = FractionalIndex::from_bytes(lo.clone()).unwrap_or_default();
    let upper = FractionalIndex::from_bytes(hi.clone()).unwrap_or_default();
    match FractionalIndex::new_between(&lower, &upper) {
        Some(c) => Some(c.as_bytes().to_vec()),
        None => None,
    }
}

/// A position among siblings.
#[derive(Debug, PartialEq, Eq)]
pub struct FracIndex {
    bytes: Vec<u8>,
}

impl DeepView for FracIndex {
    type V = Seq<u8>;

    closed spec fn deep_view(&self) -> Seq<u8> {
        self.bytes@
    }
}

impl View for FracIndex {
    type V = Seq<u8>;

    open spec fn view(&self) -> Seq<u8> {
        self.deep_view()
    }
}

impl UWMapItem for FracIndex {
    fn replicate(&self) -> (copy: Self) {
        proof {
            use_type_invariant(self);
        }
        let bytes = self.bytes.clone();
        assert(bytes@ =~= self.bytes@);
        FracIndex { bytes }
    }
}

impl Clone for FracIndex {
    fn clone(&self) -> (copy: Self)
        ensures
            copy@ == self@,
    {
        self.replicate()
    }
}

impl FracIndex {
    #[verifier::type_invariant]
    spec fn inv(&self) -> bool {
        terminated(self.bytes@)
    }

    /// The position that a first child takes.
    pub fn default() -> (p: Self)
        ensures
            p@ == seq![TERMINATOR],
    {
        FracIndex { bytes: outside_default() }
    }

    /// The position with the given bytes, if they end with the terminator.
    pub fn from_bytes(bytes: Vec<u8>) -> (p: Option<Self>)
        ensures
            p is Some <==> terminated(bytes@),
            p matches Some(x) ==> x@ == bytes@,
    {
        if bytes.len() > 0 && bytes[bytes.len() - 1] == TERMINATOR {
            Some(FracIndex { bytes })
        } else {
            None
        }
    }

    /// The bytes of the position. They end with the terminator.
    pub fn as_bytes(&self) -> (b: &Vec<u8>)
        ensures
            b@ == self@,
            terminated(self@),
    {
        proof {
            use_type_invariant(self);
        }
        &self.bytes
    }

    /// A position before this one.
    pub fn new_before(&self) -> (p: Self)
        ensures
            p@ == before_of(self@),
            lex_lt(p@, self@),
    {
        proof {
            use_type_invariant(self);
        }
        FracIndex { bytes: outside_before(&self.bytes) }
    }

    /// A position after this one.
    pub fn new_after(&self) -> (p: Self)
        ensures
            p@ == after_of(self@),
            lex_lt(self@, p@),
    {
        proof {
            use_type_invariant(self);
        }
        FracIndex { bytes: outside_after(&self.bytes) }
    }

    /// Whether a position between `lo` and `hi` can be asked for.
    pub fn can_go_between(lo: &FracIndex, hi: &FracIndex) -> (ok: bool)
        ensures
            ok == between_defined(lo@, hi@),
    {
        let a = &lo.bytes;
        let b = &hi.bytes;
        proof {
            use_type_invariant(lo);
            use_type_invariant(hi);
        }
        let mut i: usize = 0;
        while i < a.len() - 1 && i < b.len() - 1
            invariant
                a@ == lo@,
                b@ == hi@,
                a@.len() > 0,
                b@.len() > 0,
                i <= a.len() - 1,
                i <= b.len() - 1,
                agree(a@, b@, i as int),
                forall|j: int| 0 <= j < i ==> #[trigger] b@[j] != 0,
            decreases a.len() - i,
        {
            if b[i] == 0 {
                assert(!between_defined(lo@, hi@)) by {
                    assert(agree(lo@, hi@, i as int));
                    assert(hi@[i as int] == 0);
                }
                return false;
            }
            if a[i] != b[i] {
                assert(between_defined(lo@, hi@)) by {
                    assert forall|j: int|
                        0 <= j < lo@.len() - 1 && j < hi@.len() - 1 && agree(
                            lo@,
                            hi@,
                            j,
                        ) implies #[trigger] hi@[j] != 0 by {
                        if j > i {
                            assert(lo@[i as int] == hi@[i as int]);
                        } else if j < i {
                            assert(b@[j] != 0);
                        }
                    }
                }
                return true;
            }
            i += 1;
        }
        assert(between_defined(lo@, hi@)) by {
            assert forall|j: int|
                0 <= j < lo@.len() - 1 && j < hi@.len() - 1 && agree(
                    lo@,
                    hi@,
                    j,
                ) implies #[trigger] hi@[j] != 0 by {
                assert(b@[j] != 0);
            }
        }
        true
    }

    /// A position strictly between `lo` and `hi`. There is one where `lo`
    /// comes before `hi` and a position between them can be asked for.
    pub fn new_between(lo: &FracIndex, hi: &FracIndex) -> (p: Option<FracIndex>)
        ensures
            p is Some <==> lex_lt(lo@, hi@) && between_defined(lo@, hi@),
            p matches Some(c) ==> between_of(lo@, hi@) == Some(c@) && lex_lt(lo@, c@) && lex_lt(
                c@,
                hi@,
            ),
    {
        proof {
            use_type_invariant(lo);
            use_type_invariant(hi);
        }
        if !FracIndex::can_go_between(lo, hi) {
            return None;
        }
        match outside_between(&lo.bytes, &hi.bytes) {
            Some(bytes) => Some(FracIndex { bytes }),
            None => None,
        }
    }

    /// Whether this position comes before `other`.
    pub fn lt(&self, other: &FracIndex) -> (r: bool)
        ensures
            r == lex_lt(self@, other@),
    {
        bytes_lt(self.bytes.as_slice(), other.bytes.as_slice())
    }

    /// Whether this position is `other`.
    pub fn same(&self, other: &FracIndex) -> (r: bool)
        ensures
            r == (self@ == other@),
    {
        bytes_eq(self.bytes.as_slice(), other.bytes.as_slice())
    }
}

} // verus!
