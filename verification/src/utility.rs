//! Identifiers, plain geometric values, the clock and the source of fresh
//! identifiers.
use std::time::{Duration, SystemTime};
use vstd::prelude::*;
use vstd::string::StringExecFns;

verus! {

/// A reading of the system clock.
#[verifier::external_type_specification]
#[verifier::external_body]
pub struct ExSystemTime(SystemTime);

/// Nanoseconds since the Unix epoch.
pub type UnixEpochTimeNanos = u128;

/// The name a replica was given by its owner.
pub type ReplicaId = String;

/// The name of a node of the document.
pub type NodeID = String;

/// The number of characters of a fresh identifier.
pub const ID_LEN: usize = 16;

/// A value that can be copied without changing what it stands for.
pub trait UWMapItem: DeepView + Sized {
    fn replicate(&self) -> (copy: Self)
        ensures
            copy.deep_view() == self.deep_view(),
    ;
}

/// A value that can be told apart from another by what it stands for.
pub trait HashableItem: UWMapItem {
    fn same(&self, other: &Self) -> (b: bool)
        ensures
            b == (self.deep_view() == other.deep_view()),
    ;
}

impl UWMapItem for String {
    fn replicate(&self) -> (copy: Self) {
        self.clone()
    }
}

impl HashableItem for String {
    fn same(&self, other: &Self) -> (b: bool) {
        *self == *other
    }
}

impl<'a> UWMapItem for &'a str {
    fn replicate(&self) -> (copy: Self) {
        *self
    }
}

impl<'a> HashableItem for &'a str {
    fn same(&self, other: &Self) -> (b: bool) {
        let a: String = (*self).to_owned();
        let b: String = (*other).to_owned();
        a == b
    }
}

impl UWMapItem for i32 {
    fn replicate(&self) -> (copy: Self) {
        *self
    }
}

impl UWMapItem for u8 {
    fn replicate(&self) -> (copy: Self) {
        *self
    }
}

impl UWMapItem for u64 {
    fn replicate(&self) -> (copy: Self) {
        *self
    }
}

impl UWMapItem for u128 {
    fn replicate(&self) -> (copy: Self) {
        *self
    }
}

impl<T: UWMapItem> UWMapItem for Option<T> {
    fn replicate(&self) -> (copy: Self) {
        match self {
            Some(v) => Some(v.replicate()),
            None => None,
        }
    }
}

impl<T: UWMapItem> UWMapItem for Vec<T> {
    fn replicate(&self) -> (copy: Self) {
        let mut out: Vec<T> = Vec::new();
        let mut i: usize = 0;
        while i < self.len()
            invariant
                i <= self.len(),
                out.len() == i,
                forall|j: int| 0 <= j < i ==> out[j].deep_view() == self[j].deep_view(),
            decreases self.len() - i,
        {
            out.push(self[i].replicate());
            i += 1;
        }
        assert(out.deep_view() =~= self.deep_view());
        out
    }
}

/// A point or an offset on the canvas.
#[derive(Clone, Copy, Debug, PartialEq, Eq)]
pub struct Vec2 {
    pub x: i32,
    pub y: i32,
}

impl DeepView for Vec2 {
    type V = Vec2;

    open spec fn deep_view(&self) -> Vec2 {
        *self
    }
}

impl UWMapItem for Vec2 {
    fn replicate(&self) -> (copy: Self) {
        *self
    }
}

/// A single-precision number, carried by its bit pattern. The library stores
/// and merges such numbers and never computes with them.
#[derive(Clone, Copy, Debug, PartialEq, Eq)]
pub struct Scalar {
    pub bits: u32,
}

/// The bit pattern of the number one.
pub const ONE_BITS: u32 = 0x3F80_0000;

impl Scalar {
    pub fn from_bits(bits: u32) -> (s: Scalar)
        ensures
            s.bits == bits,
    {
        Scalar { bits }
    }

    pub fn one() -> (s: Scalar)
        ensures
            s.bits == ONE_BITS,
    {
        Scalar { bits: ONE_BITS }
    }
}

impl DeepView for Scalar {
    type V = Scalar;

    open spec fn deep_view(&self) -> Scalar {
        *self
    }
}

impl UWMapItem for Scalar {
    fn replicate(&self) -> (copy: Self) {
        *self
    }
}

/// Red, green, blue (each 0 to 255) and alpha.
#[derive(Clone, Copy, Debug, PartialEq, Eq)]
pub struct Color(pub i32, pub i32, pub i32, pub Scalar);

impl Color {
    pub fn white() -> (c: Color)
        ensures
            c == Color(255, 255, 255, Scalar { bits: ONE_BITS }),
    {
        Color(255, 255, 255, Scalar::one())
    }

    pub fn black() -> (c: Color)
        ensures
            c == Color(0, 0, 0, Scalar { bits: ONE_BITS }),
    {
        Color(0, 0, 0, Scalar::one())
    }
}

impl DeepView for Color {
    type V = Color;

    open spec fn deep_view(&self) -> Color {
        *self
    }
}

impl UWMapItem for Color {
    fn replicate(&self) -> (copy: Self) {
        *self
    }
}

/// Whether `c` is an ASCII letter or digit.
pub open spec fn is_alphanumeric(c: char) -> bool {
    ('a' <= c && c <= 'z') || ('A' <= c && c <= 'Z') || ('0' <= c && c <= '9')
}

/// One draw of `rand::distributions::Alphanumeric` from `rand::thread_rng`:
/// an ASCII letter or digit, as a string of one character. Which one is left
/// to chance.
#[verifier::external_body]
fn random_letter() -> (s: String)
    ensures
        s@.len() == 1,
        is_alphanumeric(s@[0]),
{
    let mut rng = rand::thread_rng();
    String::from(char::from(rand::Rng::sample(&mut rng, rand::distributions::Alphanumeric)))
}

/// Draws a fresh identifier: sixteen characters, each an ASCII letter or
/// digit.
pub fn gen_str_id() -> (id: String)
    ensures
        id@.len() == ID_LEN,
        forall|i: int| 0 <= i < id@.len() ==> is_alphanumeric(#[trigger] id@[i]),
{
    let mut id = String::new();
    let mut i: usize = 0;
    while i < ID_LEN
        invariant
            i <= ID_LEN,
            id@.len() == i,
            forall|j: int| 0 <= j < id@.len() ==> is_alphanumeric(#[trigger] id@[j]),
        decreases ID_LEN - i,
    {
        let letter = random_letter();
        id.append(letter.as_str());
        i += 1;
    }
    id
}

/// `wasm_timer::SystemTime::now`: the reading of the system clock. Nothing
/// is promised of it.
#[verifier::external_body]
fn system_now() -> SystemTime {
    wasm_timer::SystemTime::now()
}

/// `SystemTime::duration_since` the Unix epoch: the time that has passed
/// since then, or zero where the reading lies before it.
#[verifier::external_body]
fn since_epoch(t: &SystemTime) -> Duration {
    t.duration_since(wasm_timer::UNIX_EPOCH).unwrap_or_default()
}

/// `Duration::as_nanos`: the whole duration in nanoseconds.
#[verifier::external_body]
fn duration_nanos(d: &Duration) -> u128 {
    d.as_nanos()
}

/// The time that has passed since the Unix epoch, by the system clock.
pub fn epoch_now() -> Duration {
    let start = system_now();
    since_epoch(&start)
}

/// The current time in nanoseconds since the Unix epoch.
pub fn epoch_now_nanos() -> UnixEpochTimeNanos {
    let d = epoch_now();
    duration_nanos(&d)
}

} // verus!
