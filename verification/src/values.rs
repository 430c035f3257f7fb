use vstd::prelude::*;

verus! {

/// The `ValidRandomNumber` trait.
///
/// It defines what makes a type a valid random number: a fixed-width
/// unsigned integer domain together with the constants and conversions the
/// sampling layer needs. `as_int` gives the mathematical value of a number,
/// and every contract of the crate speaks in terms of it.
///
/// Currently implemented for `u32`, `u64` and `u128`.
pub trait ValidRandomNumber: Copy + Sized {
    /// The mathematical value of this number.
    spec fn as_int(self) -> int;

    /// The largest value of the domain.
    spec fn spec_max() -> int;

    /// Laws of the domain: it is wider than a byte, every value lies between
    /// zero and the maximum, and `as_int` identifies values.
    proof fn lemma_domain()
        ensures
            255 < Self::spec_max(),
            forall|x: Self| 0 <= #[trigger] x.as_int() <= Self::spec_max(),
            forall|x: Self, y: Self|
                #![trigger x.as_int(), y.as_int()]
                x.as_int() == y.as_int() ==> x == y,
    ;

    /// Returns the representation of a zero for the given type.
    fn zero() -> (r: Self)
        ensures
            r.as_int() == 0,
    ;

    /// Returns the representation of a one for the given type.
    fn one() -> (r: Self)
        ensures
            r.as_int() == 1,
    ;

    /// Returns the maximum value representation.
    fn max() -> (r: Self)
        ensures
            r.as_int() == Self::spec_max(),
    ;

    /// Returns the maximum amount of a byte as the given type, i.e. the
    /// equivalent of 255 in this domain.
    fn byte_max() -> (r: Self)
        ensures
            r.as_int() == 255,
    ;

    /// Returns the successor of a value below the maximum.
    fn succ(self) -> (r: Self)
        requires
            self.as_int() < Self::spec_max(),
        ensures
            r.as_int() == self.as_int() + 1,
    ;

    /// Returns a conversion to `u8`, exact for values that fit a byte.
    fn to_u8(self) -> (r: u8)
        ensures
            self.as_int() <= 255 ==> r as int == self.as_int(),
    ;

    /// Returns a conversion to `usize`, exact for values that fit.
    fn to_usize(self) -> (r: usize)
        ensures
            self.as_int() <= usize::MAX as int ==> r as int == self.as_int(),
    ;

    /// Creates this type from a `usize` value, exact for values in the domain.
    fn from_usize(value: usize) -> (r: Self)
        ensures
            value as int <= Self::spec_max() ==> r.as_int() == value as int,
    ;
}

impl ValidRandomNumber for u32 {
    open spec fn as_int(self) -> int {
        self as int
    }

    open spec fn spec_max() -> int {
        u32::MAX as int
    }

    proof fn lemma_domain() {
    }

    fn zero() -> u32 {
        0
    }

    fn one() -> u32 {
        1
    }

    fn max() -> u32 {
        u32::MAX
    }

    fn byte_max() -> u32 {
        255
    }

    fn succ(self) -> u32 {
        self + 1
    }

    fn to_u8(self) -> u8 {
        #[verifier::truncate] (self as u8)
    }

    fn to_usize(self) -> usize {
        self as usize
    }

    fn from_usize(value: usize) -> u32 {
        #[verifier::truncate] (value as u32)
    }
}

impl ValidRandomNumber for u64 {
    open spec fn as_int(self) -> int {
        self as int
    }

    open spec fn spec_max() -> int {
        u64::MAX as int
    }

    proof fn lemma_domain() {
    }

    fn zero() -> u64 {
        0
    }

    fn one() -> u64 {
        1
    }

    fn max() -> u64 {
        u64::MAX
    }

    fn byte_max() -> u64 {
        255
    }

    fn succ(self) -> u64 {
        self + 1
    }

    fn to_u8(self) -> u8 {
        #[verifier::truncate] (self as u8)
    }

    fn to_usize(self) -> usize {
        #[verifier::truncate] (self as usize)
    }

    fn from_usize(value: usize) -> u64 {
        value as u64
    }
}

impl ValidRandomNumber for u128 {
    open spec fn as_int(self) -> int {
        self as int
    }

    open spec fn spec_max() -> int {
        u128::MAX as int
    }

    proof fn lemma_domain() {
    }

    fn zero() -> u128 {
        0
    }

    fn one() -> u128 {
        1
    }

    fn max() -> u128 {
        u128::MAX
    }

    fn byte_max() -> u128 {
        255
    }

    fn succ(self) -> u128 {
        self + 1
    }

    fn to_u8(self) -> u8 {
        #[verifier::truncate] (self as u8)
    }

    fn to_usize(self) -> usize {
        #[verifier::truncate] (self as usize)
    }

    fn from_usize(value: usize) -> u128 {
        value as u128
    }
}

/// The `ValidRandomRange` trait.
///
/// It defines what makes a value a valid range to sample from: each of the
/// six supported range shapes is normalized to one half-open mathematical
/// pair `[spec_start, spec_end)` over a `ValidRandomNumber` domain.
///
/// `representable` says that the normalized pair exists in the domain (an
/// inclusive upper bound equal to the domain maximum would overflow when one
/// is added to it); `ordered` says that the written bounds are in order, so
/// that normalization yields `spec_start <= spec_end`.
pub trait ValidRandomRange<T: ValidRandomNumber>: Sized {
    /// The normalized lower bound, included.
    spec fn spec_start(&self) -> int;

    /// The normalized upper bound, excluded.
    spec fn spec_end(&self) -> int;

    /// The normalized pair is representable in the domain.
    spec fn representable(&self) -> bool;

    /// The written bounds are in order.
    spec fn ordered(&self) -> bool;

    /// Returns the starting value of the normalized range.
    fn _start(&self) -> (r: T)
        requires
            self.representable(),
        ensures
            r.as_int() == self.spec_start(),
    ;

    /// Returns the first value past the normalized range.
    fn _end(&self) -> (r: T)
        requires
            self.representable(),
        ensures
            r.as_int() == self.spec_end(),
    ;

    /// For every range shape, normalization of ordered bounds yields an
    /// ordered pair that lies within the numeric domain.
    proof fn lemma_normalized(&self)
        requires
            self.representable(),
            self.ordered(),
        ensures
            0 <= self.spec_start(),
            self.spec_start() <= self.spec_end(),
            self.spec_end() <= T::spec_max(),
    ;
}

/// The closed-open range shape `[start, end)`.
pub struct NumRange<T: ValidRandomNumber> {
    pub start: T,
    pub end: T,
}

/// The closed-closed range shape `[start, end]`; normalization adds one to
/// the upper bound.
pub struct NumRangeInclusive<T: ValidRandomNumber> {
    pub start: T,
    pub end: T,
}

/// The open-ended range shape `[start, max)`.
pub struct NumRangeFrom<T: ValidRandomNumber> {
    pub start: T,
}

/// The open-ended range shape `[0, end)`.
pub struct NumRangeTo<T: ValidRandomNumber> {
    pub end: T,
}

/// The open-ended range shape `[0, end]`; normalization adds one to the
/// upper bound.
pub struct NumRangeToInclusive<T: ValidRandomNumber> {
    pub end: T,
}

/// The unbounded range shape `[0, max)`.
pub struct NumRangeFull;

impl<T: ValidRandomNumber> ValidRandomRange<T> for NumRange<T> {
    open spec fn spec_start(&self) -> int {
        self.start.as_int()
    }

    open spec fn spec_end(&self) -> int {
        self.end.as_int()
    }

    open spec fn representable(&self) -> bool {
        true
    }

    open spec fn ordered(&self) -> bool {
        self.start.as_int() <= self.end.as_int()
    }

    fn _start(&self) -> T {
        self.start
    }

    fn _end(&self) -> T {
        self.end
    }

    proof fn lemma_normalized(&self) {
        T::lemma_domain();
    }
}

impl<T: ValidRandomNumber> ValidRandomRange<T> for NumRangeInclusive<T> {
    open spec fn spec_start(&self) -> int {
        self.start.as_int()
    }

    open spec fn spec_end(&self) -> int {
        self.end.as_int() + 1
    }

    open spec fn representable(&self) -> bool {
        self.end.as_int() < T::spec_max()
    }

    open spec fn ordered(&self) -> bool {
        self.start.as_int() <= self.end.as_int()
    }

    fn _start(&self) -> T {
        self.start
    }

    fn _end(&self) -> T {
        self.end.succ()
    }

    proof fn lemma_normalized(&self) {
        T::lemma_domain();
    }
}

impl<T: ValidRandomNumber> ValidRandomRange<T> for NumRangeFrom<T> {
    open spec fn spec_start(&self) -> int {
        self.start.as_int()
    }

    open spec fn spec_end(&self) -> int {
        T::spec_max()
    }

    open spec fn representable(&self) -> bool {
        true
    }

    open spec fn ordered(&self) -> bool {
        true
    }

    fn _start(&self) -> T {
        self.start
    }

    fn _end(&self) -> T {
        T::max()
    }

    proof fn lemma_normalized(&self) {
        T::lemma_domain();
    }
}

impl<T: ValidRandomNumber> ValidRandomRange<T> for NumRangeTo<T> {
    open spec fn spec_start(&self) -> int {
        0
    }

    open spec fn spec_end(&self) -> int {
        self.end.as_int()
    }

    open spec fn representable(&self) -> bool {
        true
    }

    open spec fn ordered(&self) -> bool {
        true
    }

    fn _start(&self) -> T {
        T::zero()
    }

    fn _end(&self) -> T {
        self.end
    }

    proof fn lemma_normalized(&self) {
        T::lemma_domain();
    }
}

impl<T: ValidRandomNumber> ValidRandomRange<T> for NumRangeToInclusive<T> {
    open spec fn spec_start(&self) -> int {
        0
    }

    open spec fn spec_end(&self) -> int {
        self.end.as_int() + 1
    }

    open spec fn representable(&self) -> bool {
        self.end.as_int() < T::spec_max()
    }

    open spec fn ordered(&self) -> bool {
        true
    }

    fn _start(&self) -> T {
        T::zero()
    }

    fn _end(&self) -> T {
        self.end.succ()
    }

    proof fn lemma_normalized(&self) {
        T::lemma_domain();
    }
}

impl<T: ValidRandomNumber> ValidRandomRange<T> for NumRangeFull {
    open spec fn spec_start(&self) -> int {
        0
    }

    open spec fn spec_end(&self) -> int {
        T::spec_max()
    }

    open spec fn representable(&self) -> bool {
        true
    }

    open spec fn ordered(&self) -> bool {
        true
    }

    fn _start(&self) -> T {
        T::zero()
    }

    fn _end(&self) -> T {
        T::max()
    }

    proof fn lemma_normalized(&self) {
        T::lemma_domain();
    }
}

/// A closed-closed shape keeps its lower bound and normalizes its upper
/// bound to the literal bound plus one; the shape is representable for
/// every upper bound but the domain maximum, the documented overflow
/// boundary.
pub proof fn lemma_inclusive_normalization<T: ValidRandomNumber>(r: NumRangeInclusive<T>)
    requires
        r.representable(),
    ensures
        r.spec_start() == r.start.as_int(),
        r.spec_end() == r.end.as_int() + 1,
        r.start.as_int() <= r.end.as_int() ==> r.spec_start() < r.spec_end(),
{
}

/// An open-ended-to-inclusive shape starts at zero and normalizes its
/// upper bound to the literal bound plus one, under the same overflow
/// boundary as the closed-closed shape.
pub proof fn lemma_to_inclusive_normalization<T: ValidRandomNumber>(r: NumRangeToInclusive<T>)
    requires
        r.representable(),
    ensures
        r.spec_start() == 0,
        r.spec_end() == r.end.as_int() + 1,
        r.spec_start() < r.spec_end(),
{
    T::lemma_domain();
}

/// A byte-sized value converts to `u8` and back through `usize` without
/// loss: its value is unchanged by reduction modulo 256 and by reduction
/// modulo the domain size, which is what the narrowing conversions of
/// `ValidRandomNumber` guarantee for values at most `byte_max`.
pub proof fn lemma_byte_roundtrip<T: ValidRandomNumber>(x: T)
    requires
        x.as_int() <= 255,
    ensures
        x.as_int() % 256 == x.as_int(),
        x.as_int() % (T::spec_max() + 1) == x.as_int(),
{
    T::lemma_domain();
    vstd::arithmetic::div_mod::lemma_small_mod(x.as_int() as nat, 256);
    vstd::arithmetic::div_mod::lemma_small_mod(x.as_int() as nat, (T::spec_max() + 1) as nat);
}

} // verus!
