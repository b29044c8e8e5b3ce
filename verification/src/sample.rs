//! The amplitude values that streams are made of.

use vstd::prelude::*;

verus! {

/// One amplitude value of an audio stream.
///
/// The mixing engine only ever adds samples and compares them; everything it
/// states about a stream is stated over the spec functions of this trait. Of
/// the sum it asks one thing: that silence is neutral.
pub trait Sample: Copy + Sized {
    /// Silence.
    spec fn spec_zero() -> Self;

    /// The sum of two samples.
    spec fn spec_plus(self, other: Self) -> Self;

    /// `self <= other`.
    spec fn spec_at_most(self, other: Self) -> bool;

    /// `self < other`.
    spec fn spec_less(self, other: Self) -> bool;

    /// Whether the sample carries a negative sign.
    spec fn spec_sign_negative(self) -> bool;

    /// Silence is neutral: added to a sample, on either side, it gives that
    /// sample.
    proof fn lemma_zero_is_neutral(x: Self)
        ensures
            Self::spec_zero().spec_plus(x) == x,
            x.spec_plus(Self::spec_zero()) == x,
    ;

    fn zero() -> (r: Self)
        ensures
            r == Self::spec_zero(),
    ;

    fn plus(self, other: Self) -> (r: Self)
        ensures
            r == self.spec_plus(other),
    ;

    fn at_most(self, other: Self) -> (r: bool)
        ensures
            r == self.spec_at_most(other),
    ;

    fn less(self, other: Self) -> (r: bool)
        ensures
            r == self.spec_less(other),
    ;

    fn sign_negative(self) -> (r: bool)
        ensures
            r == self.spec_sign_negative(),
    ;
}

/// The sum of two PCM amplitudes, clipped to the range of `i32`.
pub open spec fn clipped_sum(a: i32, b: i32) -> i32 {
    if a + b > i32::MAX {
        i32::MAX
    } else if a + b < i32::MIN {
        i32::MIN
    } else {
        (a + b) as i32
    }
}

/// Signed 32-bit PCM. Sums clip instead of wrapping.
impl Sample for i32 {
    open spec fn spec_zero() -> i32 {
        0
    }

    open spec fn spec_plus(self, other: i32) -> i32 {
        clipped_sum(self, other)
    }

    open spec fn spec_at_most(self, other: i32) -> bool {
        self <= other
    }

    open spec fn spec_less(self, other: i32) -> bool {
        self < other
    }

    open spec fn spec_sign_negative(self) -> bool {
        self < 0
    }

    proof fn lemma_zero_is_neutral(x: i32) {
    }

    fn zero() -> (r: i32) {
        0
    }

    fn plus(self, other: i32) -> (r: i32) {
        let wide: i64 = self as i64 + other as i64;
        if wide > i32::MAX as i64 {
            i32::MAX
        } else if wide < i32::MIN as i64 {
            i32::MIN
        } else {
            wide as i32
        }
    }

    fn at_most(self, other: i32) -> (r: bool) {
        self <= other
    }

    fn less(self, other: i32) -> (r: bool) {
        self < other
    }

    fn sign_negative(self) -> (r: bool) {
        self < 0
    }
}

} // verus!
