//! Confidence values.
//!
//! A score is a double-precision number between 0 and 1, held as its IEEE 754
//! bit pattern, so that comparing two scores is integer arithmetic.

use vstd::prelude::*;

verus! {

/// A double-precision number, as its bit pattern.
#[derive(Clone, Copy, Debug, PartialEq, Eq, Structural)]
pub struct Score {
    pub bits: u64,
}

/// The bit pattern of zero.
pub const ZERO_BITS: u64 = 0;

/// The bit pattern of three tenths.
pub const THREE_TENTHS_BITS: u64 = 0x3fd3_3333_3333_3333;

/// The bit pattern of one half.
pub const ONE_HALF_BITS: u64 = 0x3fe0_0000_0000_0000;

/// The bit pattern of seven tenths.
pub const SEVEN_TENTHS_BITS: u64 = 0x3fe6_6666_6666_6666;

/// The bit pattern of three quarters.
pub const THREE_QUARTERS_BITS: u64 = 0x3fe8_0000_0000_0000;

/// The bit pattern of eighty-five hundredths.
pub const EIGHTY_FIVE_PERCENT_BITS: u64 = 0x3feb_3333_3333_3333;

const SIGN_BIT: u64 = 0x8000_0000_0000_0000;

const INFINITY_BITS: u64 = 0x7ff0_0000_0000_0000;

/// The bits below the sign.
pub open spec fn spec_magnitude(bits: u64) -> int {
    if bits < 0x8000_0000_0000_0000 {
        bits as int
    } else {
        bits - 0x8000_0000_0000_0000
    }
}

/// The pattern stands for no number.
pub open spec fn spec_is_nan(bits: u64) -> bool {
    spec_magnitude(bits) > 0x7ff0_0000_0000_0000
}

/// Where a number stands in the order of all numbers; both zeros stand at 0.
pub open spec fn spec_rank(bits: u64) -> int {
    if bits < 0x8000_0000_0000_0000 {
        spec_magnitude(bits)
    } else {
        -spec_magnitude(bits)
    }
}

impl Score {
    /// `self < other`, false where either is not a number.
    pub open spec fn spec_below(self, other: Score) -> bool {
        !spec_is_nan(self.bits) && !spec_is_nan(other.bits) && spec_rank(self.bits) < spec_rank(
            other.bits,
        )
    }

    /// `self <= other`, false where either is not a number.
    pub open spec fn spec_at_most(self, other: Score) -> bool {
        !spec_is_nan(self.bits) && !spec_is_nan(other.bits) && spec_rank(self.bits) <= spec_rank(
            other.bits,
        )
    }

    fn is_nan(self) -> (r: bool)
        ensures
            r == spec_is_nan(self.bits),
    {
        if self.bits < SIGN_BIT {
            self.bits > INFINITY_BITS
        } else {
            self.bits - SIGN_BIT > INFINITY_BITS
        }
    }

    fn rank(self) -> (r: i64)
        ensures
            r == spec_rank(self.bits),
    {
        if self.bits < SIGN_BIT {
            self.bits as i64
        } else {
            -((self.bits - SIGN_BIT) as i64)
        }
    }

    /// Whether this number is less than another one.
    pub fn below(self, other: Score) -> (r: bool)
        ensures
            r == self.spec_below(other),
    {
        !self.is_nan() && !other.is_nan() && self.rank() < other.rank()
    }

    /// Whether this number is at most another one.
    pub fn at_most(self, other: Score) -> (r: bool)
        ensures
            r == self.spec_at_most(other),
    {
        !self.is_nan() && !other.is_nan() && self.rank() <= other.rank()
    }
}

/// How sure a model is of its decision: the number, and the same number
/// printed with two decimals for messages.
#[derive(Clone, Debug, PartialEq, Eq)]
pub struct Confidence {
    pub value: Score,
    pub two_decimals: String,
}

/// The model of a `Confidence`.
pub struct ConfidenceView {
    pub value: Score,
    pub two_decimals: Seq<char>,
}

impl View for Confidence {
    type V = ConfidenceView;

    open spec fn view(&self) -> ConfidenceView {
        ConfidenceView { value: self.value, two_decimals: self.two_decimals@ }
    }
}

impl DeepView for Confidence {
    type V = ConfidenceView;

    open spec fn deep_view(&self) -> ConfidenceView {
        self@
    }
}

impl Confidence {
    /// No confidence at all.
    pub fn zero() -> (r: Confidence)
        ensures
            r@ == (ConfidenceView { value: Score { bits: ZERO_BITS }, two_decimals: "0.00"@ }),
    {
        Confidence { value: Score { bits: ZERO_BITS }, two_decimals: "0.00".to_string() }
    }

    /// The confidence of thinking without an answer.
    pub fn three_tenths() -> (r: Confidence)
        ensures
            r@ == (ConfidenceView {
                value: Score { bits: THREE_TENTHS_BITS },
                two_decimals: "0.30"@,
            }),
    {
        Confidence { value: Score { bits: THREE_TENTHS_BITS }, two_decimals: "0.30".to_string() }
    }

    /// A copy of this confidence.
    pub fn copied(&self) -> (r: Confidence)
        ensures
            r == *self,
    {
        Confidence { value: self.value, two_decimals: self.two_decimals.clone() }
    }
}

// ---------------------------------------------------------------------------
// Laws
// ---------------------------------------------------------------------------

/// Scores are ordered as the numbers that they stand for: among those without a
/// sign by their bits, among those with a sign the other way round, and each of
/// the latter below the former, but for the two zeros, which are equal. What is
/// not a number is in no order.
pub proof fn law_scores_are_ordered_as_numbers(a: Score, b: Score)
    ensures
        ({
            let sign: u64 = 0x8000_0000_0000_0000;
            let infinity: u64 = 0x7ff0_0000_0000_0000;
            &&& a.bits <= infinity && b.bits <= infinity ==> (a.spec_below(b) <==> a.bits < b.bits)
                && (a.spec_at_most(b) <==> a.bits <= b.bits)
            &&& sign <= a.bits <= sign + infinity && sign <= b.bits <= sign + infinity ==> (
            a.spec_below(b) <==> a.bits > b.bits) && (a.spec_at_most(b) <==> a.bits >= b.bits)
            &&& sign < a.bits <= sign + infinity && b.bits <= infinity ==> a.spec_below(b)
                && !b.spec_at_most(a)
            &&& a.bits == sign && b.bits == 0 ==> a.spec_at_most(b) && b.spec_at_most(a)
                && !a.spec_below(b) && !b.spec_below(a)
            &&& infinity < a.bits < sign || a.bits > sign + infinity ==> !a.spec_below(b)
                && !b.spec_below(a) && !a.spec_at_most(b) && !b.spec_at_most(a)
        }),
{
}

} // verus!
