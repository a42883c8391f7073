//! Numbers that do not run out.
use crate::model::minus;
use vstd::prelude::*;

verus! {

/// A natural number of any size.
///
/// The messages of a channel are numbered by these, so that a channel can be used however long. As
/// long as a number fits into 64 bits, nothing is allocated for it.
pub struct Number {
    // The lowest 64 bits.
    low: u64,
    // What is above them; nothing stands for zero.
    high: Option<Box<Number>>,
}

/// How one number lies to another.
enum Side {
    Below,
    Equal,
    Above,
}

impl Number {
    /// The value of the number.
    pub closed spec fn view(&self) -> nat
        decreases self,
    {
        self.low as nat + 0x1_0000_0000_0000_0000 * match self.high {
            None => 0,
            Some(high) => high.view(),
        }
    }

    /// Zero.
    pub fn zero() -> (number: Number)
        ensures
            number@ == 0,
    {
        Number { low: 0, high: None }
    }

    /// The same number once more.
    pub fn copy(&self) -> (number: Number)
        ensures
            number@ == self@,
        decreases self,
    {
        let high = match &self.high {
            None => None,
            Some(high) => Some(Box::new(high.copy())),
        };
        Number { low: self.low, high }
    }

    /// Makes the number larger by `n`.
    pub fn advance(&mut self, n: u64)
        ensures
            final(self)@ == old(self)@ + n,
        decreases *old(self),
    {
        if n <= u64::MAX - self.low {
            self.low = self.low + n;
        } else {
            self.low = self.low - (u64::MAX - n) - 1;
            proof {
                reveal_with_fuel(Number::view, 2);
            }
            let high = match self.high.take() {
                None => Number { low: 1, high: None },
                Some(high) => {
                    let mut high = *high;
                    high.advance(1);
                    high
                },
            };
            self.high = Some(Box::new(high));
        }
    }

    /// Whether the number is zero.
    fn is_zero(&self) -> (zero: bool)
        ensures
            zero == (self@ == 0),
        decreases self,
    {
        self.low == 0 && match &self.high {
            None => true,
            Some(high) => high.is_zero(),
        }
    }

    /// How the number lies to `other`.
    fn side(&self, other: &Number) -> (side: Side)
        ensures
            match side {
                Side::Below => self@ < other@,
                Side::Equal => self@ == other@,
                Side::Above => self@ > other@,
            },
        decreases self,
    {
        let high = match (&self.high, &other.high) {
            (None, None) => Side::Equal,
            (None, Some(high)) => if high.is_zero() {
                Side::Equal
            } else {
                Side::Below
            },
            (Some(high), None) => if high.is_zero() {
                Side::Equal
            } else {
                Side::Above
            },
            (Some(high), Some(other_high)) => high.side(other_high),
        };
        match high {
            Side::Equal => if self.low < other.low {
                Side::Below
            } else if self.low == other.low {
                Side::Equal
            } else {
                Side::Above
            },
            unequal => unequal,
        }
    }

    /// By how much the number is larger than `other`; zero if it is not.
    pub fn minus(&self, other: &Number) -> (difference: u64)
        requires
            minus(self@, other@) <= u64::MAX,
        ensures
            difference == minus(self@, other@),
    {
        match self.side(other) {
            Side::Above => self.low.wrapping_sub(other.low),
            _ => 0,
        }
    }
}

} // verus!
