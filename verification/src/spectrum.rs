//! Colours in three channels.

use crate::fixed::{
    fixed_add, fixed_mul, fx, lemma_product_sign, quot, saturate, wide_mul, wide_quot, Fixed,
    FIXED_MAX, ONE,
};
use vstd::prelude::*;

verus! {

/// A colour: radiance, or a factor on radiance, in three channels.
#[derive(Clone, Copy, Debug, PartialEq, Eq, Structural)]
pub struct Spectrum {
    pub r: Fixed,
    pub g: Fixed,
    pub b: Fixed,
}

impl Spectrum {
    /// The colour with the same value in every channel.
    pub open spec fn uniform(v: Fixed) -> Spectrum {
        Spectrum { r: v, g: v, b: v }
    }

    /// Whether no channel is negative.
    pub open spec fn is_valid(self) -> bool {
        self.r >= 0 && self.g >= 0 && self.b >= 0
    }

    /// Whether no channel is negative and none has reached the end of the range, which
    /// counts as infinite.
    pub open spec fn is_finite(self) -> bool {
        0 <= self.r < FIXED_MAX && 0 <= self.g < FIXED_MAX && 0 <= self.b < FIXED_MAX
    }

    /// Whether every channel is zero.
    pub open spec fn black(self) -> bool {
        self.r == 0 && self.g == 0 && self.b == 0
    }

    /// The channelwise sum, each channel kept in range.
    pub open spec fn plus(self, o: Spectrum) -> Spectrum {
        Spectrum { r: fx(self.r + o.r), g: fx(self.g + o.g), b: fx(self.b + o.b) }
    }

    /// The channelwise product, each channel rounded toward zero and kept in range.
    pub open spec fn times(self, o: Spectrum) -> Spectrum {
        Spectrum {
            r: fx(quot(self.r * o.r, ONE as int)),
            g: fx(quot(self.g * o.g, ONE as int)),
            b: fx(quot(self.b * o.b, ONE as int)),
        }
    }

    /// The colour times a scalar, each channel rounded toward zero and kept in range.
    pub open spec fn scaled(self, k: Fixed) -> Spectrum {
        self.times(Spectrum::uniform(k))
    }

    /// The colour divided by a scalar other than zero, each channel rounded toward zero and
    /// kept in range.
    pub open spec fn divided(self, k: Fixed) -> Spectrum {
        Spectrum {
            r: fx(quot(self.r * ONE, k as int)),
            g: fx(quot(self.g * ONE, k as int)),
            b: fx(quot(self.b * ONE, k as int)),
        }
    }

    /// The largest channel.
    pub open spec fn max_component(self) -> Fixed {
        if self.r >= self.g && self.r >= self.b {
            self.r
        } else if self.g >= self.b {
            self.g
        } else {
            self.b
        }
    }

    /// The colour with the same value in every channel.
    pub fn new(v: Fixed) -> (s: Spectrum)
        ensures
            s == Spectrum::uniform(v),
    {
        Spectrum { r: v, g: v, b: v }
    }

    /// Whether every channel is zero.
    pub fn is_black(&self) -> (r: bool)
        ensures
            r == self.black(),
    {
        self.r == 0 && self.g == 0 && self.b == 0
    }

    /// Whether no channel is negative.
    pub fn is_non_negative(&self) -> (r: bool)
        ensures
            r == self.is_valid(),
    {
        self.r >= 0 && self.g >= 0 && self.b >= 0
    }

    /// Whether no channel is negative and none has reached the end of the range.
    pub fn is_finite_non_negative(&self) -> (r: bool)
        ensures
            r == self.is_finite(),
    {
        0 <= self.r && self.r < FIXED_MAX && 0 <= self.g && self.g < FIXED_MAX && 0 <= self.b
            && self.b < FIXED_MAX
    }

    /// The channelwise sum of two colours.
    pub fn sum(&self, o: &Spectrum) -> (s: Spectrum)
        ensures
            s == self.plus(*o),
            self.is_valid() && o.is_valid() ==> s.is_valid(),
    {
        Spectrum { r: fixed_add(self.r, o.r), g: fixed_add(self.g, o.g), b: fixed_add(self.b, o.b) }
    }

    /// The channelwise product of two colours.
    pub fn product(&self, o: &Spectrum) -> (s: Spectrum)
        ensures
            s == self.times(*o),
            self.is_valid() && o.is_valid() ==> s.is_valid(),
    {
        proof {
            lemma_product_sign(self.r as int, o.r as int);
            lemma_product_sign(self.g as int, o.g as int);
            lemma_product_sign(self.b as int, o.b as int);
        }
        Spectrum { r: fixed_mul(self.r, o.r), g: fixed_mul(self.g, o.g), b: fixed_mul(self.b, o.b) }
    }

    /// The colour times a scalar.
    pub fn scale(&self, k: Fixed) -> (s: Spectrum)
        ensures
            s == self.scaled(k),
            self.is_valid() && k >= 0 ==> s.is_valid(),
    {
        self.product(&Spectrum::new(k))
    }

    /// The colour divided by a scalar other than zero.
    pub fn divide(&self, k: Fixed) -> (s: Spectrum)
        requires
            k != 0,
        ensures
            s == self.divided(k),
            self.is_valid() && k > 0 ==> s.is_valid(),
    {
        proof {
            lemma_product_sign(self.r as int, ONE as int);
            lemma_product_sign(self.g as int, ONE as int);
            lemma_product_sign(self.b as int, ONE as int);
        }
        Spectrum {
            r: saturate(wide_quot(wide_mul(self.r, ONE), k as i128)),
            g: saturate(wide_quot(wide_mul(self.g, ONE), k as i128)),
            b: saturate(wide_quot(wide_mul(self.b, ONE), k as i128)),
        }
    }

    /// The largest channel.
    pub fn max_component_value(&self) -> (m: Fixed)
        ensures
            m == self.max_component(),
            m >= self.r && m >= self.g && m >= self.b,
    {
        if self.r >= self.g && self.r >= self.b {
            self.r
        } else if self.g >= self.b {
            self.g
        } else {
            self.b
        }
    }
}

} // verus!
