use vstd::prelude::*;
use vstd::arithmetic::power2::{lemma2_to64, lemma_pow2_adds, lemma_pow2_pos, lemma_pow2_strictly_increases, lemma_pow2_unfold, pow2};
use vstd::arithmetic::div_mod::{lemma_basic_div, lemma_small_mod};

verus! {

/// A non-negative percentage held exactly as `mantissa × 2^exponent`, the
/// form in which a single-precision float holds it.
#[derive(Clone, Copy, Debug, PartialEq, Eq, Structural)]
pub struct Percent {
    pub mantissa: u32,
    pub exponent: i32,
}

/// Rounds `n / d` to the nearest integer, an exact half to the even one.
pub open spec fn round_half_even(n: int, d: int) -> int {
    let q = n / d;
    let r = n % d;
    if 2 * r < d {
        q
    } else if 2 * r > d {
        q + 1
    } else if q % 2 == 0 {
        q
    } else {
        q + 1
    }
}

impl Percent {
    /// The mantissa has at most 24 bits and the exponent the range of a float's.
    pub open spec fn wf(self) -> bool {
        self.mantissa < 0x100_0000 && -149 <= self.exponent <= 104
    }

    /// The value times `2^149`, a whole number.
    pub open spec fn scaled(self) -> int {
        self.mantissa * pow2((self.exponent + 149) as nat)
    }

    /// The value in tenths, rounded to the nearest, an exact half to even.
    pub open spec fn tenths(self) -> int {
        if self.exponent >= 0 {
            10 * self.mantissa * pow2(self.exponent as nat)
        } else {
            round_half_even(10 * self.mantissa, pow2((-self.exponent) as nat) as int)
        }
    }

    /// The percentage `mantissa × 2^exponent`, where the parts are in range.
    pub fn from_parts(mantissa: u32, exponent: i32) -> (r: Option<Percent>)
        ensures
            r is Some <==> (Percent { mantissa, exponent }).wf(),
            r matches Some(p) ==> p == (Percent { mantissa, exponent }),
    {
        if mantissa < 0x100_0000 && -149 <= exponent && exponent <= 104 {
            Some(Percent { mantissa, exponent })
        } else {
            None
        }
    }

    /// Whether this percentage is at least `other`.
    pub fn at_least(self, other: Percent) -> (r: bool)
        requires
            self.wf(),
            other.wf(),
        ensures
            r == (self.scaled() >= other.scaled()),
    {
        if self.exponent >= other.exponent {
            let d = (self.exponent - other.exponent) as u32;
            assert((self.exponent + 149) as nat == d as nat + (other.exponent + 149) as nat);
            proof {
                lemma_scale_split(self.mantissa as int, d as nat, (other.exponent + 149) as nat, other.mantissa as int);
            }
            if self.mantissa == 0 {
                assert(self.mantissa * pow2(d as nat) == 0) by (nonlinear_arith)
                    requires self.mantissa == 0;
                other.mantissa == 0
            } else if d >= 24 {
                proof {
                    lemma_big_shift(self.mantissa as int, d as nat, other.mantissa as int);
                }
                true
            } else {
                let p = pow2_u128(d);
                proof {
                    lemma_pow2_strictly_increases(d as nat, 24);
                    lemma2_to64();
                    assert(self.mantissa * p < 0x100_0000 * 0x100_0000) by (nonlinear_arith)
                        requires self.mantissa < 0x100_0000, p < 0x100_0000;
                }
                self.mantissa as u128 * p >= other.mantissa as u128
            }
        } else {
            let d = (other.exponent - self.exponent) as u32;
            assert((other.exponent + 149) as nat == d as nat + (self.exponent + 149) as nat);
            proof {
                lemma_scale_split(other.mantissa as int, d as nat, (self.exponent + 149) as nat, self.mantissa as int);
            }
            if other.mantissa == 0 {
                assert(other.mantissa * pow2(d as nat) == 0) by (nonlinear_arith)
                    requires other.mantissa == 0;
                true
            } else if d >= 24 {
                proof {
                    lemma_big_shift(other.mantissa as int, d as nat, self.mantissa as int);
                }
                false
            } else {
                let p = pow2_u128(d);
                proof {
                    lemma_pow2_strictly_increases(d as nat, 24);
                    lemma2_to64();
                    assert(other.mantissa * p < 0x100_0000 * 0x100_0000) by (nonlinear_arith)
                        requires other.mantissa < 0x100_0000, p < 0x100_0000;
                }
                self.mantissa as u128 >= other.mantissa as u128 * p
            }
        }
    }

    /// The value in tenths, split into its whole part and its tenth digit.
    pub fn tenths_parts(self) -> (r: (u128, u128))
        requires
            self.wf(),
        ensures
            r.0 == self.tenths() / 10,
            r.1 == self.tenths() % 10,
    {
        if self.exponent >= 0 {
            let e = self.exponent as u32;
            let p = pow2_u128(e);
            proof {
                if e < 104 {
                    lemma_pow2_strictly_increases(e as nat, 104);
                }
                lemma_pow2_pos(e as nat);
                lemma_pow2_adds(24, 104);
                lemma_pow2_adds(64, 64);
                lemma2_to64();
                assert(self.mantissa * p < pow2(24) * pow2(104)) by (nonlinear_arith)
                    requires self.mantissa < pow2(24), p <= pow2(104), p > 0;
            }
            let x = self.mantissa as u128 * p;
            assert(self.tenths() == 10 * x) by (nonlinear_arith)
                requires x == self.mantissa * p, self.tenths() == 10 * self.mantissa * p;
            (x, 0)
        } else {
            let k = (-self.exponent) as u32;
            proof {
                lemma_pow2_pos(k as nat);
            }
            if k >= 30 {
                proof {
                    lemma_pow2_strictly_increases(29, k as nat);
                    lemma2_to64();
                    let n = 10 * self.mantissa;
                    lemma_basic_div(n, pow2(k as nat) as int);
                    lemma_small_mod(n as nat, pow2(k as nat));
                }
                (0, 0)
            } else {
                let d = pow2_u128(k);
                proof {
                    if k < 29 {
                        lemma_pow2_strictly_increases(k as nat, 29);
                    }
                    lemma2_to64();
                }
                let n = 10 * self.mantissa as u128;
                let q = n / d;
                let r = n % d;
                let t: u128 = if 2 * r < d {
                    q
                } else if 2 * r > d {
                    q + 1
                } else if q % 2 == 0 {
                    q
                } else {
                    q + 1
                };
                (t / 10, t % 10)
            }
        }
    }
}

proof fn lemma_scale_split(ma: int, d: nat, eb: nat, mb: int)
    requires
        0 <= ma,
        0 <= mb,
    ensures
        (ma * pow2(d + eb) >= mb * pow2(eb)) == (ma * pow2(d) >= mb),
        (mb * pow2(eb) >= ma * pow2(d + eb)) == (mb >= ma * pow2(d)),
{
    lemma_pow2_adds(d, eb);
    lemma_pow2_pos(eb);
    let p = pow2(eb) as int;
    let q = pow2(d) as int;
    assert(ma * (q * p) == (ma * q) * p) by (nonlinear_arith);
    assert(((ma * q) * p >= mb * p) == (ma * q >= mb)) by (nonlinear_arith)
        requires p > 0;
    assert((mb * p >= (ma * q) * p) == (mb >= ma * q)) by (nonlinear_arith)
        requires p > 0;
}

proof fn lemma_big_shift(ma: int, d: nat, mb: int)
    requires
        1 <= ma,
        0 <= mb < 0x100_0000,
        d >= 24,
    ensures
        ma * pow2(d) > mb,
{
    if d > 24 {
        lemma_pow2_strictly_increases(24, d);
    }
    lemma2_to64();
    assert(ma * pow2(d) >= pow2(d)) by (nonlinear_arith)
        requires ma >= 1;
}

/// `2^k` as an integer.
fn pow2_u128(k: u32) -> (r: u128)
    requires
        k < 128,
    ensures
        r == pow2(k as nat),
{
    let mut r: u128 = 1;
    let mut i: u32 = 0;
    proof {
        lemma2_to64();
        lemma_pow2_adds(64, 64);
    }
    while i < k
        invariant
            i <= k < 128,
            r == pow2(i as nat),
            pow2(128) == 0x1_0000_0000_0000_0000 * 0x1_0000_0000_0000_0000,
        decreases k - i,
    {
        proof {
            lemma_pow2_unfold((i + 1) as nat);
            if i + 1 < 128 {
                lemma_pow2_strictly_increases((i + 1) as nat, 128);
            }
        }
        r = r * 2;
        i = i + 1;
    }
    r
}

} // verus!
