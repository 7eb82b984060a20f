//! 256-bit amounts of wei, as the node reports balances and gas prices:
//! the arithmetic a transfer's cost needs, comparison, and decimal text.
use vstd::prelude::*;

use crate::text::{decimal, digit_char, push_decimal};

verus! {

/// A 256-bit unsigned number in four 64-bit words, least significant first.
#[derive(Debug, Clone, Copy, PartialEq, Eq, Structural)]
pub struct Wide256 {
    pub w0: u64,
    pub w1: u64,
    pub w2: u64,
    pub w3: u64,
}

/// The number a value stands for.
pub open spec fn wide_value(x: Wide256) -> nat {
    x.w0 as nat + 0x10000000000000000nat * x.w1 as nat + 0x100000000000000000000000000000000nat * x.w2 as nat
        + 0x1000000000000000000000000000000000000000000000000nat * x.w3 as nat
}

/// One more than the largest 256-bit number.
pub open spec fn wide_limit() -> nat {
    0x10000000000000000000000000000000000000000000000000000000000000000nat
}

const WORD: u128 = 0x10000000000000000;

proof fn lemma_wide_bound(x: Wide256)
    ensures
        wide_value(x) < wide_limit(),
        x.w3 == 0 && x.w2 == 0 ==> wide_value(x) < 0x100000000000000000000000000000000nat,
{
}

impl Wide256 {
    /// A 128-bit number as a 256-bit one.
    pub fn from_u128(a: u128) -> (res: Wide256)
        ensures
            wide_value(res) == a,
    {
        Wide256 { w0: (a % WORD) as u64, w1: (a / WORD) as u64, w2: 0, w3: 0 }
    }

    /// `self * 21000`, for a cost that fits in 256 bits.
    pub fn times_transfer_gas(self) -> (res: Wide256)
        requires
            wide_value(self) * 21000 < wide_limit(),
        ensures
            wide_value(res) == wide_value(self) * 21000,
    {
        let t0: u128 = (self.w0 as u128) * 21000;
        let r0 = (t0 % WORD) as u64;
        let c0 = t0 / WORD;
        let t1: u128 = (self.w1 as u128) * 21000 + c0;
        let r1 = (t1 % WORD) as u64;
        let c1 = t1 / WORD;
        let t2: u128 = (self.w2 as u128) * 21000 + c1;
        let r2 = (t2 % WORD) as u64;
        let c2 = t2 / WORD;
        let t3: u128 = (self.w3 as u128) * 21000 + c2;
        let r3 = (t3 % WORD) as u64;
        let c3 = t3 / WORD;
        let res = Wide256 { w0: r0, w1: r1, w2: r2, w3: r3 };
        assert(wide_value(res) + 0x10000000000000000000000000000000000000000000000000000000000000000nat * c3
            == wide_value(self) * 21000);
        proof {
            lemma_wide_bound(res);
        }
        assert(c3 == 0);
        res
    }

    /// `self + a`, for a sum that fits in 256 bits.
    pub fn plus_u128(self, a: u128) -> (res: Wide256)
        requires
            wide_value(self) + a < wide_limit(),
        ensures
            wide_value(res) == wide_value(self) + a,
    {
        let a0 = a % WORD;
        let a1 = a / WORD;
        let s0: u128 = (self.w0 as u128) + a0;
        let r0 = (s0 % WORD) as u64;
        let c0 = s0 / WORD;
        let s1: u128 = (self.w1 as u128) + a1 + c0;
        let r1 = (s1 % WORD) as u64;
        let c1 = s1 / WORD;
        let s2: u128 = (self.w2 as u128) + c1;
        let r2 = (s2 % WORD) as u64;
        let c2 = s2 / WORD;
        let s3: u128 = (self.w3 as u128) + c2;
        let r3 = (s3 % WORD) as u64;
        let c3 = s3 / WORD;
        let res = Wide256 { w0: r0, w1: r1, w2: r2, w3: r3 };
        assert(wide_value(res) + 0x10000000000000000000000000000000000000000000000000000000000000000nat * c3
            == wide_value(self) + a);
        proof {
            lemma_wide_bound(res);
        }
        assert(c3 == 0);
        res
    }

    /// Whether `self >= other`.
    pub fn at_least(self, other: Wide256) -> (res: bool)
        ensures
            res == (wide_value(self) >= wide_value(other)),
    {
        if self.w3 != other.w3 {
            self.w3 > other.w3
        } else if self.w2 != other.w2 {
            self.w2 > other.w2
        } else if self.w1 != other.w1 {
            self.w1 > other.w1
        } else {
            self.w0 >= other.w0
        }
    }

    /// The quotient and remainder of a division by ten.
    fn div_rem_10(self) -> (res: (Wide256, u8))
        ensures
            wide_value(res.0) * 10 + res.1 == wide_value(self),
            res.1 < 10,
    {
        let a3 = self.w3 as u128;
        let q3 = a3 / 10;
        let m3 = a3 % 10;
        let a2 = m3 * WORD + self.w2 as u128;
        let q2 = a2 / 10;
        let m2 = a2 % 10;
        let a1 = m2 * WORD + self.w1 as u128;
        let q1 = a1 / 10;
        let m1 = a1 % 10;
        let a0 = m1 * WORD + self.w0 as u128;
        let q0 = a0 / 10;
        let m0 = a0 % 10;
        (Wide256 { w0: q0 as u64, w1: q1 as u64, w2: q2 as u64, w3: q3 as u64 }, m0 as u8)
    }
}

/// Appends the decimal digits of a 256-bit number.
pub fn push_decimal_wide(out: &mut Vec<char>, x: Wide256)
    ensures
        final(out)@ == old(out)@ + decimal(wide_value(x)),
    decreases wide_value(x),
{
    if x.w3 == 0 && x.w2 == 0 {
        let v: u128 = (x.w1 as u128) * WORD + x.w0 as u128;
        proof {
            lemma_wide_bound(x);
        }
        assert(v == wide_value(x));
        push_decimal(out, v);
        return;
    }
    let (q, r) = x.div_rem_10();
    let ghost v = wide_value(x);
    assert(v >= 10);
    assert(v / 10 == wide_value(q) && v % 10 == r as nat) by {
        vstd::arithmetic::div_mod::lemma_fundamental_div_mod_converse(
            v as int,
            10,
            wide_value(q) as int,
            r as int,
        );
    }
    push_decimal_wide(out, q);
    let c = (r + 48) as char;
    assert(c == digit_char(r as nat));
    out.push(c);
}

} // verus!
