//! Difficulties: unsigned 256-bit numbers, held as four 64-bit limbs, with the
//! two operations that the difficulty adjustment needs.

use vstd::prelude::*;
use vstd::arithmetic::div_mod::{
    lemma_fundamental_div_mod, lemma_fundamental_div_mod_converse, lemma_mod_pos_bound,
};

verus! {

/// An unsigned 256-bit number: `w0 + w1 * 2^64 + w2 * 2^128 + w3 * 2^192`.
#[derive(Clone, Copy, Debug, PartialEq, Eq, Structural)]
pub struct Difficulty {
    pub w0: u64,
    pub w1: u64,
    pub w2: u64,
    pub w3: u64,
}

/// The base of a limb, `2^64`.
pub open spec fn limb_base() -> int {
    18446744073709551616
}

/// The largest value of a 256-bit number, `2^256 - 1`.
pub open spec fn max_value() -> int {
    limb_base() * limb_base() * limb_base() * limb_base() - 1
}

/// The value of four limbs, least significant first.
pub open spec fn limbs_value(w0: int, w1: int, w2: int, w3: int) -> int {
    w0 + w1 * limb_base() + w2 * (limb_base() * limb_base()) + w3 * (limb_base() * limb_base()
        * limb_base())
}

impl Difficulty {
    /// The number that the limbs hold.
    pub open spec fn value(self) -> int {
        limbs_value(self.w0 as int, self.w1 as int, self.w2 as int, self.w3 as int)
    }

    /// The difficulty of value `v`.
    pub fn from_u128(v: u128) -> (d: Difficulty)
        ensures
            d.value() == v,
    {
        let lo = (v % 0x1_0000_0000_0000_0000u128) as u64;
        let hi = (v / 0x1_0000_0000_0000_0000u128) as u64;
        proof {
            lemma_fundamental_div_mod(v as int, limb_base());
        }
        Difficulty { w0: lo, w1: hi, w2: 0, w3: 0 }
    }

    /// The quotient of the integer division by `d`.
    pub fn div_u64(&self, d: u64) -> (q: Difficulty)
        requires
            d > 0,
        ensures
            q.value() == self.value() / (d as int),
    {
        let dd = d as u128;
        let b: u128 = 0x1_0000_0000_0000_0000u128;
        let c3 = self.w3 as u128;
        proof {
            lemma_div_step(0, self.w3 as int, d as int);
        }
        let q3 = c3 / dd;
        let r3 = c3 % dd;
        proof {
            lemma_div_step(r3 as int, self.w2 as int, d as int);
        }
        let c2 = r3 * b + self.w2 as u128;
        let q2 = c2 / dd;
        let r2 = c2 % dd;
        proof {
            lemma_div_step(r2 as int, self.w1 as int, d as int);
        }
        let c1 = r2 * b + self.w1 as u128;
        let q1 = c1 / dd;
        let r1 = c1 % dd;
        proof {
            lemma_div_step(r1 as int, self.w0 as int, d as int);
        }
        let c0 = r1 * b + self.w0 as u128;
        let q0 = c0 / dd;
        let r0 = c0 % dd;
        let q = Difficulty { w0: q0 as u64, w1: q1 as u64, w2: q2 as u64, w3: q3 as u64 };
        proof {
            lemma_div_combine(
                self.w0 as int,
                self.w1 as int,
                self.w2 as int,
                self.w3 as int,
                q0 as int,
                q1 as int,
                q2 as int,
                q3 as int,
                r0 as int,
                r1 as int,
                r2 as int,
                r3 as int,
                d as int,
            );
            lemma_fundamental_div_mod_converse(self.value(), d as int, q.value(), r0 as int);
        }
        q
    }

    /// The product with `m`, which must fit in 256 bits.
    pub fn mul_u64(&self, m: u64) -> (p: Difficulty)
        requires
            self.value() * m <= max_value(),
        ensures
            p.value() == self.value() * m,
    {
        let b: u128 = 0x1_0000_0000_0000_0000u128;
        let mm = m as u128;
        proof {
            lemma_mul_step(self.w0 as int, m as int, 0);
        }
        let p0 = self.w0 as u128 * mm;
        let s0 = p0 % b;
        let c1 = p0 / b;
        proof {
            lemma_mul_step(self.w1 as int, m as int, c1 as int);
        }
        let p1 = self.w1 as u128 * mm + c1;
        let s1 = p1 % b;
        let c2 = p1 / b;
        proof {
            lemma_mul_step(self.w2 as int, m as int, c2 as int);
        }
        let p2 = self.w2 as u128 * mm + c2;
        let s2 = p2 % b;
        let c3 = p2 / b;
        proof {
            lemma_mul_step(self.w3 as int, m as int, c3 as int);
        }
        let p3 = self.w3 as u128 * mm + c3;
        let s3 = p3 % b;
        let c4 = p3 / b;
        let p = Difficulty { w0: s0 as u64, w1: s1 as u64, w2: s2 as u64, w3: s3 as u64 };
        proof {
            assert(p.w0 == s0 && p.w1 == s1 && p.w2 == s2 && p.w3 == s3);
            assert(c4 >= 0);
            lemma_mul_combine(
                self.w0 as int,
                self.w1 as int,
                self.w2 as int,
                self.w3 as int,
                m as int,
                s0 as int,
                s1 as int,
                s2 as int,
                s3 as int,
                c1 as int,
                c2 as int,
                c3 as int,
                c4 as int,
            );
            assert(self.value() * m == p.value() + c4 * (limb_base() * limb_base() * limb_base()
                * limb_base()));
            assert(c4 == 0) by (nonlinear_arith)
                requires
                    self.value() * m == p.value() + c4 * (limb_base() * limb_base() * limb_base()
                        * limb_base()),
                    self.value() * m <= max_value(),
                    p.value() >= 0,
                    c4 >= 0,
                    max_value() == limb_base() * limb_base() * limb_base() * limb_base() - 1,
                    limb_base() > 0,
            ;
            let x = self.value() * m;
            let big = limb_base() * limb_base() * limb_base() * limb_base();
            assert(x == p.value()) by (nonlinear_arith)
                requires
                    x == p.value() + c4 * big,
                    c4 == 0,
            ;
        }
        p
    }
}

/// One step of a long division by `d`: the remainder so far `r` with the next
/// limb `w` is below `d * 2^64` (and so below `2^128`), and splits into a
/// quotient limb and a new remainder.
proof fn lemma_div_step(r: int, w: int, d: int)
    requires
        0 < d < limb_base(),
        0 <= r < d,
        0 <= w < limb_base(),
    ensures
        0 <= r * limb_base() + w < d * limb_base(),
        d * limb_base() < limb_base() * limb_base(),
        r * limb_base() < limb_base() * limb_base(),
        (r * limb_base() + w) / d < limb_base(),
        (r * limb_base() + w) / d >= 0,
        r * limb_base() + w == ((r * limb_base() + w) / d) * d + (r * limb_base() + w) % d,
        0 <= (r * limb_base() + w) % d < d,
{
    let b = limb_base();
    let c = r * b + w;
    assert(0 <= c < d * b && d * b < b * b && r * b < b * b) by (nonlinear_arith)
        requires
            0 < d < b,
            0 <= r < d,
            0 <= w < b,
            c == r * b + w,
    ;
    lemma_fundamental_div_mod(c, d);
    lemma_mod_pos_bound(c, d);
    let q = c / d;
    assert(q * d == d * q) by (nonlinear_arith);
    assert(0 <= q < b) by (nonlinear_arith)
        requires
            d > 0,
            d * q + c % d == c,
            0 <= c % d < d,
            0 <= c < d * b,
    ;
}

/// The four division steps together: the limbs' value is the quotient's value
/// times `d` plus the last remainder.
proof fn lemma_div_combine(
    w0: int,
    w1: int,
    w2: int,
    w3: int,
    q0: int,
    q1: int,
    q2: int,
    q3: int,
    r0: int,
    r1: int,
    r2: int,
    r3: int,
    d: int,
)
    requires
        w3 == q3 * d + r3,
        r3 * limb_base() + w2 == q2 * d + r2,
        r2 * limb_base() + w1 == q1 * d + r1,
        r1 * limb_base() + w0 == q0 * d + r0,
    ensures
        limbs_value(w0, w1, w2, w3) == limbs_value(q0, q1, q2, q3) * d + r0,
{
    let b = limb_base();
    assert(w0 + w1 * b + w2 * (b * b) + w3 * (b * b * b) == (q0 + q1 * b + q2 * (b * b) + q3 * (b
        * b * b)) * d + r0) by (nonlinear_arith)
        requires
            w3 == q3 * d + r3,
            r3 * b + w2 == q2 * d + r2,
            r2 * b + w1 == q1 * d + r1,
            r1 * b + w0 == q0 * d + r0,
    ;
}

/// One step of a multiplication by `m`: a limb times `m` plus the carry `c` is
/// below `2^128`, and splits into a result limb and a new carry below `2^64`.
proof fn lemma_mul_step(w: int, m: int, c: int)
    requires
        0 <= w < limb_base(),
        0 <= m < limb_base(),
        0 <= c < limb_base(),
    ensures
        0 <= w * m,
        w * m + c < limb_base() * limb_base(),
        w * m < limb_base() * limb_base(),
        w * m + c == ((w * m + c) / limb_base()) * limb_base() + (w * m + c) % limb_base(),
        0 <= (w * m + c) % limb_base() < limb_base(),
        0 <= (w * m + c) / limb_base() < limb_base(),
{
    let b = limb_base();
    let p = w * m + c;
    assert(0 <= w * m && w * m <= (b - 1) * (b - 1) && p < b * b) by (nonlinear_arith)
        requires
            0 <= w < b,
            0 <= m < b,
            0 <= c < b,
            p == w * m + c,
    ;
    lemma_fundamental_div_mod(p, b);
    lemma_mod_pos_bound(p, b);
    let q = p / b;
    assert(q * b == b * q) by (nonlinear_arith);
    assert(0 <= q < b) by (nonlinear_arith)
        requires
            b > 0,
            b * q + p % b == p,
            0 <= p % b < b,
            0 <= p < b * b,
    ;
}

/// The four multiplication steps together: the limbs' value times `m` is the
/// result's value plus the last carry times `2^256`.
proof fn lemma_mul_combine(
    w0: int,
    w1: int,
    w2: int,
    w3: int,
    m: int,
    s0: int,
    s1: int,
    s2: int,
    s3: int,
    c1: int,
    c2: int,
    c3: int,
    c4: int,
)
    requires
        w0 * m == c1 * limb_base() + s0,
        w1 * m + c1 == c2 * limb_base() + s1,
        w2 * m + c2 == c3 * limb_base() + s2,
        w3 * m + c3 == c4 * limb_base() + s3,
    ensures
        limbs_value(w0, w1, w2, w3) * m == limbs_value(s0, s1, s2, s3) + c4 * (limb_base()
            * limb_base() * limb_base() * limb_base()),
{
    let b = limb_base();
    let (x0, x1, x2, x3) = (w0 * m, w1 * m, w2 * m, w3 * m);
    assert((w0 + w1 * b + w2 * (b * b) + w3 * (b * b * b)) * m == x0 + x1 * b + x2 * (b * b) + x3
        * (b * b * b)) by (nonlinear_arith)
        requires
            x0 == w0 * m,
            x1 == w1 * m,
            x2 == w2 * m,
            x3 == w3 * m,
    ;
    assert(x0 + x1 * b + x2 * (b * b) + x3 * (b * b * b) == s0 + s1 * b + s2 * (b * b) + s3 * (b
        * b * b) + c4 * (b * b * b * b)) by (nonlinear_arith)
        requires
            x0 == c1 * b + s0,
            x1 + c1 == c2 * b + s1,
            x2 + c2 == c3 * b + s2,
            x3 + c3 == c4 * b + s3,
    ;
}

} // verus!
