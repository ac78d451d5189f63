//! Integer arithmetic shared by the geometry and classification code:
//! floor square roots, floor division, fixed-point cosines and the
//! mean / standard-deviation outlier test.
use vstd::prelude::*;

verus! {

/// Scale of the fixed-point cosines: a cosine of 1 is `COS_SCALE`.
pub const COS_SCALE: i64 = 1000000;

/// `r` is the floor of the square root of `n`.
pub open spec fn is_floor_sqrt(n: int, r: int) -> bool {
    0 <= r && r * r <= n && n < (r + 1) * (r + 1)
}

/// The floor of the square root of a non-negative `n`.
pub open spec fn floor_sqrt(n: int) -> int {
    choose|r: int| is_floor_sqrt(n, r)
}

proof fn lemma_floor_sqrt_unique(n: int, a: int, b: int)
    requires
        is_floor_sqrt(n, a),
        is_floor_sqrt(n, b),
    ensures
        a == b,
{
    if a < b {
        assert((a + 1) * (a + 1) <= b * b) by (nonlinear_arith)
            requires
                0 <= a,
                a + 1 <= b,
        ;
    } else if b < a {
        assert((b + 1) * (b + 1) <= a * a) by (nonlinear_arith)
            requires
                0 <= b,
                b + 1 <= a,
        ;
    }
}

/// Any witness is the floor square root.
pub proof fn lemma_floor_sqrt_is(n: int, r: int)
    requires
        is_floor_sqrt(n, r),
    ensures
        floor_sqrt(n) == r,
{
    assert(is_floor_sqrt(n, floor_sqrt(n)));
    lemma_floor_sqrt_unique(n, r, floor_sqrt(n));
}

/// Floor of the square root, by bisection.
pub fn isqrt(n: u128) -> (r: u64)
    ensures
        is_floor_sqrt(n as int, r as int),
        r as int == floor_sqrt(n as int),
{
    let mut lo: u128 = 0;
    let mut hi: u128 = 0x1_0000_0000_0000_0000;
    assert(n < hi * hi) by (nonlinear_arith)
        requires
            hi == 0x1_0000_0000_0000_0000u128,
            n <= u128::MAX,
    ;
    while hi - lo > 1
        invariant
            lo < hi <= 0x1_0000_0000_0000_0000u128,
            lo * lo <= n,
            n < hi * hi,
        decreases hi - lo,
    {
        let mid: u128 = lo + (hi - lo) / 2;
        assert(mid * mid <= u128::MAX) by (nonlinear_arith)
            requires
                mid < 0x1_0000_0000_0000_0000u128,
        ;
        if mid * mid <= n {
            lo = mid;
        } else {
            hi = mid;
        }
    }
    assert(is_floor_sqrt(n as int, lo as int));
    proof {
        lemma_floor_sqrt_is(n as int, lo as int);
    }
    lo as u64
}

/// Floor division by a positive divisor.
pub fn floor_div(a: i64, b: i64) -> (q: i64)
    requires
        b > 0,
        a > i64::MIN,
    ensures
        q as int == (a as int) / (b as int),
{
    if a >= 0 {
        a / b
    } else {
        let na: u64 = (-(a as i128)) as u64;
        let q0: u64 = na / (b as u64);
        let r0: u64 = na % (b as u64);
        proof {
            vstd::arithmetic::div_mod::lemma_fundamental_div_mod(na as int, b as int);
            assert(q0 as int <= na as int) by {
                vstd::arithmetic::div_mod::lemma_div_is_ordered_by_denominator(na as int, 1, b as int);
            }
        }
        if r0 == 0 {
            proof {
                assert(a as int == -(q0 as int) * (b as int) + 0) by (nonlinear_arith)
                    requires
                        na as int == (b as int) * (q0 as int) + r0 as int,
                        r0 == 0,
                        a as int == -(na as int),
                ;
                vstd::arithmetic::div_mod::lemma_fundamental_div_mod_converse(
                    a as int,
                    b as int,
                    -(q0 as int),
                    0,
                );
            }
            -(q0 as i64)
        } else {
            proof {
                assert(a as int == (-(q0 as int) - 1) * (b as int) + (b - r0)) by (nonlinear_arith)
                    requires
                        na as int == (b as int) * (q0 as int) + r0 as int,
                        a as int == -(na as int),
                ;
                vstd::arithmetic::div_mod::lemma_fundamental_div_mod_converse(
                    a as int,
                    b as int,
                    -(q0 as int) - 1,
                    b - r0,
                );
            }
            -(q0 as i64) - 1
        }
    }
}

/// Floor division by a positive divisor, on 128-bit integers.
pub fn floor_div_wide(a: i128, b: i128) -> (q: i128)
    requires
        b > 0,
        a > i128::MIN,
    ensures
        q as int == (a as int) / (b as int),
{
    if a >= 0 {
        a / b
    } else {
        let na: u128 = (-a) as u128;
        let q0: u128 = na / (b as u128);
        let r0: u128 = na % (b as u128);
        proof {
            vstd::arithmetic::div_mod::lemma_fundamental_div_mod(na as int, b as int);
            assert(q0 as int <= na as int) by {
                vstd::arithmetic::div_mod::lemma_div_is_ordered_by_denominator(na as int, 1, b as int);
            }
        }
        if r0 == 0 {
            proof {
                assert(a as int == -(q0 as int) * (b as int) + 0) by (nonlinear_arith)
                    requires
                        na as int == (b as int) * (q0 as int) + r0 as int,
                        r0 == 0,
                        a as int == -(na as int),
                ;
                vstd::arithmetic::div_mod::lemma_fundamental_div_mod_converse(
                    a as int,
                    b as int,
                    -(q0 as int),
                    0,
                );
            }
            -(q0 as i128)
        } else {
            proof {
                assert(a as int == (-(q0 as int) - 1) * (b as int) + (b - r0)) by (nonlinear_arith)
                    requires
                        na as int == (b as int) * (q0 as int) + r0 as int,
                        a as int == -(na as int),
                ;
                vstd::arithmetic::div_mod::lemma_fundamental_div_mod_converse(
                    a as int,
                    b as int,
                    -(q0 as int) - 1,
                    b - r0,
                );
            }
            -(q0 as i128) - 1
        }
    }
}

/// Sum of a sequence of integers.
pub open spec fn seq_sum(s: Seq<int>) -> int
    decreases s.len(),
{
    if s.len() == 0 {
        0
    } else {
        seq_sum(s.drop_last()) + s.last()
    }
}

/// Sum of squares of a sequence of integers.
pub open spec fn seq_sum_sq(s: Seq<int>) -> int
    decreases s.len(),
{
    if s.len() == 0 {
        0
    } else {
        seq_sum_sq(s.drop_last()) + s.last() * s.last()
    }
}

/// `v` lies more than one and a half standard deviations below the mean of
/// `s`: with `n` values of sum `S` and sum of squares `Q`, the mean less `v` is
/// `(S - n v) / n` and the variance `(n Q - S^2) / n^2`.
pub open spec fn is_low_outlier(s: Seq<int>, v: int) -> bool {
    let n = s.len() as int;
    let total = seq_sum(s);
    &&& total - n * v > 0
    &&& 4 * ((total - n * v) * (total - n * v)) > 9 * (n * seq_sum_sq(s) - total * total)
}

/// `v` lies more than `dis` away from the mean of `s`.
pub open spec fn far_from_mean(s: Seq<int>, v: int, dis: int) -> bool {
    let n = s.len() as int;
    let d = n * v - seq_sum(s);
    d > n * dis || -d > n * dis
}

/// The values of a vector as integers.
pub open spec fn int_seq(v: Seq<i64>) -> Seq<int> {
    v.map_values(|x: i64| x as int)
}

/// Bound on the values that the outlier tests take.
pub open spec fn small_values(vals: Seq<i64>) -> bool {
    &&& 1 <= vals.len() <= 4
    &&& forall|i: int| 0 <= i < vals.len() ==> -4000000 <= #[trigger] vals[i] <= 4000000
}

fn sums(vals: &Vec<i64>) -> (r: (i128, i128))
    requires
        small_values(vals@),
    ensures
        r.0 as int == seq_sum(int_seq(vals@)),
        r.1 as int == seq_sum_sq(int_seq(vals@)),
        -16000000 <= r.0 <= 16000000,
        0 <= r.1 <= 64000000000000,
{
    let mut total: i128 = 0;
    let mut total_sq: i128 = 0;
    let mut i: usize = 0;
    while i < vals.len()
        invariant
            i <= vals.len() <= 4,
            small_values(vals@),
            total as int == seq_sum(int_seq(vals@).take(i as int)),
            total_sq as int == seq_sum_sq(int_seq(vals@).take(i as int)),
            -4000000 * i <= total <= 4000000 * i,
            0 <= total_sq <= 16000000000000 * i,
        decreases vals.len() - i,
    {
        let x = vals[i];
        proof {
            let s = int_seq(vals@);
            assert(s.take(i as int + 1).drop_last() =~= s.take(i as int));
            assert(s.take(i as int + 1).last() == x as int);
            assert(x as int * x as int <= 16000000000000) by (nonlinear_arith)
                requires
                    -4000000 <= x <= 4000000,
            ;
            assert(0 <= x as int * x as int) by (nonlinear_arith);
        }
        total = total + x as i128;
        total_sq = total_sq + (x as i128) * (x as i128);
        i = i + 1;
    }
    assert(int_seq(vals@).take(vals.len() as int) =~= int_seq(vals@));
    (total, total_sq)
}

/// Whether `v` is a low outlier of `vals` (see `is_low_outlier`).
pub fn low_outlier(vals: &Vec<i64>, v: i64) -> (r: bool)
    requires
        small_values(vals@),
        -4000000 <= v <= 4000000,
    ensures
        r == is_low_outlier(int_seq(vals@), v as int),
{
    let (total, total_sq) = sums(vals);
    let n = vals.len() as i128;
    assert(int_seq(vals@).len() == n);
    assert(-16000000 <= n * (v as i128) <= 16000000) by (nonlinear_arith)
        requires
            1 <= n <= 4,
            -4000000 <= v <= 4000000,
    ;
    let d = total - n * (v as i128);
    if d <= 0 {
        return false;
    }
    assert(0 <= d * d <= 1000000000000000000i128) by (nonlinear_arith)
        requires
            0 < d <= 40000000,
    ;
    assert(0 <= n * total_sq <= 1000000000000000i128) by (nonlinear_arith)
        requires
            0 <= total_sq <= 64000000000000,
            1 <= n <= 4,
    ;
    assert(0 <= total * total <= 1000000000000000i128) by (nonlinear_arith)
        requires
            -16000000 <= total <= 16000000,
    ;
    let dd = d * d;
    let tt = total * total;
    let nq = n * total_sq;
    4 * dd > 9 * (nq - tt)
}

/// Whether `v` lies more than `dis` away from the mean of `vals`.
pub fn far_from_mean_exec(vals: &Vec<i64>, v: i64, dis: i64) -> (r: bool)
    requires
        small_values(vals@),
        -4000000 <= v <= 4000000,
        -4000000 <= dis <= 4000000,
    ensures
        r == far_from_mean(int_seq(vals@), v as int, dis as int),
{
    let (total, _) = sums(vals);
    let n = vals.len() as i128;
    assert(int_seq(vals@).len() == n);
    assert(-16000000 <= n * (v as i128) <= 16000000) by (nonlinear_arith)
        requires
            1 <= n <= 4,
            -4000000 <= v <= 4000000,
    ;
    assert(-16000000 <= n * (dis as i128) <= 16000000) by (nonlinear_arith)
        requires
            1 <= n <= 4,
            -4000000 <= dis <= 4000000,
    ;
    let d = n * (v as i128) - total;
    d > n * (dis as i128) || -d > n * (dis as i128)
}

} // verus!
