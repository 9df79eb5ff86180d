//! Integer powers with overflow detection.
use vstd::prelude::*;

verus! {

/// `b` to the power `e`.
pub open spec fn int_pow(b: int, e: nat) -> int
    decreases e,
{
    if e == 0 {
        1
    } else {
        b * int_pow(b, (e - 1) as nat)
    }
}

/// Whether an integer fits in an `i64`.
pub open spec fn fits_i64(x: int) -> bool {
    i64::MIN <= x <= i64::MAX
}

/// The absolute value.
pub open spec fn abs_int(x: int) -> int {
    if x < 0 {
        -x
    } else {
        x
    }
}

proof fn lemma_abs_mul(a: int, b: int)
    ensures
        abs_int(a * b) == abs_int(a) * abs_int(b),
{
    if a < 0 {
        if b < 0 {
            assert(a * b == (-a) * (-b)) by (nonlinear_arith);
            assert((-a) * (-b) >= 0) by (nonlinear_arith)
                requires
                    -a > 0,
                    -b > 0,
            ;
        } else {
            assert(a * b == -((-a) * b)) by (nonlinear_arith);
            assert((-a) * b >= 0) by (nonlinear_arith)
                requires
                    -a > 0,
                    b >= 0,
            ;
        }
    } else {
        if b < 0 {
            assert(a * b == -(a * (-b))) by (nonlinear_arith);
            assert(a * (-b) >= 0) by (nonlinear_arith)
                requires
                    a >= 0,
                    -b > 0,
            ;
        } else {
            assert(a * b >= 0) by (nonlinear_arith)
                requires
                    a >= 0,
                    b >= 0,
            ;
        }
    }
}

/// Powers of 0, 1 and -1.
proof fn lemma_pow_small(b: int, e: nat)
    ensures
        b == 0 && e > 0 ==> int_pow(b, e) == 0,
        b == 1 ==> int_pow(b, e) == 1,
        b == -1 ==> int_pow(b, e) == (if e % 2 == 0 { 1int } else { -1int }),
    decreases e,
{
    if e > 0 {
        lemma_pow_small(b, (e - 1) as nat);
    }
}

/// For a base of absolute value at least 1, the absolute value of the
/// power does not shrink as the exponent grows.
proof fn lemma_abs_pow_mono(b: int, j: nat, k: nat)
    requires
        abs_int(b) >= 1,
        j <= k,
    ensures
        abs_int(int_pow(b, j)) <= abs_int(int_pow(b, k)),
    decreases k,
{
    if j < k {
        lemma_abs_pow_mono(b, j, (k - 1) as nat);
        let p = int_pow(b, (k - 1) as nat);
        lemma_abs_mul(b, p);
        assert(abs_int(b) * abs_int(p) >= abs_int(p)) by (nonlinear_arith)
            requires
                abs_int(b) >= 1,
                abs_int(p) >= 0,
        ;
    }
}

/// With a base of absolute value at least 2, a power that does not fit in
/// an `i64` stays out of range for every larger exponent.
proof fn lemma_out_stays(b: int, k: nat, e: nat)
    requires
        abs_int(b) >= 2,
        k <= e,
        !fits_i64(int_pow(b, k)),
    ensures
        !fits_i64(int_pow(b, e)),
{
    if k < e {
        let p = int_pow(b, k);
        assert(abs_int(p) >= 0x8000_0000_0000_0000);
        lemma_abs_mul(b, p);
        assert(abs_int(b) * abs_int(p) >= 2 * 0x8000_0000_0000_0000) by (nonlinear_arith)
            requires
                abs_int(b) >= 2,
                abs_int(p) >= 0x8000_0000_0000_0000,
        ;
        assert(int_pow(b, (k + 1) as nat) == b * p);
        lemma_abs_pow_mono(b, (k + 1) as nat, e);
    }
}

/// `i64::checked_pow`: the power, or `None` where it does not fit.
pub fn checked_pow_i64(b: i64, e: u32) -> (r: Option<i64>)
    ensures
        match r {
            Some(x) => x == int_pow(b as int, e as nat),
            None => !fits_i64(int_pow(b as int, e as nat)),
        },
{
    proof {
        lemma_pow_small(b as int, e as nat);
    }
    if b == 0 {
        return Some(if e == 0 { 1 } else { 0 });
    }
    if b == 1 {
        return Some(1);
    }
    if b == -1 {
        return Some(if e % 2 == 0 { 1 } else { -1 });
    }
    let mut acc: i64 = 1;
    let mut i: u32 = 0;
    while i < e
        invariant
            i <= e,
            acc == int_pow(b as int, i as nat),
            abs_int(b as int) >= 2,
        decreases e - i,
    {
        assert(int_pow(b as int, (i + 1) as nat) == b * acc);
        assert(acc * b == b * acc) by (nonlinear_arith);
        match acc.checked_mul(b) {
            Some(x) => {
                acc = x;
            },
            None => {
                proof {
                    lemma_out_stays(b as int, (i + 1) as nat, e as nat);
                }
                return None;
            },
        }
        i = i + 1;
    }
    Some(acc)
}

} // verus!
