//! Powers of a fixed-point number by repeated squaring.
//!
//! A number `v` stands for `v / ray`. Each product is divided by `ray` and
//! rounded to the nearest integer, so `rpow` costs a number of wide
//! multiplications that grows with the logarithm of the exponent.

use vstd::prelude::*;
use vstd::arithmetic::div_mod::lemma_fundamental_div_mod_converse;
use vstd::arithmetic::power::{lemma_pow0, lemma_pow1, lemma_pow_adds, lemma_pow_increases, lemma_pow_positive, pow};
use crate::wide::{wide_checked_add, wide_checked_div, wide_checked_mul, wide_limit, Wide};

verus! {

/// The fixed-point product of `a` and `b`, rounded to nearest: nothing when
/// `a * b + ray / 2` needs more than 256 bits or `ray` is zero.
pub open spec fn round_mul_spec(a: nat, b: nat, ray: nat) -> Option<nat> {
    if a * b + ray / 2 >= wide_limit() || ray == 0 {
        None
    } else {
        Some((a * b + ray / 2) / ray)
    }
}

/// What is left of the power once the lowest bit of the exponent is used up:
/// `x` is squared for each further bit of `n`, and folded into `z` where the
/// bit is set.
pub open spec fn rpow_loop(x: nat, z: nat, n: nat, ray: nat) -> Option<nat>
    decreases n,
{
    if n == 0 {
        Some(z)
    } else {
        match round_mul_spec(x, x, ray) {
            None => None,
            Some(square) => if n % 2 == 1 {
                match round_mul_spec(z, square, ray) {
                    None => None,
                    Some(folded) => rpow_loop(square, folded, n / 2, ray),
                }
            } else {
                rpow_loop(square, z, n / 2, ray)
            },
        }
    }
}

/// `(x / ray)^n`, scaled by `ray`; nothing when a step leaves 256 bits or
/// divides by a zero `ray`. Zero to the power zero is one.
pub open spec fn rpow_spec(x: nat, n: nat, ray: nat) -> Option<nat> {
    if x == 0 {
        if n == 0 {
            Some(ray)
        } else {
            Some(0)
        }
    } else {
        rpow_loop(
            x,
            if n % 2 == 0 {
                ray
            } else {
                x
            },
            n / 2,
            ray,
        )
    }
}

/// `k^e` as a fixed-point number: `k^e * ray`.
pub open spec fn whole_power(k: nat, e: nat, ray: nat) -> nat {
    (pow(k as int, e) * ray) as nat
}

proof fn lemma_round_exact(p: nat, ray: nat)
    requires
        ray > 0,
    ensures
        (p * ray + ray / 2) / ray == p,
{
    lemma_fundamental_div_mod_converse((p * ray + ray / 2) as int, ray as int, p as int, (ray / 2) as int);
}

proof fn lemma_product_fits(a: nat, b: nat, ray: nat)
    requires
        a <= u128::MAX,
        b <= u128::MAX,
        ray <= u128::MAX,
    ensures
        a * b + ray / 2 < wide_limit(),
{
    assert(a * b <= 0xffff_ffff_ffff_ffff_ffff_ffff_ffff_ffffnat * 0xffff_ffff_ffff_ffff_ffff_ffff_ffff_ffffnat)
        by (nonlinear_arith)
        requires
            a <= 0xffff_ffff_ffff_ffff_ffff_ffff_ffff_ffffnat,
            b <= 0xffff_ffff_ffff_ffff_ffff_ffff_ffff_ffffnat,
    ;
}

proof fn lemma_rpow_loop_one(n: nat, ray: nat)
    requires
        0 < ray <= u128::MAX,
    ensures
        rpow_loop(ray, ray, n, ray) == Some(ray),
    decreases n,
{
    if n > 0 {
        lemma_product_fits(ray, ray, ray);
        lemma_round_exact(ray, ray);
        lemma_rpow_loop_one(n / 2, ray);
    }
}

/// One raised to any power is one, zero raised to a positive power is zero,
/// and the power zero of one and of zero is one.
pub proof fn lemma_rpow_identities(n: nat, ray: nat)
    requires
        ray <= u128::MAX,
    ensures
        rpow_spec(ray, 0, ray) == Some(ray),
        rpow_spec(0, 0, ray) == Some(ray),
        n > 0 ==> rpow_spec(0, n, ray) == Some(0nat),
        rpow_spec(ray, n, ray) == Some(ray),
{
    if ray > 0 {
        lemma_rpow_loop_one(n / 2, ray);
        lemma_rpow_loop_one(0, ray);
    }
}

/// The first power of any number is the number itself, and the power zero of
/// any number is one.
pub proof fn lemma_rpow_small_exponents(x: nat, ray: nat)
    ensures
        rpow_spec(x, 0, ray) == Some(ray),
        rpow_spec(x, 1, ray) == Some(x),
{
}

proof fn lemma_whole_product(k: nat, a: nat, b: nat, total: nat, ray: nat)
    requires
        k >= 1,
        0 < ray <= u128::MAX,
        a + b <= total,
        whole_power(k, total, ray) <= u128::MAX,
    ensures
        round_mul_spec(whole_power(k, a, ray), whole_power(k, b, ray), ray) == Some(
            whole_power(k, a + b, ray),
        ),
        whole_power(k, a + b, ray) <= u128::MAX,
{
    let k_int = k as int;
    let pa = pow(k_int, a);
    let pb = pow(k_int, b);
    let pab = pow(k_int, a + b);
    let pt = pow(k_int, total);
    lemma_pow_positive(k_int, a);
    lemma_pow_positive(k_int, b);
    lemma_pow_positive(k_int, a + b);
    lemma_pow_positive(k_int, total);
    lemma_pow_adds(k_int, a, b);
    lemma_pow_increases(k, a, total);
    lemma_pow_increases(k, b, total);
    lemma_pow_increases(k, a + b, total);
    assert(pab * ray <= pt * ray) by (nonlinear_arith)
        requires
            pab <= pt,
            ray > 0,
    ;
    assert(pa * ray <= pt * ray) by (nonlinear_arith)
        requires
            pa <= pt,
            ray > 0,
    ;
    assert(pb * ray <= pt * ray) by (nonlinear_arith)
        requires
            pb <= pt,
            ray > 0,
    ;
    assert(pa * ray >= 0 && pb * ray >= 0 && pab * ray >= 0) by (nonlinear_arith)
        requires
            pa > 0,
            pb > 0,
            pab > 0,
            ray > 0,
    ;
    let x = whole_power(k, a, ray);
    let y = whole_power(k, b, ray);
    let w = whole_power(k, a + b, ray);
    assert(x * y == w * ray) by (nonlinear_arith)
        requires
            x == pa * ray,
            y == pb * ray,
            w == pab * ray,
            pab == pa * pb,
    ;
    lemma_product_fits(x, y, ray);
    lemma_round_exact(w, ray);
}

proof fn lemma_rpow_loop_whole(k: nat, m: nat, j: nat, n: nat, ray: nat)
    requires
        k >= 1,
        m >= 1,
        0 < ray <= u128::MAX,
        whole_power(k, j + 2 * m * n, ray) <= u128::MAX,
    ensures
        rpow_loop(whole_power(k, m, ray), whole_power(k, j, ray), n, ray) == Some(
            whole_power(k, j + 2 * m * n, ray),
        ),
    decreases n,
{
    let total = j + 2 * m * n;
    if n == 0 {
        assert(2 * m * n == 0) by (nonlinear_arith)
            requires
                n == 0,
        ;
    } else {
        let half_n = n / 2;
        assert(2 * m <= 2 * m * n) by (nonlinear_arith)
            requires
                n >= 1,
        ;
        lemma_whole_product(k, m, m, total, ray);
        assert(m + m == 2 * m);
        if n % 2 == 1 {
            lemma_whole_product(k, j, 2 * m, total, ray);
            assert(j + 2 * m + 2 * (2 * m) * half_n == total) by (nonlinear_arith)
                requires
                    n == 2 * half_n + 1,
                    total == j + 2 * m * n,
            ;
            lemma_rpow_loop_whole(k, 2 * m, j + 2 * m, half_n, ray);
        } else {
            assert(j + 2 * (2 * m) * half_n == total) by (nonlinear_arith)
                requires
                    n == 2 * half_n,
                    total == j + 2 * m * n,
            ;
            lemma_rpow_loop_whole(k, 2 * m, j, half_n, ray);
        }
    }
}

/// A whole number raised to a power comes out exact: where `k^e * ray` fits
/// in 128 bits, the power `e` of `k * ray` is `k^e * ray`, with no rounding
/// error and no failure.
pub proof fn lemma_rpow_whole_powers(k: nat, e: nat, ray: nat)
    requires
        0 < ray <= u128::MAX,
        whole_power(k, e, ray) <= u128::MAX,
    ensures
        rpow_spec(k * ray, e, ray) == Some(whole_power(k, e, ray)),
{
    let k_int = k as int;
    lemma_pow0(k_int);
    lemma_pow1(k_int);
    if k == 0 {
        assert(k * ray == 0) by (nonlinear_arith)
            requires
                k == 0,
        ;
        if e > 0 {
            vstd::arithmetic::power::lemma0_pow(e);
            assert(pow(0, e) * ray == 0) by (nonlinear_arith)
                requires
                    pow(0, e) == 0,
            ;
        }
    } else {
        assert(k * ray > 0) by (nonlinear_arith)
            requires
                k >= 1,
                ray > 0,
        ;
        assert(whole_power(k, 1, ray) == k * ray);
        assert(whole_power(k, 0, ray) == ray);
        let half_e = e / 2;
        if e % 2 == 0 {
            assert(0 + 2 * 1 * half_e == e) by (nonlinear_arith)
                requires
                    e == 2 * half_e,
            ;
            lemma_rpow_loop_whole(k, 1, 0, half_e, ray);
        } else {
            assert(1 + 2 * 1 * half_e == e) by (nonlinear_arith)
                requires
                    e == 2 * half_e + 1,
            ;
            lemma_rpow_loop_whole(k, 1, 1, half_e, ray);
        }
    }
}

proof fn lemma_round_mul_at_least_one(a: nat, b: nat, ray: nat)
    requires
        a >= ray,
        b >= ray,
        round_mul_spec(a, b, ray) is Some,
    ensures
        round_mul_spec(a, b, ray).unwrap() >= ray,
{
    let sum = a * b + ray / 2;
    assert(sum >= ray * ray) by (nonlinear_arith)
        requires
            a >= ray,
            b >= ray,
            sum == a * b + ray / 2,
    ;
    lemma_fundamental_div_mod_converse((ray * ray) as int, ray as int, ray as int, 0);
    vstd::arithmetic::div_mod::lemma_div_is_ordered((ray * ray) as int, sum as int, ray as int);
}

proof fn lemma_rpow_loop_at_least_one(x: nat, z: nat, n: nat, ray: nat)
    requires
        x >= ray,
        z >= ray,
        rpow_loop(x, z, n, ray) is Some,
    ensures
        rpow_loop(x, z, n, ray).unwrap() >= ray,
    decreases n,
{
    if n > 0 {
        lemma_round_mul_at_least_one(x, x, ray);
        let square = round_mul_spec(x, x, ray).unwrap();
        if n % 2 == 1 {
            lemma_round_mul_at_least_one(z, square, ray);
            lemma_rpow_loop_at_least_one(square, round_mul_spec(z, square, ray).unwrap(), n / 2, ray);
        } else {
            lemma_rpow_loop_at_least_one(square, z, n / 2, ray);
        }
    }
}

/// A number that is at least one never has a power below one: where `x` is
/// at least `ray` and the power is computed, it is at least `ray` too.
pub proof fn lemma_rpow_at_least_one(x: nat, n: nat, ray: nat)
    requires
        x >= ray,
        rpow_spec(x, n, ray) is Some,
    ensures
        rpow_spec(x, n, ray).unwrap() >= ray,
{
    if x > 0 {
        lemma_rpow_loop_at_least_one(
            x,
            if n % 2 == 0 {
                ray
            } else {
                x
            },
            n / 2,
            ray,
        );
    }
}

fn round_mul(a: Wide, b: Wide, half: Wide, ray: Wide) -> (r: Option<Wide>)
    requires
        half@ == ray@ / 2,
    ensures
        match r {
            Some(w) => round_mul_spec(a@, b@, ray@) == Some(w@),
            None => round_mul_spec(a@, b@, ray@) is None,
        },
{
    match wide_checked_mul(a, b) {
        None => None,
        Some(product) => match wide_checked_add(product, half) {
            None => None,
            Some(rounded) => wide_checked_div(rounded, ray),
        },
    }
}

/// Raises the fixed-point number `x` to the power `n`.
pub fn rpow(x: u128, n: u128, ray: u128) -> (r: Option<Wide>)
    ensures
        match r {
            Some(w) => rpow_spec(x as nat, n as nat, ray as nat) == Some(w@),
            None => rpow_spec(x as nat, n as nat, ray as nat) is None,
        },
{
    if x == 0 {
        if n == 0 {
            Some(Wide::from_u128(ray))
        } else {
            Some(Wide::zero())
        }
    } else {
        let scale = Wide::from_u128(ray);
        let half = Wide::from_u128(ray / 2);
        let mut base = Wide::from_u128(x);
        let mut acc = if n % 2 == 0 {
            scale
        } else {
            base
        };
        let mut left: u128 = n / 2;
        while left > 0
            invariant
                scale@ == ray,
                half@ == ray / 2,
                rpow_loop(base@, acc@, left as nat, ray as nat) == rpow_spec(
                    x as nat,
                    n as nat,
                    ray as nat,
                ),
            decreases left,
        {
            match round_mul(base, base, half, scale) {
                None => {
                    return None;
                },
                Some(square) => {
                    base = square;
                },
            }
            if left % 2 == 1 {
                match round_mul(acc, base, half, scale) {
                    None => {
                        return None;
                    },
                    Some(folded) => {
                        acc = folded;
                    },
                }
            }
            left = left / 2;
        }
        Some(acc)
    }
}

} // verus!
