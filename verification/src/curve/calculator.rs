//! Parameters and results that every curve calculator shares.

use vstd::prelude::*;
use crate::wide::{
    lemma_quotients,
    mul_ceil_div_spec,
    mul_div_spec,
    wide_checked_add,
    wide_checked_div,
    wide_limit,
    Wide,
};

verus! {

/// Which of the two pooled tokens is handed in.
#[derive(Clone, Copy, Debug, PartialEq, Eq, Structural)]
pub enum TradeDirection {
    /// Token A comes in, token B goes out.
    AtoB,
    /// Token B comes in, token A goes out.
    BtoA,
}

/// Who keeps the remainder of an integer division.
#[derive(Clone, Copy, Debug, PartialEq, Eq, Structural)]
pub enum RoundDirection {
    /// Round down.
    Floor,
    /// Round up.
    Ceiling,
}

/// What a swap moves, fees aside.
#[derive(Clone, Copy, Debug, PartialEq, Eq, Structural)]
pub struct SwapWithoutFeesResult {
    /// Amount of the source token that the swap takes.
    pub source_amount_swapped: u128,
    /// Amount of the destination token that the swap pays.
    pub destination_amount_swapped: u128,
}

/// Amounts of the two trading tokens that stand for some pool tokens.
#[derive(Clone, Copy, Debug, PartialEq, Eq, Structural)]
pub struct TradingTokenResult {
    /// Amount of token A.
    pub token_a_amount: u128,
    /// Amount of token B.
    pub token_b_amount: u128,
}

/// Turns a zero into nothing and keeps every other amount.
pub fn map_zero_to_none(x: u128) -> (r: Option<u128>)
    ensures
        r == if x == 0 {
            None
        } else {
            Some(x)
        },
{
    if x == 0 {
        None
    } else {
        Some(x)
    }
}

/// The amounts of a swap as its result: nothing when either is zero or
/// needs more than 128 bits.
pub open spec fn swap_result_spec(used: nat, paid: nat) -> Option<SwapWithoutFeesResult> {
    if used == 0 || paid == 0 || used > u128::MAX || paid > u128::MAX {
        None
    } else {
        Some(
            SwapWithoutFeesResult {
                source_amount_swapped: used as u128,
                destination_amount_swapped: paid as u128,
            },
        )
    }
}

/// A swap of `source` at the price `rate / ray` of token A for one token B.
///
/// Token B for token A takes all of `source` and pays
/// `floor(source * rate / ray)`. Token A for token B pays
/// `floor(source * ray / rate)` and takes what that many of token B cost,
/// rounded up, which is never more than `source`.
pub open spec fn swap_spec(rate: nat, ray: nat, source: nat, direction: TradeDirection) -> Option<
    SwapWithoutFeesResult,
> {
    match direction {
        TradeDirection::BtoA => match mul_div_spec(source, rate, ray) {
            None => None,
            Some(paid) => swap_result_spec(source, paid),
        },
        TradeDirection::AtoB => match mul_div_spec(source, ray, rate) {
            None => None,
            Some(paid) => match mul_ceil_div_spec(paid, rate, ray) {
                None => None,
                Some(used) => if used > source {
                    None
                } else {
                    swap_result_spec(used, paid)
                },
            },
        },
    }
}

/// The worth of `amount` of token B in token A:
/// `floor(amount * rate / ray)`.
pub open spec fn value_in_a_spec(rate: nat, ray: nat, amount: nat) -> Option<nat> {
    mul_div_spec(amount, rate, ray)
}

/// Half the worth of both reserves in token A, rounded down: nothing when
/// the worth of the B side cannot be computed or the half needs more than
/// 128 bits.
pub open spec fn normalized_value_spec(rate: nat, ray: nat, reserve_a: nat, reserve_b: nat) -> Option<
    u128,
> {
    match value_in_a_spec(rate, ray, reserve_b) {
        None => None,
        Some(value_b) => if reserve_a + value_b >= wide_limit() || (reserve_a + value_b) / 2
            > u128::MAX {
            None
        } else {
            Some(((reserve_a + value_b) / 2) as u128)
        },
    }
}

/// The pool tokens that stand for `source` of one token: the pool's supply
/// times the worth of `source`, divided by the worth of both reserves and
/// rounded as asked.
pub open spec fn pool_tokens_spec(
    rate: nat,
    ray: nat,
    source: nat,
    reserve_a: nat,
    reserve_b: nat,
    supply: nat,
    direction: TradeDirection,
    round: RoundDirection,
) -> Option<u128> {
    let given = match direction {
        TradeDirection::AtoB => Some(source),
        TradeDirection::BtoA => value_in_a_spec(rate, ray, source),
    };
    match (given, value_in_a_spec(rate, ray, reserve_b)) {
        (Some(given_value), Some(value_b)) => if value_b + reserve_a >= wide_limit() {
            None
        } else {
            let shares = match round {
                RoundDirection::Floor => mul_div_spec(supply, given_value, value_b + reserve_a),
                RoundDirection::Ceiling => mul_ceil_div_spec(
                    supply,
                    given_value,
                    value_b + reserve_a,
                ),
            };
            match shares {
                Some(v) if v <= u128::MAX => Some(v as u128),
                _ => None,
            }
        },
        _ => None,
    }
}

/// The worth of both reserves in token A, before it is halved.
pub open spec fn worth_spec(rate: nat, ray: nat, reserve_a: nat, reserve_b: nat) -> nat {
    reserve_a + reserve_b * rate / ray
}

proof fn lemma_worth_of_b_moves(b2: nat, rate: nat, ray: nat, s: nat, lower: int)
    requires
        ray > 0,
        s > 0,
        b2 * rate * s >= lower * ray,
    ensures
        (b2 * rate / ray + 1) * s > lower,
{
    let bv2 = b2 * rate / ray;
    let product = b2 * rate;
    lemma_quotients(product, ray);
    assert((bv2 + 1) * ray * s > product * s) by (nonlinear_arith)
        requires
            (bv2 + 1) * ray > product,
            s > 0,
    ;
    assert((bv2 + 1) * ray * s == ((bv2 + 1) * s) * ray) by (nonlinear_arith);
    assert((bv2 + 1) * s > lower) by (nonlinear_arith)
        requires
            ((bv2 + 1) * s) * ray > lower * ray,
            ray > 0,
    ;
}

proof fn lemma_halved(worth_after: nat, s: nat, target: int, half_target: int)
    requires
        (worth_after + 1) * s > target,
        target >= 2 * half_target,
    ensures
        (worth_after / 2 + 1) * s > half_target,
{
    let v = worth_after / 2;
    assert(2 * (v + 1) >= worth_after + 1);
    assert(2 * ((v + 1) * s) >= (worth_after + 1) * s) by (nonlinear_arith)
        requires
            2 * (v + 1) >= worth_after + 1,
            s >= 0,
    ;
}

/// The value of a pool token after reserves and supply have changed, held
/// against its value before.
///
/// Where the A side and the B side of the pool each changed at least in
/// proportion to the supply, the halved value per pool token is kept up to
/// the one unit that rounding can lose:
/// `(value_after + 1) / supply_after > value_before / supply_before`,
/// written without division.
pub proof fn lemma_value_per_share_proportional(
    rate: nat,
    ray: nat,
    a: nat,
    b: nat,
    s: nat,
    a2: nat,
    b2: nat,
    s2: nat,
)
    requires
        ray > 0,
        s > 0,
        a2 * s >= a * s2,
        b2 * s >= b * s2,
    ensures
        (worth_spec(rate, ray, a2, b2) / 2 + 1) * s > (worth_spec(rate, ray, a, b) / 2) * s2,
{
    let bv = b * rate / ray;
    let bv2 = b2 * rate / ray;
    let worth = worth_spec(rate, ray, a, b);
    let worth2 = worth_spec(rate, ray, a2, b2);
    lemma_quotients(b * rate, ray);
    let lower: int = (bv * s2) as int;
    assert(b2 * rate * s >= b * rate * s2) by (nonlinear_arith)
        requires
            b2 * s >= b * s2,
            rate >= 0,
    {
        assert(b2 * rate * s == (b2 * s) * rate);
        assert(b * rate * s2 == (b * s2) * rate);
    }
    assert(b * rate * s2 >= bv * ray * s2) by (nonlinear_arith)
        requires
            bv * ray <= b * rate,
            s2 >= 0,
    ;
    assert(bv * ray * s2 == lower * ray) by (nonlinear_arith)
        requires
            lower == bv * s2,
    ;
    lemma_worth_of_b_moves(b2, rate, ray, s, lower);
    assert((worth2 + 1) * s > worth * s2) by (nonlinear_arith)
        requires
            worth2 == a2 + bv2,
            worth == a + bv,
            (bv2 + 1) * s > bv * s2,
            a2 * s >= a * s2,
    ;
    assert(worth * s2 >= 2 * ((worth / 2) * s2)) by (nonlinear_arith)
        requires
            worth >= 2 * (worth / 2),
            s2 >= 0,
    ;
    lemma_halved(worth2, s, (worth * s2) as int, ((worth / 2) * s2) as int);
}

/// The value of a pool token after both sides of the pool have moved by a
/// given worth, held against its value before.
///
/// Where the A side moved by at least `change / s` and the worth of the B
/// side by at least as much, the halved value moved by at least `change / s`
/// too, up to the one unit that rounding can lose:
/// `(value_after + 1) * s > value_before * s + change`.
pub proof fn lemma_value_per_share_shifted(
    rate: nat,
    ray: nat,
    a: nat,
    b: nat,
    s: nat,
    a2: nat,
    b2: nat,
    change: int,
)
    requires
        ray > 0,
        s > 0,
        a2 * s >= a * s + change,
        b2 * rate * s >= b * rate * s + change * ray,
    ensures
        (worth_spec(rate, ray, a2, b2) / 2 + 1) * s > (worth_spec(rate, ray, a, b) / 2) * s
            + change,
{
    let bv = b * rate / ray;
    let bv2 = b2 * rate / ray;
    let worth = worth_spec(rate, ray, a, b);
    let worth2 = worth_spec(rate, ray, a2, b2);
    lemma_quotients(b * rate, ray);
    let lower: int = bv * s + change;
    assert(b * rate * s >= bv * ray * s) by (nonlinear_arith)
        requires
            bv * ray <= b * rate,
            s >= 0,
    ;
    assert(lower * ray == bv * ray * s + change * ray) by (nonlinear_arith)
        requires
            lower == bv * s + change,
    ;
    lemma_worth_of_b_moves(b2, rate, ray, s, lower);
    assert((worth2 + 1) * s > worth * s + 2 * change) by (nonlinear_arith)
        requires
            worth2 == a2 + bv2,
            worth == a + bv,
            (bv2 + 1) * s > bv * s + change,
            a2 * s >= a * s + change,
    ;
    assert(worth * s >= 2 * ((worth / 2) * s)) by (nonlinear_arith)
        requires
            worth >= 2 * (worth / 2),
            s >= 0,
    ;
    lemma_halved(worth2, s, worth * s + 2 * change, (worth / 2) * s + change);
}

/// A pool's value, where it can be computed, is half its worth.
pub proof fn lemma_normalized_value_is_half_worth(rate: nat, ray: nat, a: nat, b: nat)
    requires
        normalized_value_spec(rate, ray, a, b) is Some,
    ensures
        ray > 0,
        normalized_value_spec(rate, ray, a, b).unwrap() == worth_spec(rate, ray, a, b) / 2,
{
}

/// A pool's value never falls when a reserve grows: with no less of either
/// token, the worth is no less, and so is its half.
pub proof fn lemma_normalized_value_monotone(
    rate: nat,
    ray: nat,
    a: nat,
    b: nat,
    a2: nat,
    b2: nat,
)
    requires
        a <= a2,
        b <= b2,
        normalized_value_spec(rate, ray, a, b) is Some,
        normalized_value_spec(rate, ray, a2, b2) is Some,
    ensures
        normalized_value_spec(rate, ray, a, b).unwrap() <= normalized_value_spec(
            rate,
            ray,
            a2,
            b2,
        ).unwrap(),
{
    assert(b * rate <= b2 * rate) by (nonlinear_arith)
        requires
            b <= b2,
    ;
    vstd::arithmetic::div_mod::lemma_div_is_ordered(
        (b * rate) as int,
        (b2 * rate) as int,
        ray as int,
    );
}

/// At a price of one, a swap pays what it takes: where `rate` equals `ray`,
/// any amount but zero is swapped one for one in either direction.
pub proof fn lemma_swap_at_par(ray: u128, source: u128, direction: TradeDirection)
    requires
        ray > 0,
        source > 0,
    ensures
        swap_spec(ray as nat, ray as nat, source as nat, direction) == Some(
            SwapWithoutFeesResult {
                source_amount_swapped: source,
                destination_amount_swapped: source,
            },
        ),
{
    let r = ray as nat;
    let s = source as nat;
    assert(s * r <= 0xffff_ffff_ffff_ffff_ffff_ffff_ffff_ffffnat
        * 0xffff_ffff_ffff_ffff_ffff_ffff_ffff_ffffnat) by (nonlinear_arith)
        requires
            s <= 0xffff_ffff_ffff_ffff_ffff_ffff_ffff_ffffnat,
            r <= 0xffff_ffff_ffff_ffff_ffff_ffff_ffff_ffffnat,
    ;
    assert(s * r == r * s) by (nonlinear_arith);
    vstd::arithmetic::div_mod::lemma_div_multiples_vanish(s as int, r as int);
    vstd::arithmetic::div_mod::lemma_mod_multiples_basic(s as int, r as int);
    lemma_quotients(s * r, r);
    assert(s * r / r == s);
    assert((s * r) % r == 0);
    assert(mul_div_spec(s, r, r) == Some(s));
    assert(mul_ceil_div_spec(s, r, r) == Some(s));
}

/// Swaps `source_amount` at the price `rate / ray`.
pub fn swap_at_rate(
    rate: Wide,
    ray: Wide,
    source_amount: u128,
    trade_direction: TradeDirection,
) -> (r: Option<SwapWithoutFeesResult>)
    ensures
        r == swap_spec(rate@, ray@, source_amount as nat, trade_direction),
        match r {
            Some(s) => {
                &&& s.source_amount_swapped > 0
                &&& s.destination_amount_swapped > 0
                &&& s.source_amount_swapped <= source_amount
                &&& trade_direction == TradeDirection::BtoA ==> s.source_amount_swapped
                    == source_amount
                &&& trade_direction == TradeDirection::AtoB ==> mul_ceil_div_spec(
                    s.destination_amount_swapped as nat,
                    rate@,
                    ray@,
                ) == Some(s.source_amount_swapped as nat)
            },
            None => true,
        },
{
    let source = Wide::from_u128(source_amount);
    let (used, paid) = match trade_direction {
        TradeDirection::BtoA => (source, source.mul_div(rate, ray)?),
        TradeDirection::AtoB => {
            let paid = source.mul_div(ray, rate)?;
            let used = paid.mul_ceil_div(rate, ray)?;
            if used.gt(&source) {
                return None;
            }
            (used, paid)
        },
    };
    let source_amount_swapped = map_zero_to_none(used.to_u128()?)?;
    let destination_amount_swapped = map_zero_to_none(paid.to_u128()?)?;
    Some(SwapWithoutFeesResult { source_amount_swapped, destination_amount_swapped })
}

/// The worth of both reserves in token A, halved.
pub fn normalized_value_at_rate(rate: Wide, ray: Wide, reserve_a: u128, reserve_b: u128) -> (r:
    Option<u128>)
    ensures
        r == normalized_value_spec(rate@, ray@, reserve_a as nat, reserve_b as nat),
{
    let value_b = Wide::from_u128(reserve_b).mul_div(rate, ray)?;
    let sum = wide_checked_add(Wide::from_u128(reserve_a), value_b)?;
    let half = wide_checked_div(sum, Wide::from_u128(2))?;
    half.to_u128()
}

} // verus!
