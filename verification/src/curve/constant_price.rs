//! A curve with one price, set when the pool is made.
//!
//! One token B is worth `token_b_price / RAY` of token A at all times.

use vstd::prelude::*;
use vstd::bytes::{
    lemma_auto_spec_u128_to_from_le_bytes,
    spec_u128_from_le_bytes,
    spec_u128_to_le_bytes,
    u128_from_le_bytes,
    u128_to_le_bytes,
};
use vstd::slice::slice_subrange;
use crate::curve::calculator::{
    lemma_normalized_value_is_half_worth,
    lemma_value_per_share_proportional,
    normalized_value_at_rate,
    normalized_value_spec,
    pool_tokens_spec,
    swap_at_rate,
    swap_spec,
    RoundDirection,
    SwapWithoutFeesResult,
    TradeDirection,
    TradingTokenResult,
};
use crate::curve::redemption_rate::RAY;
use crate::error::{ProgramError, SwapError};
use crate::wide::{lemma_quotients, mul_ceil_div_spec, mul_div_spec, Wide};

verus! {

/// Length in bytes of a packed [`ConstantPriceCurve`].
pub const CONSTANT_PRICE_CURVE_LEN: usize = 16;

/// The pool tokens that stand for `source_amount` of one trading token, at
/// the price `token_b_price / RAY`.
pub fn trading_tokens_to_pool_tokens(
    token_b_price: u128,
    source_amount: u128,
    swap_token_a_amount: u128,
    swap_token_b_amount: u128,
    pool_supply: u128,
    trade_direction: TradeDirection,
    round_direction: RoundDirection,
) -> (r: Option<u128>)
    ensures
        r == pool_tokens_spec(
            token_b_price as nat,
            RAY as nat,
            source_amount as nat,
            swap_token_a_amount as nat,
            swap_token_b_amount as nat,
            pool_supply as nat,
            trade_direction,
            round_direction,
        ),
{
    crate::curve::redemption_rate::trading_tokens_to_pool_tokens(
        Wide::from_u128(token_b_price),
        Wide::from_u128(RAY),
        source_amount,
        swap_token_a_amount,
        swap_token_b_amount,
        pool_supply,
        trade_direction,
        round_direction,
    )
}

/// The share `pool_tokens / supply` of one reserve, rounded as asked:
/// nothing when the supply is zero or when the share needs more than 128
/// bits.
pub open spec fn reserve_share_spec(pool_tokens: nat, supply: nat, reserve: nat, round: RoundDirection) -> Option<
    u128,
> {
    let share = match round {
        RoundDirection::Floor => mul_div_spec(pool_tokens, reserve, supply),
        RoundDirection::Ceiling => mul_ceil_div_spec(pool_tokens, reserve, supply),
    };
    match share {
        Some(v) if v <= u128::MAX => Some(v as u128),
        _ => None,
    }
}

/// A curve with a fixed price.
#[derive(Clone, Copy, Debug, PartialEq, Eq, Structural)]
pub struct ConstantPriceCurve {
    /// Amount of token A that one token B is worth, scaled by [`RAY`].
    pub token_b_price: u128,
}

impl Default for ConstantPriceCurve {
    /// The curve with a price of zero, which no pool accepts.
    fn default() -> (r: ConstantPriceCurve)
        ensures
            r == (ConstantPriceCurve { token_b_price: 0 }),
    {
        ConstantPriceCurve { token_b_price: 0 }
    }
}

impl ConstantPriceCurve {
    /// The share `pool_tokens / supply` of each reserve, rounded as asked.
    pub open spec fn trading_tokens_spec(
        self,
        pool_tokens: nat,
        supply: nat,
        reserve_a: nat,
        reserve_b: nat,
        round: RoundDirection,
    ) -> Option<TradingTokenResult> {
        match (
            reserve_share_spec(pool_tokens, supply, reserve_a, round),
            reserve_share_spec(pool_tokens, supply, reserve_b, round),
        ) {
            (Some(token_a_amount), Some(token_b_amount)) => Some(
                TradingTokenResult { token_a_amount, token_b_amount },
            ),
            _ => None,
        }
    }

    /// Half the worth of the reserves in token A, where it fits in 128 bits.
    pub open spec fn value_spec(self, reserve_a: nat, reserve_b: nat) -> Option<u128> {
        normalized_value_spec(self.token_b_price as nat, RAY as nat, reserve_a, reserve_b)
    }

    /// Swaps at the fixed price; reserves and timestamp play no part. Token A
    /// for token B takes only what the whole tokens of B cost and leaves the
    /// rest of `source_amount` alone.
    pub fn swap_without_fees(
        &self,
        source_amount: u128,
        _swap_source_amount: u128,
        _swap_destination_amount: u128,
        trade_direction: TradeDirection,
        _timestamp: Option<u128>,
    ) -> (r: Option<SwapWithoutFeesResult>)
        ensures
            r == swap_spec(
                self.token_b_price as nat,
                RAY as nat,
                source_amount as nat,
                trade_direction,
            ),
            match r {
                Some(s) => {
                    &&& s.source_amount_swapped > 0
                    &&& s.destination_amount_swapped > 0
                    &&& s.source_amount_swapped <= source_amount
                    &&& trade_direction == TradeDirection::AtoB ==> mul_ceil_div_spec(
                        s.destination_amount_swapped as nat,
                        self.token_b_price as nat,
                        RAY as nat,
                    ) == Some(s.source_amount_swapped as nat)
                },
                None => true,
            },
    {
        swap_at_rate(
            Wide::from_u128(self.token_b_price),
            Wide::from_u128(RAY),
            source_amount,
            trade_direction,
        )
    }

    /// The share `pool_tokens / pool_token_supply` of each reserve, rounded
    /// as asked.
    pub fn pool_tokens_to_trading_tokens(
        &self,
        pool_tokens: u128,
        pool_token_supply: u128,
        swap_token_a_amount: u128,
        swap_token_b_amount: u128,
        round_direction: RoundDirection,
    ) -> (r: Option<TradingTokenResult>)
        ensures
            r == self.trading_tokens_spec(
                pool_tokens as nat,
                pool_token_supply as nat,
                swap_token_a_amount as nat,
                swap_token_b_amount as nat,
                round_direction,
            ),
    {
        let pool_tokens = Wide::from_u128(pool_tokens);
        let supply = Wide::from_u128(pool_token_supply);
        let reserve_a = Wide::from_u128(swap_token_a_amount);
        let reserve_b = Wide::from_u128(swap_token_b_amount);
        let (share_a, share_b) = match round_direction {
            RoundDirection::Floor => (
                pool_tokens.mul_div(reserve_a, supply)?,
                pool_tokens.mul_div(reserve_b, supply)?,
            ),
            RoundDirection::Ceiling => (
                pool_tokens.mul_ceil_div(reserve_a, supply)?,
                pool_tokens.mul_ceil_div(reserve_b, supply)?,
            ),
        };
        Some(
            TradingTokenResult {
                token_a_amount: share_a.to_u128()?,
                token_b_amount: share_b.to_u128()?,
            },
        )
    }

    /// The pool tokens that a deposit of `source_amount` of one token earns,
    /// rounded down.
    pub fn deposit_single_token_type(
        &self,
        source_amount: u128,
        swap_token_a_amount: u128,
        swap_token_b_amount: u128,
        pool_supply: u128,
        trade_direction: TradeDirection,
        _timestamp: Option<u128>,
    ) -> (r: Option<u128>)
        ensures
            r == pool_tokens_spec(
                self.token_b_price as nat,
                RAY as nat,
                source_amount as nat,
                swap_token_a_amount as nat,
                swap_token_b_amount as nat,
                pool_supply as nat,
                trade_direction,
                RoundDirection::Floor,
            ),
    {
        trading_tokens_to_pool_tokens(
            self.token_b_price,
            source_amount,
            swap_token_a_amount,
            swap_token_b_amount,
            pool_supply,
            trade_direction,
            RoundDirection::Floor,
        )
    }

    /// The pool tokens that a withdrawal of exactly `source_amount` of one
    /// token costs, rounded as asked.
    pub fn withdraw_single_token_type_exact_out(
        &self,
        source_amount: u128,
        swap_token_a_amount: u128,
        swap_token_b_amount: u128,
        pool_supply: u128,
        trade_direction: TradeDirection,
        round_direction: RoundDirection,
        _timestamp: Option<u128>,
    ) -> (r: Option<u128>)
        ensures
            r == pool_tokens_spec(
                self.token_b_price as nat,
                RAY as nat,
                source_amount as nat,
                swap_token_a_amount as nat,
                swap_token_b_amount as nat,
                pool_supply as nat,
                trade_direction,
                round_direction,
            ),
    {
        trading_tokens_to_pool_tokens(
            self.token_b_price,
            source_amount,
            swap_token_a_amount,
            swap_token_b_amount,
            pool_supply,
            trade_direction,
            round_direction,
        )
    }

    /// Accepts the curve when its price is not zero.
    pub fn validate(&self, _timestamp: Option<u128>) -> (r: Result<(), SwapError>)
        ensures
            r == if self.token_b_price == 0 {
                Err::<(), SwapError>(SwapError::InvalidCurve)
            } else {
                Ok(())
            },
    {
        if self.token_b_price == 0 {
            Err(SwapError::InvalidCurve)
        } else {
            Ok(())
        }
    }

    /// Accepts the first deposit when it holds some of token A.
    pub fn validate_supply(&self, token_a_amount: u64, _token_b_amount: u64) -> (r: Result<
        (),
        SwapError,
    >)
        ensures
            r == if token_a_amount == 0 {
                Err::<(), SwapError>(SwapError::EmptySupply)
            } else {
                Ok(())
            },
    {
        if token_a_amount == 0 {
            return Err(SwapError::EmptySupply);
        }
        Ok(())
    }

    /// Half the worth of both reserves in token A.
    pub fn normalized_value(
        &self,
        swap_token_a_amount: u128,
        swap_token_b_amount: u128,
        _timestamp: Option<u128>,
    ) -> (r: Option<u128>)
        ensures
            r == self.value_spec(swap_token_a_amount as nat, swap_token_b_amount as nat),
    {
        normalized_value_at_rate(
            Wide::from_u128(self.token_b_price),
            Wide::from_u128(RAY),
            swap_token_a_amount,
            swap_token_b_amount,
        )
    }

    /// A curve record is usable as soon as it exists.
    pub fn is_initialized(&self) -> (r: bool)
        ensures
            r,
    {
        true
    }

    /// The record as bytes: the price as sixteen bytes with the lowest first.
    pub open spec fn packed_spec(self) -> Seq<u8> {
        spec_u128_to_le_bytes(self.token_b_price)
    }

    /// The record that the first sixteen of `bytes` spell.
    pub open spec fn unpacked_spec(bytes: Seq<u8>) -> ConstantPriceCurve
        recommends
            bytes.len() >= 16,
    {
        ConstantPriceCurve { token_b_price: spec_u128_from_le_bytes(bytes.subrange(0, 16)) }
    }

    /// Writes the record over the first sixteen bytes of `output` and leaves
    /// the rest as it was.
    pub fn pack_into_slice(&self, output: &mut [u8])
        requires
            old(output)@.len() >= 16,
        ensures
            final(output)@.len() == old(output)@.len(),
            final(output)@.subrange(0, 16) == self.packed_spec(),
            final(output)@.subrange(16, old(output)@.len() as int) == old(output)@.subrange(
                16,
                old(output)@.len() as int,
            ),
    {
        let bytes = u128_to_le_bytes(self.token_b_price);
        let mut i: usize = 0;
        while i < 16
            invariant
                i <= 16,
                bytes@.len() == 16,
                output@.len() == old(output)@.len(),
                output@.len() >= 16,
                forall|k: int| 0 <= k < i ==> output@[k] == bytes@[k],
                forall|k: int| i <= k < output@.len() ==> output@[k] == old(output)@[k],
            decreases 16 - i,
        {
            output[i] = bytes[i];
            i += 1;
        }
        assert(output@.subrange(0, 16) =~= bytes@);
        assert(output@.subrange(16, output@.len() as int) =~= old(output)@.subrange(
            16,
            old(output)@.len() as int,
        ));
    }

    /// Reads a record from the first sixteen bytes of `input`.
    pub fn unpack_from_slice(input: &[u8]) -> (r: Result<ConstantPriceCurve, ProgramError>)
        requires
            input@.len() >= 16,
        ensures
            r == Ok::<ConstantPriceCurve, ProgramError>(Self::unpacked_spec(input@)),
    {
        Ok(ConstantPriceCurve { token_b_price: u128_from_le_bytes(slice_subrange(input, 0, 16)) })
    }

    /// Reads a record from `input`, which must be exactly sixteen bytes long.
    pub fn unpack(input: &[u8]) -> (r: Result<ConstantPriceCurve, ProgramError>)
        ensures
            r == if input@.len() == 16 {
                Ok::<ConstantPriceCurve, ProgramError>(Self::unpacked_spec(input@))
            } else {
                Err(ProgramError::InvalidAccountData)
            },
    {
        if input.len() != CONSTANT_PRICE_CURVE_LEN {
            return Err(ProgramError::InvalidAccountData);
        }
        Self::unpack_from_slice(input)
    }
}

/// Packing a record and reading it back gives the same record, and the
/// packed form is sixteen bytes long.
pub proof fn lemma_pack_round_trip(curve: ConstantPriceCurve)
    ensures
        curve.packed_spec().len() == 16,
        ConstantPriceCurve::unpacked_spec(curve.packed_spec()) == curve,
{
    lemma_auto_spec_u128_to_from_le_bytes();
    let bytes = curve.packed_spec();
    assert(bytes.subrange(0, 16) =~= bytes);
}

/// A deposit into both sides keeps the value of a pool token.
///
/// The deposit mints `pool_tokens` and pays the rounded-up share of each
/// reserve. The value of a pool token afterwards is at least its value before,
/// up to the one unit that halving the pool's worth can lose:
/// `(after + 1) / (supply + pool_tokens) > before / supply`, written without
/// division.
pub proof fn lemma_deposit_keeps_value_per_share(
    curve: ConstantPriceCurve,
    pool_tokens: u128,
    supply: u128,
    reserve_a: u128,
    reserve_b: u128,
    paid: TradingTokenResult,
    before: u128,
    after: u128,
)
    requires
        curve.trading_tokens_spec(
            pool_tokens as nat,
            supply as nat,
            reserve_a as nat,
            reserve_b as nat,
            RoundDirection::Ceiling,
        ) == Some(paid),
        curve.value_spec(reserve_a as nat, reserve_b as nat) == Some(before),
        curve.value_spec(
            (reserve_a + paid.token_a_amount) as nat,
            (reserve_b + paid.token_b_amount) as nat,
        ) == Some(after),
    ensures
        (after + 1) * supply > before * (supply + pool_tokens),
{
    let rate = curve.token_b_price as nat;
    let ray = RAY as nat;
    let paid_a = paid.token_a_amount as nat;
    let paid_b = paid.token_b_amount as nat;
    let a = reserve_a as nat;
    let b = reserve_b as nat;
    let s = supply as nat;
    let p = pool_tokens as nat;
    lemma_quotients(p * a, s);
    lemma_quotients(p * b, s);
    assert((a + paid_a) * s >= a * (s + p)) by (nonlinear_arith)
        requires
            paid_a * s >= p * a,
    ;
    assert((b + paid_b) * s >= b * (s + p)) by (nonlinear_arith)
        requires
            paid_b * s >= p * b,
    ;
    lemma_value_per_share_proportional(rate, ray, a, b, s, a + paid_a, b + paid_b, s + p);
    lemma_normalized_value_is_half_worth(rate, ray, a, b);
    lemma_normalized_value_is_half_worth(rate, ray, a + paid_a, b + paid_b);
}

/// A withdrawal from both sides keeps the value of a pool token.
///
/// The withdrawal burns `pool_tokens`, at most the whole supply, and takes
/// the rounded-down share of each reserve, which the reserve can always pay.
/// The value of a pool token afterwards is at least its value before, up to
/// the one unit that halving the pool's worth can lose:
/// `(after + 1) / (supply - pool_tokens) > before / supply`, written without
/// division.
pub proof fn lemma_withdrawal_keeps_value_per_share(
    curve: ConstantPriceCurve,
    pool_tokens: u128,
    supply: u128,
    reserve_a: u128,
    reserve_b: u128,
    taken: TradingTokenResult,
    before: u128,
)
    requires
        pool_tokens <= supply,
        curve.trading_tokens_spec(
            pool_tokens as nat,
            supply as nat,
            reserve_a as nat,
            reserve_b as nat,
            RoundDirection::Floor,
        ) == Some(taken),
        curve.value_spec(reserve_a as nat, reserve_b as nat) == Some(before),
    ensures
        taken.token_a_amount <= reserve_a,
        taken.token_b_amount <= reserve_b,
        curve.value_spec(
            (reserve_a - taken.token_a_amount) as nat,
            (reserve_b - taken.token_b_amount) as nat,
        ) is Some,
        (curve.value_spec(
            (reserve_a - taken.token_a_amount) as nat,
            (reserve_b - taken.token_b_amount) as nat,
        ).unwrap() + 1) * supply > before * (supply - pool_tokens),
{
    let rate = curve.token_b_price as nat;
    let ray = RAY as nat;
    let taken_a = taken.token_a_amount as nat;
    let taken_b = taken.token_b_amount as nat;
    let a = reserve_a as nat;
    let b = reserve_b as nat;
    let s = supply as nat;
    let p = pool_tokens as nat;
    lemma_quotients(p * a, s);
    lemma_quotients(p * b, s);
    assert(taken_a <= a) by (nonlinear_arith)
        requires
            taken_a * s <= p * a,
            p <= s,
            s > 0,
    ;
    assert(taken_b <= b) by (nonlinear_arith)
        requires
            taken_b * s <= p * b,
            p <= s,
            s > 0,
    ;
    let left_a = (a - taken_a) as nat;
    let left_b = (b - taken_b) as nat;
    let left_supply = (s - p) as nat;
    assert(left_a * s >= a * left_supply) by (nonlinear_arith)
        requires
            taken_a * s <= p * a,
            left_a == a - taken_a,
            left_supply == s - p,
    ;
    assert(left_b * s >= b * left_supply) by (nonlinear_arith)
        requires
            taken_b * s <= p * b,
            left_b == b - taken_b,
            left_supply == s - p,
    ;
    lemma_value_per_share_proportional(rate, ray, a, b, s, left_a, left_b, left_supply);
    lemma_normalized_value_is_half_worth(rate, ray, a, b);
    // what is left is worth no more than what was there
    assert(left_b * rate <= b * rate) by (nonlinear_arith)
        requires
            left_b <= b,
    ;
    vstd::arithmetic::div_mod::lemma_div_is_ordered(
        (left_b * rate) as int,
        (b * rate) as int,
        ray as int,
    );
}

} // verus!
