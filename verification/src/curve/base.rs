//! One type for every kind of curve.
//!
//! A pool holds exactly one curve. [`SwapCurve`] names the kind and carries
//! the record, and answers every question by asking the calculator of that
//! kind.

use vstd::prelude::*;
use crate::curve::calculator::{
    normalized_value_spec,
    pool_tokens_spec,
    swap_spec,
    RoundDirection,
    SwapWithoutFeesResult,
    TradeDirection,
    TradingTokenResult,
};
use crate::curve::constant_price::ConstantPriceCurve;
use crate::curve::redemption_rate::{trading_tokens_spec, RedemptionRateCurve, RAY};
use crate::error::SwapError;

verus! {

/// A curve of either kind.
#[derive(Clone, Copy, Debug, PartialEq, Eq, Structural)]
pub enum SwapCurve {
    /// One price for all time.
    ConstantPrice(ConstantPriceCurve),
    /// A price that follows a compounding index.
    RedemptionRate(RedemptionRateCurve),
}

impl SwapCurve {
    /// The price of one token B in token A, with its scale, at `timestamp`:
    /// the fixed price at the scale [`RAY`], or the index carried forward at
    /// the record's own scale. A rate-based curve has no price without a
    /// timestamp.
    pub open spec fn price_spec(self, timestamp: Option<u128>) -> Option<(nat, nat)> {
        match self {
            SwapCurve::ConstantPrice(curve) => Some((curve.token_b_price as nat, RAY as nat)),
            SwapCurve::RedemptionRate(curve) => match curve.rate_at_spec(timestamp) {
                None => None,
                Some(rate) => Some((rate, curve.ray as nat)),
            },
        }
    }

    /// What a swap of `source_amount` moves, fees aside.
    pub fn swap_without_fees(
        &self,
        source_amount: u128,
        swap_source_amount: u128,
        swap_destination_amount: u128,
        trade_direction: TradeDirection,
        timestamp: Option<u128>,
    ) -> (r: Option<SwapWithoutFeesResult>)
        ensures
            r == match self.price_spec(timestamp) {
                None => None,
                Some((rate, ray)) => swap_spec(rate, ray, source_amount as nat, trade_direction),
            },
            match r {
                Some(s) => s.source_amount_swapped > 0 && s.destination_amount_swapped > 0
                    && s.source_amount_swapped <= source_amount,
                None => true,
            },
    {
        match self {
            SwapCurve::ConstantPrice(curve) => curve.swap_without_fees(
                source_amount,
                swap_source_amount,
                swap_destination_amount,
                trade_direction,
                timestamp,
            ),
            SwapCurve::RedemptionRate(curve) => curve.swap_without_fees(
                source_amount,
                swap_source_amount,
                swap_destination_amount,
                trade_direction,
                timestamp,
            ),
        }
    }

    /// The amounts of both trading tokens that stand for `pool_tokens`.
    pub fn pool_tokens_to_trading_tokens(
        &self,
        pool_tokens: u128,
        pool_token_supply: u128,
        swap_token_a_amount: u128,
        swap_token_b_amount: u128,
        round_direction: RoundDirection,
        timestamp: Option<u128>,
    ) -> (r: Option<TradingTokenResult>)
        ensures
            r == match *self {
                SwapCurve::ConstantPrice(curve) => curve.trading_tokens_spec(
                    pool_tokens as nat,
                    pool_token_supply as nat,
                    swap_token_a_amount as nat,
                    swap_token_b_amount as nat,
                    round_direction,
                ),
                SwapCurve::RedemptionRate(curve) => match curve.rate_at_spec(timestamp) {
                    None => None,
                    Some(rate) => trading_tokens_spec(
                        rate,
                        curve.ray as nat,
                        pool_tokens as nat,
                        pool_token_supply as nat,
                        swap_token_a_amount as nat,
                        swap_token_b_amount as nat,
                        round_direction,
                    ),
                },
            },
    {
        match self {
            SwapCurve::ConstantPrice(curve) => curve.pool_tokens_to_trading_tokens(
                pool_tokens,
                pool_token_supply,
                swap_token_a_amount,
                swap_token_b_amount,
                round_direction,
            ),
            SwapCurve::RedemptionRate(curve) => curve.pool_tokens_to_trading_tokens(
                pool_tokens,
                pool_token_supply,
                swap_token_a_amount,
                swap_token_b_amount,
                round_direction,
                timestamp,
            ),
        }
    }

    /// The pool tokens that a deposit of `source_amount` of one token earns,
    /// rounded down.
    pub fn deposit_single_token_type(
        &self,
        source_amount: u128,
        swap_token_a_amount: u128,
        swap_token_b_amount: u128,
        pool_supply: u128,
        trade_direction: TradeDirection,
        timestamp: Option<u128>,
    ) -> (r: Option<u128>)
        ensures
            r == match self.price_spec(timestamp) {
                None => None,
                Some((rate, ray)) => pool_tokens_spec(
                    rate,
                    ray,
                    source_amount as nat,
                    swap_token_a_amount as nat,
                    swap_token_b_amount as nat,
                    pool_supply as nat,
                    trade_direction,
                    RoundDirection::Floor,
                ),
            },
    {
        match self {
            SwapCurve::ConstantPrice(curve) => curve.deposit_single_token_type(
                source_amount,
                swap_token_a_amount,
                swap_token_b_amount,
                pool_supply,
                trade_direction,
                timestamp,
            ),
            SwapCurve::RedemptionRate(curve) => curve.deposit_single_token_type(
                source_amount,
                swap_token_a_amount,
                swap_token_b_amount,
                pool_supply,
                trade_direction,
                timestamp,
            ),
        }
    }

    /// The pool tokens that a withdrawal of exactly `source_amount` of one
    /// token costs, rounded as asked.
    pub fn withdraw_single_token_type_exact_out(
        &self,
        source_amount: u128,
        swap_token_a_amount: u128,
        swap_token_b_amount: u128,
        pool_supply: u128,
        trade_direction: TradeDirection,
        round_direction: RoundDirection,
        timestamp: Option<u128>,
    ) -> (r: Option<u128>)
        ensures
            r == match self.price_spec(timestamp) {
                None => None,
                Some((rate, ray)) => pool_tokens_spec(
                    rate,
                    ray,
                    source_amount as nat,
                    swap_token_a_amount as nat,
                    swap_token_b_amount as nat,
                    pool_supply as nat,
                    trade_direction,
                    round_direction,
                ),
            },
    {
        match self {
            SwapCurve::ConstantPrice(curve) => curve.withdraw_single_token_type_exact_out(
                source_amount,
                swap_token_a_amount,
                swap_token_b_amount,
                pool_supply,
                trade_direction,
                round_direction,
                timestamp,
            ),
            SwapCurve::RedemptionRate(curve) => curve.withdraw_single_token_type_exact_out(
                source_amount,
                swap_token_a_amount,
                swap_token_b_amount,
                pool_supply,
                trade_direction,
                round_direction,
                timestamp,
            ),
        }
    }

    /// Half the worth of both reserves in token A.
    pub fn normalized_value(
        &self,
        swap_token_a_amount: u128,
        swap_token_b_amount: u128,
        timestamp: Option<u128>,
    ) -> (r: Option<u128>)
        ensures
            r == match self.price_spec(timestamp) {
                None => None,
                Some((rate, ray)) => normalized_value_spec(
                    rate,
                    ray,
                    swap_token_a_amount as nat,
                    swap_token_b_amount as nat,
                ),
            },
    {
        match self {
            SwapCurve::ConstantPrice(curve) => curve.normalized_value(
                swap_token_a_amount,
                swap_token_b_amount,
                timestamp,
            ),
            SwapCurve::RedemptionRate(curve) => curve.normalized_value(
                swap_token_a_amount,
                swap_token_b_amount,
                timestamp,
            ),
        }
    }

    /// Accepts a curve whose price can be computed and is not zero.
    pub fn validate(&self, timestamp: Option<u128>) -> (r: Result<(), SwapError>)
        ensures
            r == match *self {
                SwapCurve::ConstantPrice(curve) => if curve.token_b_price == 0 {
                    Err::<(), SwapError>(SwapError::InvalidCurve)
                } else {
                    Ok(())
                },
                SwapCurve::RedemptionRate(curve) => match timestamp {
                    None => Err(SwapError::MissingTimestamp),
                    Some(t) => match curve.conversion_rate_spec(t as nat) {
                        None => Err(SwapError::CalculationFailure),
                        Some(rate) => if rate == 0 {
                            Err(SwapError::InvalidCurve)
                        } else {
                            Ok(())
                        },
                    },
                },
            },
    {
        match self {
            SwapCurve::ConstantPrice(curve) => curve.validate(timestamp),
            SwapCurve::RedemptionRate(curve) => curve.validate(timestamp),
        }
    }

    /// Accepts the first deposit when it holds some of token A.
    pub fn validate_supply(&self, token_a_amount: u64, token_b_amount: u64) -> (r: Result<
        (),
        SwapError,
    >)
        ensures
            r == if token_a_amount == 0 {
                Err::<(), SwapError>(SwapError::EmptySupply)
            } else {
                Ok(())
            },
    {
        match self {
            SwapCurve::ConstantPrice(curve) => curve.validate_supply(token_a_amount, token_b_amount),
            SwapCurve::RedemptionRate(curve) => curve.validate_supply(
                token_a_amount,
                token_b_amount,
            ),
        }
    }
}

} // verus!
