//! A curve whose price follows an index that compounds every second.
//!
//! The record keeps the index `chi` as it stood at the checkpoint `rho`, and
//! the per-second multiplier `ssr`. All three are fixed-point numbers scaled
//! by `ray`. One token B is worth `rate / ray` of token A, where `rate` is the
//! index carried forward to the time of the call.

use vstd::prelude::*;
use vstd::bytes::{
    lemma_auto_spec_u128_to_from_le_bytes,
    spec_u128_from_le_bytes,
    spec_u128_to_le_bytes,
    u128_from_le_bytes,
    u128_to_le_bytes,
};
use vstd::slice::slice_subrange;
use crate::curve::calculator::{
    lemma_normalized_value_is_half_worth,
    lemma_value_per_share_shifted,
    normalized_value_at_rate,
    normalized_value_spec,
    pool_tokens_spec,
    swap_at_rate,
    swap_spec,
    RoundDirection,
    SwapWithoutFeesResult,
    TradeDirection,
    TradingTokenResult,
};
use crate::curve::fixed_point::{lemma_rpow_at_least_one, rpow, rpow_spec};
use crate::error::{ProgramError, SwapError};
use crate::wide::{
    ceil_div_spec,
    lemma_quotients,
    mul_ceil_div_spec,
    mul_div_spec,
    wide_checked_add,
    wide_checked_div,
    wide_checked_mul,
    Wide,
};

verus! {

/// The pool tokens that stand for `source_amount` of one trading token, at
/// the price `token_b_price / ray`.
pub fn trading_tokens_to_pool_tokens(
    token_b_price: Wide,
    ray: Wide,
    source_amount: u128,
    swap_token_a_amount: u128,
    swap_token_b_amount: u128,
    pool_supply: u128,
    trade_direction: TradeDirection,
    round_direction: RoundDirection,
) -> (r: Option<u128>)
    ensures
        r == pool_tokens_spec(
            token_b_price@,
            ray@,
            source_amount as nat,
            swap_token_a_amount as nat,
            swap_token_b_amount as nat,
            pool_supply as nat,
            trade_direction,
            round_direction,
        ),
{
    let given_value = match trade_direction {
        TradeDirection::AtoB => Wide::from_u128(source_amount),
        TradeDirection::BtoA => Wide::from_u128(source_amount).mul_div(token_b_price, ray)?,
    };
    let value_b = Wide::from_u128(swap_token_b_amount).mul_div(token_b_price, ray)?;
    let total_value = wide_checked_add(value_b, Wide::from_u128(swap_token_a_amount))?;
    let supply = Wide::from_u128(pool_supply);
    match round_direction {
        RoundDirection::Floor => supply.mul_div(given_value, total_value)?.to_u128(),
        RoundDirection::Ceiling => supply.mul_ceil_div(given_value, total_value)?.to_u128(),
    }
}

/// The amounts of both trading tokens that stand for `pool_tokens`, at the
/// price `rate / ray`.
///
/// The pool's worth is its halved value. Rounding down gives the share of it
/// in each token, at most the reserve of that token. Rounding up gives the
/// rounded-up shares, whatever the reserves hold.
pub open spec fn trading_tokens_spec(
    rate: nat,
    ray: nat,
    pool_tokens: nat,
    supply: nat,
    reserve_a: nat,
    reserve_b: nat,
    round: RoundDirection,
) -> Option<TradingTokenResult> {
    match normalized_value_spec(rate, ray, reserve_a, reserve_b) {
        None => None,
        Some(total) => {
            let scaled: nat = pool_tokens * (total as nat);
            match round {
                RoundDirection::Floor => match (
                    mul_div_spec(pool_tokens, total as nat, supply),
                    mul_div_spec(scaled, ray, rate),
                ) {
                    (Some(share_a), Some(worth_b)) => Some(
                        TradingTokenResult {
                            token_a_amount: if share_a <= reserve_a {
                                share_a as u128
                            } else {
                                reserve_a as u128
                            },
                            token_b_amount: if worth_b / supply <= reserve_b {
                                (worth_b / supply) as u128
                            } else {
                                reserve_b as u128
                            },
                        },
                    ),
                    _ => None,
                },
                RoundDirection::Ceiling => match (
                    mul_ceil_div_spec(pool_tokens, total as nat, supply),
                    mul_ceil_div_spec(scaled, ray, rate),
                ) {
                    (Some(share_a), Some(worth_b)) => match ceil_div_spec(worth_b, supply) {
                        Some(share_b) if share_a <= u128::MAX && share_b <= u128::MAX => Some(
                            TradingTokenResult {
                                token_a_amount: share_a as u128,
                                token_b_amount: share_b as u128,
                            },
                        ),
                        _ => None,
                    },
                    _ => None,
                },
            }
        },
    }
}

/// Whether the sixteen bytes of `bytes` at the place of the field `index`
/// spell `value`.
pub open spec fn holds_field(bytes: Seq<u8>, index: int, value: u128) -> bool {
    bytes.subrange(16 * index, 16 * index + 16) == spec_u128_to_le_bytes(value)
}

/// The usual scale of the fixed-point numbers: 10^27 stands for one.
pub const RAY: u128 = 1_000_000_000_000_000_000_000_000_000;

/// Length in bytes of a packed [`RedemptionRateCurve`].
pub const REDEMPTION_RATE_CURVE_LEN: usize = 80;

/// The accrual record of a rate-based curve.
#[derive(Clone, Copy, Debug, PartialEq, Eq, Structural)]
pub struct RedemptionRateCurve {
    /// Fixed-point scaling factor.
    pub ray: u128,
    /// Cap on `ssr`; zero for no cap.
    pub max_ssr: u128,
    /// Multiplier applied to the index every second, scaled by `ray`.
    pub ssr: u128,
    /// Time, in seconds, of the last checkpoint.
    pub rho: u128,
    /// The index at `rho`, scaled by `ray`.
    pub chi: u128,
}

impl Default for RedemptionRateCurve {
    /// The record with every field zero.
    fn default() -> (r: RedemptionRateCurve)
        ensures
            r == (RedemptionRateCurve { ray: 0, max_ssr: 0, ssr: 0, rho: 0, chi: 0 }),
    {
        RedemptionRateCurve { ray: 0, max_ssr: 0, ssr: 0, rho: 0, chi: 0 }
    }
}

impl RedemptionRateCurve {
    /// What holds of every record in use: the scale is not zero, and the
    /// rate is at least one and at most its cap, where a cap is set.
    pub open spec fn well_formed(self) -> bool {
        &&& self.ray > 0
        &&& self.ssr >= self.ray
        &&& self.max_ssr != 0 ==> self.ssr <= self.max_ssr
    }

    /// The index carried forward from the checkpoint to `timestamp`: `chi`
    /// itself at the checkpoint, nothing before it, and `chi` times the power
    /// of `ssr` over the elapsed seconds after it.
    pub open spec fn conversion_rate_spec(self, timestamp: nat) -> Option<nat> {
        if timestamp == self.rho {
            Some(self.chi as nat)
        } else if timestamp < self.rho {
            None
        } else {
            match rpow_spec(self.ssr as nat, (timestamp - self.rho) as nat, self.ray as nat) {
                None => None,
                Some(growth) => mul_div_spec(growth, self.chi as nat, self.ray as nat),
            }
        }
    }

    /// The largest index that a checkpoint at `rho` may claim under the cap:
    /// the old index grown at `max_ssr` over the seconds since the old
    /// checkpoint.
    pub open spec fn chi_cap_spec(self, rho: nat) -> Result<nat, ProgramError>
        recommends
            rho >= self.rho,
    {
        match rpow_spec(self.max_ssr as nat, (rho - self.rho) as nat, self.ray as nat) {
            None => Err(ProgramError::Custom(SwapError::CalculationFailure)),
            Some(growth) => match mul_div_spec(growth, self.chi as nat, self.ray as nat) {
                None => Err(ProgramError::ArithmeticOverflow),
                Some(cap) => Ok(cap),
            },
        }
    }

    /// The outcome of committing a checkpoint `(ssr, rho, chi)` at the time
    /// `now`.
    pub open spec fn set_rates_spec(self, ssr: u128, rho: u128, chi: u128, now: u128) -> Result<
        RedemptionRateCurve,
        ProgramError,
    > {
        let updated = RedemptionRateCurve { ray: self.ray, max_ssr: self.max_ssr, ssr, rho, chi };
        if rho > now {
            Err(ProgramError::Custom(SwapError::InvalidRho))
        } else if ssr < self.ray {
            Err(ProgramError::Custom(SwapError::InvalidSsr))
        } else if self.max_ssr != 0 && ssr > self.max_ssr {
            Err(ProgramError::Custom(SwapError::InvalidSsr))
        } else if self.rho == 0 {
            Ok(updated)
        } else if rho < self.rho {
            Err(ProgramError::Custom(SwapError::InvalidRho))
        } else if chi < self.chi {
            Err(ProgramError::Custom(SwapError::InvalidChi))
        } else if self.max_ssr == 0 {
            Ok(updated)
        } else {
            match self.chi_cap_spec(rho as nat) {
                Err(e) => Err(e),
                Ok(cap) => if chi > cap {
                    Err(ProgramError::Custom(SwapError::InvalidChi))
                } else {
                    Ok(updated)
                },
            }
        }
    }

    /// The index at `timestamp`.
    pub fn get_conversion_rate(&self, timestamp: u128) -> (r: Option<Wide>)
        ensures
            match r {
                Some(w) => self.conversion_rate_spec(timestamp as nat) == Some(w@),
                None => self.conversion_rate_spec(timestamp as nat) is None,
            },
    {
        if timestamp == self.rho {
            return Some(Wide::from_u128(self.chi));
        }
        if timestamp < self.rho {
            return None;
        }
        let duration: u128 = timestamp - self.rho;
        match self._rpow(self.ssr, duration) {
            None => None,
            Some(growth) => growth.mul_div(Wide::from_u128(self.chi), Wide::from_u128(self.ray)),
        }
    }

    /// `x` to the power `n`, both read at this curve's scale.
    pub fn _rpow(&self, x: u128, n: u128) -> (r: Option<Wide>)
        ensures
            match r {
                Some(w) => rpow_spec(x as nat, n as nat, self.ray as nat) == Some(w@),
                None => rpow_spec(x as nat, n as nat, self.ray as nat) is None,
            },
    {
        rpow(x, n, self.ray)
    }

    /// Checks a new checkpoint against the record and returns the record
    /// that holds it. `ray` and `max_ssr` stay as they are.
    pub fn set_rates(&self, ssr: u128, rho: u128, chi: u128, current_timestamp: u128) -> (r: Result<
        RedemptionRateCurve,
        ProgramError,
    >)
        ensures
            r == self.set_rates_spec(ssr, rho, chi, current_timestamp),
    {
        if rho > current_timestamp {
            return Err(ProgramError::from_swap_error(SwapError::InvalidRho));
        }
        if ssr < self.ray {
            return Err(ProgramError::from_swap_error(SwapError::InvalidSsr));
        }
        if self.max_ssr != 0 && ssr > self.max_ssr {
            return Err(ProgramError::from_swap_error(SwapError::InvalidSsr));
        }
        if self.rho != 0 {
            if rho < self.rho {
                return Err(ProgramError::from_swap_error(SwapError::InvalidRho));
            }
            if chi < self.chi {
                return Err(ProgramError::from_swap_error(SwapError::InvalidChi));
            }
            if self.max_ssr != 0 {
                let duration: u128 = rho - self.rho;
                let growth = match self._rpow(self.max_ssr, duration) {
                    Some(g) => g,
                    None => {
                        return Err(ProgramError::from_swap_error(SwapError::CalculationFailure));
                    },
                };
                let chi_max = match growth.mul_div(
                    Wide::from_u128(self.chi),
                    Wide::from_u128(self.ray),
                ) {
                    Some(c) => c,
                    None => {
                        return Err(ProgramError::ArithmeticOverflow);
                    },
                };
                if Wide::from_u128(chi).gt(&chi_max) {
                    return Err(ProgramError::from_swap_error(SwapError::InvalidChi));
                }
            }
        }
        Ok(RedemptionRateCurve { ray: self.ray, max_ssr: self.max_ssr, ssr, rho, chi })
    }

    /// The rate that a call with `timestamp` works at.
    pub open spec fn rate_at_spec(self, timestamp: Option<u128>) -> Option<nat> {
        match timestamp {
            None => None,
            Some(t) => self.conversion_rate_spec(t as nat),
        }
    }

    /// Swaps at the index carried forward to `timestamp`; the reserves play
    /// no part. Fails without a timestamp.
    pub fn swap_without_fees(
        &self,
        source_amount: u128,
        _swap_source_amount: u128,
        _swap_destination_amount: u128,
        trade_direction: TradeDirection,
        timestamp: Option<u128>,
    ) -> (r: Option<SwapWithoutFeesResult>)
        ensures
            r == match self.rate_at_spec(timestamp) {
                None => None,
                Some(rate) => swap_spec(rate, self.ray as nat, source_amount as nat, trade_direction),
            },
            match r {
                Some(s) => {
                    &&& s.source_amount_swapped > 0
                    &&& s.destination_amount_swapped > 0
                    &&& s.source_amount_swapped <= source_amount
                    &&& trade_direction == TradeDirection::AtoB ==> mul_ceil_div_spec(
                        s.destination_amount_swapped as nat,
                        self.rate_at_spec(timestamp).unwrap(),
                        self.ray as nat,
                    ) == Some(s.source_amount_swapped as nat)
                },
                None => true,
            },
    {
        let token_b_price = self.get_conversion_rate(timestamp?)?;
        swap_at_rate(token_b_price, Wide::from_u128(self.ray), source_amount, trade_direction)
    }

    /// The amounts of both trading tokens that stand for `pool_tokens`.
    /// Rounded down, neither amount exceeds its reserve.
    pub fn pool_tokens_to_trading_tokens(
        &self,
        pool_tokens: u128,
        pool_token_supply: u128,
        swap_token_a_amount: u128,
        swap_token_b_amount: u128,
        round_direction: RoundDirection,
        timestamp: Option<u128>,
    ) -> (r: Option<TradingTokenResult>)
        ensures
            r == match self.rate_at_spec(timestamp) {
                None => None,
                Some(rate) => trading_tokens_spec(
                    rate,
                    self.ray as nat,
                    pool_tokens as nat,
                    pool_token_supply as nat,
                    swap_token_a_amount as nat,
                    swap_token_b_amount as nat,
                    round_direction,
                ),
            },
            round_direction == RoundDirection::Floor ==> match r {
                Some(t) => t.token_a_amount <= swap_token_a_amount && t.token_b_amount
                    <= swap_token_b_amount,
                None => true,
            },
    {
        let token_b_price = self.get_conversion_rate(timestamp?)?;
        let ray = Wide::from_u128(self.ray);
        let supply = Wide::from_u128(pool_token_supply);
        let total_value = Wide::from_u128(
            normalized_value_at_rate(token_b_price, ray, swap_token_a_amount, swap_token_b_amount)?,
        );
        let scaled = wide_checked_mul(Wide::from_u128(pool_tokens), total_value)?;
        let (token_a_amount, token_b_amount) = match round_direction {
            RoundDirection::Floor => {
                let share_a = wide_checked_div(scaled, supply)?.min(
                    Wide::from_u128(swap_token_a_amount),
                );
                let worth_b = scaled.mul_div(ray, token_b_price)?;
                let share_b = wide_checked_div(worth_b, supply)?.min(
                    Wide::from_u128(swap_token_b_amount),
                );
                (share_a, share_b)
            },
            RoundDirection::Ceiling => {
                let share_a = scaled.ceil_div(supply)?;
                let worth_b = scaled.mul_ceil_div(ray, token_b_price)?;
                let share_b = worth_b.ceil_div(supply)?;
                (share_a, share_b)
            },
        };
        Some(
            TradingTokenResult {
                token_a_amount: token_a_amount.to_u128()?,
                token_b_amount: token_b_amount.to_u128()?,
            },
        )
    }

    /// The pool tokens that a deposit of `source_amount` of one token earns,
    /// rounded down.
    pub fn deposit_single_token_type(
        &self,
        source_amount: u128,
        swap_token_a_amount: u128,
        swap_token_b_amount: u128,
        pool_supply: u128,
        trade_direction: TradeDirection,
        timestamp: Option<u128>,
    ) -> (r: Option<u128>)
        ensures
            r == match self.rate_at_spec(timestamp) {
                None => None,
                Some(rate) => pool_tokens_spec(
                    rate,
                    self.ray as nat,
                    source_amount as nat,
                    swap_token_a_amount as nat,
                    swap_token_b_amount as nat,
                    pool_supply as nat,
                    trade_direction,
                    RoundDirection::Floor,
                ),
            },
    {
        let token_b_price = self.get_conversion_rate(timestamp?)?;
        trading_tokens_to_pool_tokens(
            token_b_price,
            Wide::from_u128(self.ray),
            source_amount,
            swap_token_a_amount,
            swap_token_b_amount,
            pool_supply,
            trade_direction,
            RoundDirection::Floor,
        )
    }

    /// The pool tokens that a withdrawal of exactly `source_amount` of one
    /// token costs, rounded as asked.
    pub fn withdraw_single_token_type_exact_out(
        &self,
        source_amount: u128,
        swap_token_a_amount: u128,
        swap_token_b_amount: u128,
        pool_supply: u128,
        trade_direction: TradeDirection,
        round_direction: RoundDirection,
        timestamp: Option<u128>,
    ) -> (r: Option<u128>)
        ensures
            r == match self.rate_at_spec(timestamp) {
                None => None,
                Some(rate) => pool_tokens_spec(
                    rate,
                    self.ray as nat,
                    source_amount as nat,
                    swap_token_a_amount as nat,
                    swap_token_b_amount as nat,
                    pool_supply as nat,
                    trade_direction,
                    round_direction,
                ),
            },
    {
        let token_b_price = self.get_conversion_rate(timestamp?)?;
        trading_tokens_to_pool_tokens(
            token_b_price,
            Wide::from_u128(self.ray),
            source_amount,
            swap_token_a_amount,
            swap_token_b_amount,
            pool_supply,
            trade_direction,
            round_direction,
        )
    }

    /// Accepts the curve at `timestamp` when its rate can be computed and is
    /// not zero.
    pub fn validate(&self, timestamp: Option<u128>) -> (r: Result<(), SwapError>)
        ensures
            r == match timestamp {
                None => Err::<(), SwapError>(SwapError::MissingTimestamp),
                Some(t) => match self.conversion_rate_spec(t as nat) {
                    None => Err(SwapError::CalculationFailure),
                    Some(rate) => if rate == 0 {
                        Err(SwapError::InvalidCurve)
                    } else {
                        Ok(())
                    },
                },
            },
    {
        let timestamp = match timestamp {
            Some(t) => t,
            None => {
                return Err(SwapError::MissingTimestamp);
            },
        };
        let token_b_price = match self.get_conversion_rate(timestamp) {
            Some(rate) => rate,
            None => {
                return Err(SwapError::CalculationFailure);
            },
        };
        if token_b_price.is_zero() {
            Err(SwapError::InvalidCurve)
        } else {
            Ok(())
        }
    }

    /// Accepts the first deposit when it holds some of token A.
    pub fn validate_supply(&self, token_a_amount: u64, _token_b_amount: u64) -> (r: Result<
        (),
        SwapError,
    >)
        ensures
            r == if token_a_amount == 0 {
                Err::<(), SwapError>(SwapError::EmptySupply)
            } else {
                Ok(())
            },
    {
        if token_a_amount == 0 {
            return Err(SwapError::EmptySupply);
        }
        Ok(())
    }

    /// Half the worth of both reserves in token A at `timestamp`.
    pub fn normalized_value(
        &self,
        swap_token_a_amount: u128,
        swap_token_b_amount: u128,
        timestamp: Option<u128>,
    ) -> (r: Option<u128>)
        ensures
            r == match self.rate_at_spec(timestamp) {
                None => None,
                Some(rate) => normalized_value_spec(
                    rate,
                    self.ray as nat,
                    swap_token_a_amount as nat,
                    swap_token_b_amount as nat,
                ),
            },
    {
        let token_b_price = self.get_conversion_rate(timestamp?)?;
        normalized_value_at_rate(
            token_b_price,
            Wide::from_u128(self.ray),
            swap_token_a_amount,
            swap_token_b_amount,
        )
    }

    /// A curve record is usable as soon as it exists.
    pub fn is_initialized(&self) -> (r: bool)
        ensures
            r,
    {
        true
    }

    /// The record as bytes: `ray`, `max_ssr`, `ssr`, `rho` and `chi`, each as
    /// sixteen bytes with the lowest first.
    pub open spec fn packed_spec(self) -> Seq<u8> {
        spec_u128_to_le_bytes(self.ray) + spec_u128_to_le_bytes(self.max_ssr)
            + spec_u128_to_le_bytes(self.ssr) + spec_u128_to_le_bytes(self.rho)
            + spec_u128_to_le_bytes(self.chi)
    }

    /// The record that the first eighty of `bytes` spell.
    pub open spec fn unpacked_spec(bytes: Seq<u8>) -> RedemptionRateCurve
        recommends
            bytes.len() >= 80,
    {
        RedemptionRateCurve {
            ray: spec_u128_from_le_bytes(bytes.subrange(0, 16)),
            max_ssr: spec_u128_from_le_bytes(bytes.subrange(16, 32)),
            ssr: spec_u128_from_le_bytes(bytes.subrange(32, 48)),
            rho: spec_u128_from_le_bytes(bytes.subrange(48, 64)),
            chi: spec_u128_from_le_bytes(bytes.subrange(64, 80)),
        }
    }

    /// Writes the record over the first eighty bytes of `output` and leaves
    /// the rest as it was.
    pub fn pack_into_slice(&self, output: &mut [u8])
        requires
            old(output)@.len() >= 80,
        ensures
            final(output)@.len() == old(output)@.len(),
            final(output)@.subrange(0, 80) == self.packed_spec(),
            final(output)@.subrange(80, old(output)@.len() as int) == old(output)@.subrange(
                80,
                old(output)@.len() as int,
            ),
    {
        let fields: [u128; 5] = [self.ray, self.max_ssr, self.ssr, self.rho, self.chi];
        let mut field: usize = 0;
        while field < 5
            invariant
                field <= 5,
                output@.len() == old(output)@.len(),
                output@.len() >= 80,
                fields@ == seq![self.ray, self.max_ssr, self.ssr, self.rho, self.chi],
                forall|f: int| 0 <= f < field ==> #[trigger] holds_field(output@, f, fields@[f]),
                output@.subrange(80, output@.len() as int) == old(output)@.subrange(
                    80,
                    old(output)@.len() as int,
                ),
            decreases 5 - field,
        {
            let bytes = u128_to_le_bytes(fields[field]);
            let base: usize = 16 * field;
            let ghost before = output@;
            let mut i: usize = 0;
            while i < 16
                invariant
                    i <= 16,
                    field < 5,
                    base == 16 * field,
                    bytes@.len() == 16,
                    output@.len() == before.len(),
                    output@.len() >= 80,
                    forall|k: int| 0 <= k < i ==> output@[base + k] == bytes@[k],
                    forall|k: int|
                        0 <= k < output@.len() && !(base <= k < base + i) ==> output@[k]
                            == before[k],
                decreases 16 - i,
            {
                output[base + i] = bytes[i];
                i += 1;
            }
            assert(output@.subrange(16 * field as int, 16 * field + 16) =~= bytes@);
            assert forall|f: int| 0 <= f < field implies #[trigger] holds_field(
                output@,
                f,
                fields@[f],
            ) by {
                assert(holds_field(before, f, fields@[f]));
                assert(output@.subrange(16 * f, 16 * f + 16) =~= before.subrange(
                    16 * f,
                    16 * f + 16,
                ));
            }
            assert(holds_field(output@, field as int, fields@[field as int]));
            assert(output@.subrange(80, output@.len() as int) =~= before.subrange(
                80,
                before.len() as int,
            ));
            field += 1;
        }
        proof {
            let out = output@;
            assert(holds_field(out, 0, fields@[0]));
            assert(holds_field(out, 1, fields@[1]));
            assert(holds_field(out, 2, fields@[2]));
            assert(holds_field(out, 3, fields@[3]));
            assert(holds_field(out, 4, fields@[4]));
            assert(out.subrange(0, 80) =~= out.subrange(0, 16) + out.subrange(16, 32)
                + out.subrange(32, 48) + out.subrange(48, 64) + out.subrange(64, 80));
        }
    }

    /// Reads a record from the first eighty bytes of `input`.
    pub fn unpack_from_slice(input: &[u8]) -> (r: Result<RedemptionRateCurve, ProgramError>)
        requires
            input@.len() >= 80,
        ensures
            r == Ok::<RedemptionRateCurve, ProgramError>(Self::unpacked_spec(input@)),
    {
        Ok(
            RedemptionRateCurve {
                ray: u128_from_le_bytes(slice_subrange(input, 0, 16)),
                max_ssr: u128_from_le_bytes(slice_subrange(input, 16, 32)),
                ssr: u128_from_le_bytes(slice_subrange(input, 32, 48)),
                rho: u128_from_le_bytes(slice_subrange(input, 48, 64)),
                chi: u128_from_le_bytes(slice_subrange(input, 64, 80)),
            },
        )
    }

    /// Reads a record from `input`, which must be exactly eighty bytes long.
    pub fn unpack(input: &[u8]) -> (r: Result<RedemptionRateCurve, ProgramError>)
        ensures
            r == if input@.len() == 80 {
                Ok::<RedemptionRateCurve, ProgramError>(Self::unpacked_spec(input@))
            } else {
                Err(ProgramError::InvalidAccountData)
            },
    {
        if input.len() != REDEMPTION_RATE_CURVE_LEN {
            return Err(ProgramError::InvalidAccountData);
        }
        Self::unpack_from_slice(input)
    }
}

/// A checkpoint is refused whenever its time lies after `now`, its rate is
/// below one or above a cap that is set, and, once a first checkpoint stands,
/// whenever its time or its index lies below the one on record.
pub proof fn lemma_set_rates_refuses(
    curve: RedemptionRateCurve,
    ssr: u128,
    rho: u128,
    chi: u128,
    now: u128,
)
    requires
        rho > now || ssr < curve.ray || (curve.max_ssr != 0 && ssr > curve.max_ssr) || rho
            < curve.rho || (curve.rho != 0 && chi < curve.chi),
    ensures
        curve.set_rates_spec(ssr, rho, chi, now) is Err,
{
}

/// A checkpoint that meets every bound is accepted, also where it meets a
/// bound with equality: its time is at most `now`, its rate is at least one
/// and at most the cap, and either no checkpoint stands yet, or time and index
/// do not fall and the index stays within the growth that the cap allows.
/// An index equal to the one on record is within that growth whenever the
/// growth can be computed.
pub proof fn lemma_set_rates_accepts(
    curve: RedemptionRateCurve,
    ssr: u128,
    rho: u128,
    chi: u128,
    now: u128,
)
    requires
        curve.ray > 0,
        rho <= now,
        curve.ray <= ssr,
        curve.max_ssr == 0 || ssr <= curve.max_ssr,
        curve.rho == 0 || (curve.rho <= rho && curve.chi <= chi),
        curve.rho == 0 || curve.max_ssr == 0 || (curve.chi_cap_spec(rho as nat) is Ok && (chi
            == curve.chi || chi <= curve.chi_cap_spec(rho as nat).unwrap())),
    ensures
        curve.set_rates_spec(ssr, rho, chi, now) == Ok::<RedemptionRateCurve, ProgramError>(
            RedemptionRateCurve { ray: curve.ray, max_ssr: curve.max_ssr, ssr, rho, chi },
        ),
        curve.rho != 0 && curve.max_ssr != 0 && rho == curve.rho ==> curve.chi_cap_spec(rho as nat)
            == Ok::<nat, ProgramError>(curve.chi as nat),
{
    if curve.rho != 0 && curve.max_ssr != 0 {
        let ray = curve.ray as nat;
        let duration = (rho - curve.rho) as nat;
        let growth = rpow_spec(curve.max_ssr as nat, duration, ray).unwrap();
        lemma_rpow_at_least_one(curve.max_ssr as nat, duration, ray);
        let old_chi = curve.chi as nat;
        let cap = curve.chi_cap_spec(rho as nat).unwrap();
        assert(cap == growth * old_chi / ray);
        assert(growth * old_chi >= ray * old_chi) by (nonlinear_arith)
            requires
                growth >= ray,
        ;
        vstd::arithmetic::div_mod::lemma_div_is_ordered(
            (ray * old_chi) as int,
            (growth * old_chi) as int,
            ray as int,
        );
        vstd::arithmetic::div_mod::lemma_div_multiples_vanish(old_chi as int, ray as int);
        assert(ray * old_chi == old_chi * ray) by (nonlinear_arith);
        assert(cap >= old_chi);
    }
}

/// Packing a record and reading it back gives the same record, and the
/// packed form is eighty bytes long.
pub proof fn lemma_pack_round_trip(curve: RedemptionRateCurve)
    ensures
        curve.packed_spec().len() == 80,
        RedemptionRateCurve::unpacked_spec(curve.packed_spec()) == curve,
{
    lemma_auto_spec_u128_to_from_le_bytes();
    let bytes = curve.packed_spec();
    assert(bytes.subrange(0, 16) =~= spec_u128_to_le_bytes(curve.ray));
    assert(bytes.subrange(16, 32) =~= spec_u128_to_le_bytes(curve.max_ssr));
    assert(bytes.subrange(32, 48) =~= spec_u128_to_le_bytes(curve.ssr));
    assert(bytes.subrange(48, 64) =~= spec_u128_to_le_bytes(curve.rho));
    assert(bytes.subrange(64, 80) =~= spec_u128_to_le_bytes(curve.chi));
}

/// A deposit into both sides keeps the value of a pool token.
///
/// At the rate `rate / ray`, the deposit mints `pool_tokens` and pays the
/// rounded-up amounts of both tokens. The value of a pool token afterwards is
/// at least its value before, up to the one unit that halving the pool's
/// worth can lose: `(after + 1) / (supply + pool_tokens) > before / supply`,
/// written without division.
pub proof fn lemma_deposit_keeps_value_per_share(
    rate: nat,
    ray: nat,
    pool_tokens: u128,
    supply: u128,
    reserve_a: u128,
    reserve_b: u128,
    paid: TradingTokenResult,
    before: u128,
    after: u128,
)
    requires
        trading_tokens_spec(
            rate,
            ray,
            pool_tokens as nat,
            supply as nat,
            reserve_a as nat,
            reserve_b as nat,
            RoundDirection::Ceiling,
        ) == Some(paid),
        normalized_value_spec(rate, ray, reserve_a as nat, reserve_b as nat) == Some(before),
        normalized_value_spec(
            rate,
            ray,
            (reserve_a + paid.token_a_amount) as nat,
            (reserve_b + paid.token_b_amount) as nat,
        ) == Some(after),
    ensures
        (after + 1) * supply > before * (supply + pool_tokens),
{
    let paid_a = paid.token_a_amount as nat;
    let paid_b = paid.token_b_amount as nat;
    let a = reserve_a as nat;
    let b = reserve_b as nat;
    let s = supply as nat;
    let p = pool_tokens as nat;
    let v = before as nat;
    let scaled: nat = p * v;
    let worth_b = mul_ceil_div_spec(scaled, ray, rate).unwrap();
    lemma_normalized_value_is_half_worth(rate, ray, a, b);
    lemma_normalized_value_is_half_worth(rate, ray, a + paid_a, b + paid_b);
    lemma_quotients(scaled, s);
    lemma_quotients(scaled * ray, rate);
    lemma_quotients(worth_b, s);
    assert(paid_b * rate * s >= scaled * ray) by (nonlinear_arith)
        requires
            paid_b * s >= worth_b,
            worth_b * rate >= scaled * ray,
            rate >= 0,
    {
        assert(paid_b * rate * s == (paid_b * s) * rate);
        assert((paid_b * s) * rate >= worth_b * rate);
    }
    assert((a + paid_a) * s >= a * s + scaled) by (nonlinear_arith)
        requires
            paid_a * s >= scaled,
    ;
    assert((b + paid_b) * rate * s >= b * rate * s + scaled * ray) by (nonlinear_arith)
        requires
            paid_b * rate * s >= scaled * ray,
    ;
    lemma_value_per_share_shifted(rate, ray, a, b, s, a + paid_a, b + paid_b, scaled as int);
    assert(v * s + scaled == v * (s + p)) by (nonlinear_arith)
        requires
            scaled == p * v,
    ;
}

/// A withdrawal from both sides keeps the value of a pool token.
///
/// At the rate `rate / ray`, the withdrawal burns `pool_tokens` and takes the
/// rounded-down amounts of both tokens, neither more than its reserve. The
/// value of a pool token afterwards is at least its value before, up to the
/// one unit that halving the pool's worth can lose:
/// `(after + 1) / (supply - pool_tokens) > before / supply`, written without
/// division.
pub proof fn lemma_withdrawal_keeps_value_per_share(
    rate: nat,
    ray: nat,
    pool_tokens: u128,
    supply: u128,
    reserve_a: u128,
    reserve_b: u128,
    taken: TradingTokenResult,
    before: u128,
)
    requires
        trading_tokens_spec(
            rate,
            ray,
            pool_tokens as nat,
            supply as nat,
            reserve_a as nat,
            reserve_b as nat,
            RoundDirection::Floor,
        ) == Some(taken),
        normalized_value_spec(rate, ray, reserve_a as nat, reserve_b as nat) == Some(before),
    ensures
        taken.token_a_amount <= reserve_a,
        taken.token_b_amount <= reserve_b,
        normalized_value_spec(
            rate,
            ray,
            (reserve_a - taken.token_a_amount) as nat,
            (reserve_b - taken.token_b_amount) as nat,
        ) is Some,
        (normalized_value_spec(
            rate,
            ray,
            (reserve_a - taken.token_a_amount) as nat,
            (reserve_b - taken.token_b_amount) as nat,
        ).unwrap() + 1) * supply > before * (supply - pool_tokens),
{
    let taken_a = taken.token_a_amount as nat;
    let taken_b = taken.token_b_amount as nat;
    let a = reserve_a as nat;
    let b = reserve_b as nat;
    let s = supply as nat;
    let p = pool_tokens as nat;
    let v = before as nat;
    let scaled: nat = p * v;
    let worth_b = mul_div_spec(scaled, ray, rate).unwrap();
    lemma_normalized_value_is_half_worth(rate, ray, a, b);
    lemma_quotients(scaled, s);
    lemma_quotients(scaled * ray, rate);
    lemma_quotients(worth_b, s);
    let left_a = (a - taken_a) as nat;
    let left_b = (b - taken_b) as nat;
    assert(taken_a * s <= scaled) by (nonlinear_arith)
        requires
            taken_a <= scaled / s,
            (scaled / s) * s <= scaled,
            s >= 0,
    ;
    assert(taken_b * rate * s <= scaled * ray) by (nonlinear_arith)
        requires
            taken_b <= worth_b / s,
            (worth_b / s) * s <= worth_b,
            worth_b * rate <= scaled * ray,
            rate >= 0,
            s >= 0,
    {
        assert(taken_b * s <= (worth_b / s) * s);
        assert(taken_b * rate * s == (taken_b * s) * rate);
        assert((taken_b * s) * rate <= worth_b * rate);
    }
    assert(left_a * s >= a * s - scaled) by (nonlinear_arith)
        requires
            taken_a * s <= scaled,
            left_a == a - taken_a,
    ;
    assert(left_b * rate * s >= b * rate * s + (-scaled) * ray) by (nonlinear_arith)
        requires
            taken_b * rate * s <= scaled * ray,
            left_b == b - taken_b,
    ;
    lemma_value_per_share_shifted(rate, ray, a, b, s, left_a, left_b, -(scaled as int));
    assert(v * s - scaled == v * (s - p)) by (nonlinear_arith)
        requires
            scaled == p * v,
    ;
    // what is left is worth no more than what was there
    assert(left_b * rate <= b * rate) by (nonlinear_arith)
        requires
            left_b <= b,
    ;
    vstd::arithmetic::div_mod::lemma_div_is_ordered(
        (left_b * rate) as int,
        (b * rate) as int,
        ray as int,
    );
}

/// What an accepted checkpoint leaves behind: a well-formed record with the
/// scale and the cap of the old one, whose checkpoint is not in the future.
/// Once a first checkpoint stands, neither time nor index falls, and under a
/// cap the index stays within the growth that the cap allows.
pub proof fn lemma_set_rates_keeps_invariants(
    curve: RedemptionRateCurve,
    ssr: u128,
    rho: u128,
    chi: u128,
    now: u128,
)
    requires
        curve.set_rates_spec(ssr, rho, chi, now) is Ok,
    ensures
        ({
            let updated = curve.set_rates_spec(ssr, rho, chi, now).unwrap();
            &&& updated == (RedemptionRateCurve {
                ray: curve.ray,
                max_ssr: curve.max_ssr,
                ssr,
                rho,
                chi,
            })
            &&& curve.ray > 0 ==> updated.well_formed()
            &&& updated.rho <= now
            &&& curve.rho != 0 ==> updated.rho >= curve.rho && updated.chi >= curve.chi
            &&& curve.rho != 0 && curve.max_ssr != 0 ==> curve.chi_cap_spec(rho as nat) is Ok
                && chi <= curve.chi_cap_spec(rho as nat).unwrap()
        }),
{
}

/// A rate of at least one never shrinks the index: at or after the
/// checkpoint of a well-formed record, the index carried forward is at least
/// the index on record.
pub proof fn lemma_conversion_rate_never_shrinks(curve: RedemptionRateCurve, timestamp: u128)
    requires
        curve.well_formed(),
        curve.conversion_rate_spec(timestamp as nat) is Some,
    ensures
        timestamp >= curve.rho,
        curve.conversion_rate_spec(timestamp as nat).unwrap() >= curve.chi,
{
    if timestamp != curve.rho {
        let ray = curve.ray as nat;
        let chi = curve.chi as nat;
        let duration = (timestamp - curve.rho) as nat;
        let growth = rpow_spec(curve.ssr as nat, duration, ray).unwrap();
        lemma_rpow_at_least_one(curve.ssr as nat, duration, ray);
        assert(growth * chi >= ray * chi) by (nonlinear_arith)
            requires
                growth >= ray,
        ;
        vstd::arithmetic::div_mod::lemma_div_is_ordered(
            (ray * chi) as int,
            (growth * chi) as int,
            ray as int,
        );
        vstd::arithmetic::div_mod::lemma_div_multiples_vanish(chi as int, ray as int);
        assert(ray * chi == chi * ray) by (nonlinear_arith);
    }
}

} // verus!
