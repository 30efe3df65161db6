//! The curve calculators and what they share.

pub mod base;
pub mod calculator;
pub mod constant_price;
pub mod fixed_point;
pub mod redemption_rate;
