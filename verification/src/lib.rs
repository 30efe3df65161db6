//! Pricing engine of a two-asset pool: checked 256-bit arithmetic, a
//! fixed-point power routine, and the curve calculators built on them.
//!
//! Every executable function carries a contract over mathematical integers,
//! and none of them panics: overflow and division by zero come back as `None`
//! or as a named error.

pub mod curve;
pub mod error;
pub mod permission;
pub mod redemption_rate_processor;
pub mod wide;
