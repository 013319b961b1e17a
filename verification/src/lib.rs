//! Exact 256-bit multiply-then-divide and tick-grid arithmetic for
//! concentrated-liquidity pool positions.

pub mod bits;
pub mod error;
pub mod full_math;
pub mod limbs;
pub mod tick_math;
pub mod types;
pub mod u256;
pub mod wide;
