//! Exact arithmetic for tracking a leveraged trading position.
//!
//! The library computes the arithmetic consequences of trades and market
//! prices: step-size quantization, the size-weighted average entry price of a
//! position as fills arrive, exposure and profit metrics derived from that
//! state, a drawdown-based loss allowance, and Lagrange interpolation.
//!
//! All values are exact rationals ([`rational::Rational`]); every operation
//! either returns the mathematically exact result or reports that it does not
//! fit in the fixed-width representation.  Nothing here performs I/O or holds
//! state across calls.

pub mod interp;
pub mod metrics;
pub mod position;
pub mod quantize;
pub mod rational;
pub mod unstuck;
