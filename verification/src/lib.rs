//! A momentum-oscillator library: it computes the Relative Strength Index
//! (RSI) of a price series with Wilder smoothing, and maps the latest RSI
//! value to a trading decision between two threshold bands.
//!
//! All prices, gains and RSI values are fixed-point integers: a value `v`
//! stands for the real number `v / SCALE`. This keeps the whole pipeline
//! deterministic and lets every step carry a proved contract.

pub mod indicator;
pub mod policy;
