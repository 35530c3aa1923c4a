//! A calendar-free duration calculator.
//!
//! Durations are written as whitespace-separated unit terms (`3w`, `2d`,
//! `5h`, `30m`, `45s`), combined with `+` and `-` operators and evaluated
//! strictly left to right.  The result is rendered in canonical form: the
//! maximal number of whole weeks, then days, hours, minutes and seconds.

pub mod duration;
pub mod error;
pub mod eval;
pub mod fmt;
pub mod parse;
