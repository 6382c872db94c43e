//! Wordlist generation from memorable keywords: leetspeak substitution,
//! exhaustive case variation and positional injection of year and
//! special-character tokens, gathered in a cumulative pool.

pub mod confirm;
pub mod generator;
pub mod injection;
pub mod substitution;
pub mod text;
pub mod variation;
pub mod years;
