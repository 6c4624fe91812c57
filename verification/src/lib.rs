//! Roman numeral arithmetic.
//!
//! The library converts between Roman numerals and integers in the range
//! 1..=3999 and evaluates the four basic arithmetic operations on two
//! numerals, returning the result as a numeral. Parsing is lenient: any
//! string over the symbol alphabet is read under the additive/subtractive
//! rule, canonical or not. Formatting is greedy and always produces the
//! canonical form.

pub mod eval;
pub mod laws;
pub mod numeral;
