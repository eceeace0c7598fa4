//! A number-guessing game library.
//!
//! A session holds a secret target in `1..=100` and counts parsed guesses.
//! Each input line is trimmed and parsed as an unsigned decimal integer;
//! a line that does not parse is answered without consuming an attempt.
//! A parsed guess is answered with "too small", "too big", or a win; after
//! ten parsed guesses without a win the session is lost and the target is
//! revealed.

pub mod arith;
pub mod laws;
pub mod parse;
pub mod session;
