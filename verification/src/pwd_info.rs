//! A generated password together with its strength score.

use vstd::prelude::*;

verus! {

/// A password and how strong it is.
///
/// The score is a binary64 floating-point number, held as its bit pattern so
/// that the pair stays a plain value: `f64::from_bits` gives the number back.
#[derive(Debug)]
pub struct PwdInfo {
    /// The password text.
    pub password: String,
    /// The bit pattern of the score.
    pub score_bits: u64,
}

impl PwdInfo {
    /// Pairs a password with the bit pattern of its score.
    pub fn new(password: String, score_bits: u64) -> (info: PwdInfo)
        ensures
            info.password == password,
            info.score_bits == score_bits,
    {
        PwdInfo { password, score_bits }
    }
}

} // verus!
