//! Time-stamped identifiers: the current Unix time and a uid made of a caller
//! prefix followed by that time in decimal.

use vstd::prelude::*;

use crate::digits::{decimal_seq, usize_to_decimal};

verus! {

/// The current Unix time, in whole seconds.
///
/// Relies on `std::time::SystemTime::now` and `SystemTime::duration_since`:
/// the elapsed time since the Unix epoch. Panics only when the system clock
/// reads earlier than the epoch, where `duration_since` has no answer.
#[verifier::external_body]
pub fn get_now() -> usize {
    std::time::SystemTime::now()
        .duration_since(std::time::UNIX_EPOCH)
        .unwrap()
        .as_secs() as usize
}

/// Build the uid for `prefix` at time `now`: the prefix followed by the time
/// in decimal.
pub fn make_uid(prefix: &str, now: usize) -> (r: String)
    ensures
        r@ == prefix@ + decimal_seq(now as int),
{
    let mut r = prefix.to_owned();
    let digits = usize_to_decimal(now);
    r.append(digits.as_str());
    r
}

/// Generate a uid: the prefix followed by the current Unix time in decimal.
/// Whatever the clock read, the result is the prefix followed by the decimal
/// rendering of some number.
pub fn get_uid(prefix: &str) -> (r: String)
    ensures
        exists|n: int| 0 <= n && r@ == prefix@ + decimal_seq(n),
{
    let now = get_now();
    make_uid(prefix, now)
}

} // verus!
