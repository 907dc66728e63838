//! The time of day, as milliseconds since the Unix epoch.
use crate::outside::since_unix_epoch;
use vstd::prelude::*;

verus! {

/// The number that stands for a clock reading: the milliseconds that have passed since the epoch,
/// with the bits that an `i64` has room for, or 0 on a clock that is set to before the epoch.
pub open spec fn clock_value(elapsed: Option<u128>) -> int {
    match elapsed {
        Some(millis) => {
            let low = millis as int % 0x1_0000_0000_0000_0000;
            if low < 0x8000_0000_0000_0000 {
                low
            } else {
                low - 0x1_0000_0000_0000_0000
            }
        },
        None => 0,
    }
}

/// The number that stands for a clock reading.
pub fn epoch_millis(elapsed: Option<u128>) -> (value: i64)
    ensures
        value == clock_value(elapsed),
{
    match elapsed {
        Some(millis) => {
            assert(millis % 0x1_0000_0000_0000_0000u128 < 0x8000_0000_0000_0000u128 ==> (
            millis as i64) == millis % 0x1_0000_0000_0000_0000u128) by (bit_vector);
            assert(millis % 0x1_0000_0000_0000_0000u128 >= 0x8000_0000_0000_0000u128 ==> (
            millis as i64) == millis % 0x1_0000_0000_0000_0000u128
                - 0x1_0000_0000_0000_0000u128) by (bit_vector);
            #[verifier::truncate]
            (millis as i64)
        },
        None => 0,
    }
}

/// Reads the clock: the milliseconds since the epoch, or nothing if the clock is set to before
/// the epoch. What comes back depends on the machine alone.
pub(crate) fn since_epoch() -> (elapsed: Option<u128>) {
    match since_unix_epoch(std::time::SystemTime::now()) {
        Ok(elapsed) => Some(elapsed.as_millis()),
        Err(_) => None,
    }
}

/// Reads the clock. The number is that of some reading; which one depends on the machine alone. As
/// every `i64` is the number of some reading, the contract leaves the value open: `epoch_millis`
/// says which number stands for which reading.
pub fn get_ms() -> (now: i64)
    ensures
        exists|elapsed: Option<u128>| now == #[trigger] clock_value(elapsed),
{
    let elapsed = since_epoch();
    epoch_millis(elapsed)
}

/// Up to the largest `i64`, the number of a reading is its milliseconds. Beyond, readings whose
/// milliseconds differ by a multiple of two to the 64th have the same number.
pub proof fn law_clock_counts_milliseconds(millis: u128, rounds: nat)
    requires
        millis + rounds * 0x1_0000_0000_0000_0000 <= u128::MAX,
    ensures
        clock_value(None) == 0,
        millis <= i64::MAX ==> clock_value(Some(millis)) == millis,
        i64::MIN <= clock_value(Some(millis)) <= i64::MAX,
        (clock_value(Some(millis)) - millis) % 0x1_0000_0000_0000_0000 == 0,
        clock_value(Some((millis + rounds * 0x1_0000_0000_0000_0000) as u128)) == clock_value(
            Some(millis),
        ),
{
    let later = (millis + rounds * 0x1_0000_0000_0000_0000) as u128;
    assert(later as int % 0x1_0000_0000_0000_0000 == millis as int % 0x1_0000_0000_0000_0000)
        by (nonlinear_arith)
        requires
            later == millis + rounds * 0x1_0000_0000_0000_0000,
    ;
}

} // verus!
