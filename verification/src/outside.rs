//! What the library takes from elsewhere without proof: the hash function, lossy decoding of
//! UTF-8, growing a string, and the clock.
use vstd::prelude::*;
use vstd::utf8::{decode_utf8, valid_utf8};

verus! {

/// The hash that `xxhash_rust::xxh3::xxh3_128` computes of `input`.
pub uninterp spec fn xxh3_128_of(input: Seq<u8>) -> u128;

/// Calls `xxhash_rust::xxh3::xxh3_128`, the unseeded 128-bit XXH3 hash. Claimed of it: the hash is
/// a function of the bytes alone.
#[verifier::external_body]
pub(crate) fn xxh3_128(input: &[u8]) -> (hash: u128)
    ensures
        hash == xxh3_128_of(input@),
{
    xxhash_rust::xxh3::xxh3_128(input)
}

/// The text that `String::from_utf8_lossy` makes of bytes that are not valid UTF-8.
pub uninterp spec fn replaced_utf8(bytes: Seq<u8>) -> Seq<char>;

/// The text that bytes are taken for: what they encode, or, if they are not valid UTF-8, a text
/// with replacement characters in the place of what cannot be decoded.
pub open spec fn lossy_utf8(bytes: Seq<u8>) -> Seq<char> {
    if valid_utf8(bytes) {
        decode_utf8(bytes)
    } else {
        replaced_utf8(bytes)
    }
}

/// Calls `String::from_utf8_lossy`. Claimed of it: valid UTF-8 is decoded, and what is made of
/// other bytes is a function of the bytes alone. Left unsaid is where in such bytes a replacement
/// character comes to stand.
#[verifier::external_body]
pub(crate) fn from_utf8_lossy(bytes: &[u8]) -> (text: String)
    ensures
        valid_utf8(bytes@) ==> text@ == decode_utf8(bytes@),
        !valid_utf8(bytes@) ==> text@ == replaced_utf8(bytes@),
{
    String::from_utf8_lossy(bytes).into_owned()
}

/// Specifies `String::push`: the character is added to the end of the text.
pub assume_specification[ String::push ](text: &mut String, c: char)
    ensures
        final(text)@ == old(text)@.push(c),
;

/// Declares `std::time::SystemTime`, a reading of the system clock.
#[verifier::external_type_specification]
#[verifier::external_body]
pub struct ExSystemTime(std::time::SystemTime);

/// Declares `std::time::SystemTimeError`, by which a reading before another is reported.
#[verifier::external_type_specification]
#[verifier::external_body]
pub struct ExSystemTimeError(std::time::SystemTimeError);

/// Specifies `std::time::SystemTime::now`, of which nothing is claimed: it reads the clock.
pub assume_specification[ std::time::SystemTime::now ]() -> std::time::SystemTime;

/// Calls `std::time::SystemTime::duration_since` for the Unix epoch. Nothing is claimed of the
/// result: how far a reading is from the epoch is up to the clock.
#[verifier::external_body]
pub(crate) fn since_unix_epoch(time: std::time::SystemTime) -> Result<
    std::time::Duration,
    std::time::SystemTimeError,
> {
    time.duration_since(std::time::UNIX_EPOCH)
}

/// Specifies `std::time::Duration::as_millis`, of which nothing is claimed: the durations it is
/// called on come from the clock.
pub assume_specification[ std::time::Duration::as_millis ](
    duration: &std::time::Duration,
) -> u128;

} // verus!
