//! Uptime from the boot time stamp of the management interface and a
//! reading of the local clock.
use crate::facts::CollectError;
use crate::trusted::{read_seconds, stamp_seconds};
use vstd::prelude::*;
use vstd::string::StringSliceAdditionalSpecFns;
use vstd::utf8::{decode_utf8, encode_utf8, is_char_boundary};

verus! {

/// The `strftime` format of a boot time stamp without its offset suffix:
/// year, month, day, hour, minute, second and a fraction of six digits.
pub const STAMP_FORMAT: &'static str = "%Y%m%d%H%M%S%.6f";

/// The bytes of the UTC offset that ends a time stamp: a sign and three digits.
pub const OFFSET_BYTES: usize = 4;

/// Seconds in a minute.
pub const SECONDS_PER_MINUTE: i128 = 60;

/// The stamp without the four bytes of its offset suffix, if it has
/// them and they can be cut off.
pub open spec fn stamp_head(stamp: Seq<char>) -> Option<Seq<char>> {
    let bytes = encode_utf8(stamp);
    if bytes.len() >= 4 && is_char_boundary(bytes, bytes.len() - 4) {
        Some(decode_utf8(bytes.subrange(0, bytes.len() - 4)))
    } else {
        None
    }
}

/// The boot time that `stamp` writes, in whole seconds of local wall-clock
/// time since the start of 1970; nothing where it writes none.
pub open spec fn boot_seconds(stamp: Seq<char>) -> Option<i64> {
    match stamp_head(stamp) {
        Some(head) => stamp_seconds(head, STAMP_FORMAT@),
        None => None,
    }
}

/// The whole minutes from `boot_seconds` to `now_seconds`, rounded towards
/// zero; below zero where the boot is yet to come.
pub open spec fn elapsed(boot_seconds: int, now_seconds: int) -> int {
    let span = now_seconds - boot_seconds;
    if span >= 0 {
        span / 60
    } else {
        -((-span) / 60)
    }
}

/// The uptime in minutes at the clock reading `now_seconds`, for a boot
/// at the time that `stamp` writes. A stamp that writes no time is malformed.
pub open spec fn uptime_minutes(stamp: Seq<char>, now_seconds: int) -> Result<i64, CollectError> {
    match boot_seconds(stamp) {
        Some(boot) => Ok(elapsed(boot as int, now_seconds) as i64),
        None => Err(CollectError::MalformedValue),
    }
}

/// The whole minutes from one reading of the clock to another, both in
/// whole seconds, rounded towards zero.
pub fn elapsed_minutes(boot_seconds: i64, now_seconds: i64) -> (minutes: i64)
    ensures
        minutes == elapsed(boot_seconds as int, now_seconds as int),
{
    let span: i128 = now_seconds as i128 - boot_seconds as i128;
    if span >= 0 {
        (span / SECONDS_PER_MINUTE) as i64
    } else {
        let back: i128 = -span;
        (-(back / SECONDS_PER_MINUTE)) as i64
    }
}

/// The boot time that `stamp` writes, in whole seconds of local wall-clock
/// time since the start of 1970.
pub fn boot_time(stamp: &str) -> (seconds: Result<i64, CollectError>)
    ensures
        seconds == match boot_seconds(stamp@) {
            Some(count) => Ok::<i64, CollectError>(count),
            None => Err::<i64, CollectError>(CollectError::MalformedValue),
        },
{
    let length = stamp.as_bytes().len();
    if length < OFFSET_BYTES {
        return Err(CollectError::MalformedValue);
    }
    if !stamp.is_char_boundary(length - OFFSET_BYTES) {
        return Err(CollectError::MalformedValue);
    }
    let (head, _) = stamp.split_at(length - OFFSET_BYTES);
    proof {
        vstd::utf8::encode_utf8_decode_utf8(head@);
    }
    match read_seconds(head, STAMP_FORMAT) {
        Ok(count) => Ok(count),
        Err(_) => Err(CollectError::MalformedValue),
    }
}

/// The whole minutes from the boot time that `last_boot_up_time` writes to
/// the reading `now_seconds` of the local clock, in whole seconds of
/// wall-clock time since the start of 1970.
pub fn minutes_since_boot(last_boot_up_time: &str, now_seconds: i64) -> (minutes: Result<
    i64,
    CollectError,
>)
    ensures
        minutes == uptime_minutes(last_boot_up_time@, now_seconds as int),
{
    match boot_time(last_boot_up_time) {
        Ok(boot) => Ok(elapsed_minutes(boot, now_seconds)),
        Err(error) => Err(error),
    }
}

} // verus!
