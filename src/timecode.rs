use vstd::prelude::*;

verus! {

/// Microseconds in one minute.
pub const MICROS_PER_MINUTE: u64 = 60_000_000;

/// Microseconds in one second.
pub const MICROS_PER_SECOND: u64 = 1_000_000;

/// Microseconds in one hundredth of a second.
pub const MICROS_PER_HUNDREDTH: u64 = 10_000;

/// The offset, in microseconds, written by a `[MM:SS.HH]` tag.
pub open spec fn timecode_us(minutes: int, seconds: int, hundredths: int) -> int {
    minutes * 60_000_000 + seconds * 1_000_000 + hundredths * 10_000
}

/// Converts minutes, seconds and hundredths of a second to microseconds,
/// or `None` where the sum does not fit in a `u64`.
pub fn time_in_microseconds(minutes: u64, seconds: u64, hundredths: u64) -> (r: Option<u64>)
    ensures
        timecode_us(minutes as int, seconds as int, hundredths as int) <= u64::MAX ==> r == Some(
            timecode_us(minutes as int, seconds as int, hundredths as int) as u64,
        ),
        timecode_us(minutes as int, seconds as int, hundredths as int) > u64::MAX ==> r is None,
{
    let m = minutes.checked_mul(MICROS_PER_MINUTE);
    let s = seconds.checked_mul(MICROS_PER_SECOND);
    let h = hundredths.checked_mul(MICROS_PER_HUNDREDTH);
    match (m, s, h) {
        (Some(m), Some(s), Some(h)) => match m.checked_add(s) {
            Some(ms) => ms.checked_add(h),
            None => None,
        },
        _ => None,
    }
}

} // verus!
