use vstd::prelude::*;

verus! {

/// Milliseconds elapsed for `ticks` counter ticks at `freq_hz`, with the
/// multiplication saturating at `u64::MAX`; zero when the frequency is unknown.
pub open spec fn spec_ticks_to_ms(ticks: u64, freq_hz: u64) -> u64 {
    if freq_hz == 0 {
        0
    } else {
        let scaled: int = if ticks * 1000 > u64::MAX { u64::MAX as int } else { ticks * 1000 };
        (scaled / (freq_hz as int)) as u64
    }
}

/// Converts a counter reading into milliseconds.
pub fn ticks_to_ms(ticks: u64, freq_hz: u64) -> (ms: u64)
    ensures
        ms == spec_ticks_to_ms(ticks, freq_hz),
{
    if freq_hz == 0 {
        return 0;
    }
    let scaled: u64 = if ticks > u64::MAX / 1000 { u64::MAX } else { ticks * 1000 };
    scaled / freq_hz
}

} // verus!
