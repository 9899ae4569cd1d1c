//! Uptime from the time-stamp counter, and busy waiting on it.

use vstd::prelude::*;

verus! {

/// Bit of RTC status register A that is set while the clock is updating.
pub const RTC_UPDATE_IN_PROGRESS: u8 = 0x80;

/// The RTC is updating and must not be read.
pub fn rtc_update_in_progress(status_a: u8) -> (b: bool)
    ensures
        b == (status_a & RTC_UPDATE_IN_PROGRESS != 0),
{
    (status_a & RTC_UPDATE_IN_PROGRESS) != 0
}

/// Ticks of the time-stamp counter in one second, measured as the counter
/// readings `t1` and `t2` at two consecutive RTC second boundaries.
pub fn tsc_frequency(t1: u64, t2: u64) -> (f: u64)
    requires
        t1 <= t2,
    ensures
        f == t2 - t1,
{
    t2 - t1
}

/// Milliseconds since the counter read `base_tsc` at boot, now that it reads
/// `now_tsc`, at `tsc_freq` ticks per second; 0 while the frequency is unknown.
pub fn get_uptime_ms(now_tsc: u64, base_tsc: u64, tsc_freq: u64) -> (ms: u64)
    requires
        tsc_freq != 0 ==> base_tsc <= now_tsc && (now_tsc - base_tsc) * 1000 <= u64::MAX,
    ensures
        ms == if tsc_freq == 0 {
            0
        } else {
            ((now_tsc - base_tsc) * 1000) / tsc_freq as int
        },
{
    if tsc_freq == 0 {
        return 0;
    }
    let elapsed = now_tsc - base_tsc;
    (elapsed * 1000) / tsc_freq
}

/// A busy wait that ends once the uptime reaches `target` milliseconds.
pub struct Sleep {
    pub target: u64,
}

/// Starts waiting `ms` milliseconds from uptime `now_ms`.
pub fn sleep_ms(now_ms: u64, ms: u64) -> (s: Sleep)
    requires
        now_ms + ms <= u64::MAX,
    ensures
        s.target == now_ms + ms,
{
    Sleep { target: now_ms + ms }
}

impl Sleep {
    /// The wait is over at uptime `now_ms`.
    pub fn is_done(&self, now_ms: u64) -> (b: bool)
        ensures
            b == (now_ms >= self.target),
    {
        now_ms >= self.target
    }
}

/// Uptime never runs backwards: a later counter reading gives at least as many
/// milliseconds.
pub proof fn lemma_uptime_monotonic(base_tsc: u64, tsc_freq: u64, now1: u64, now2: u64)
    requires
        tsc_freq != 0,
        base_tsc <= now1 <= now2,
    ensures
        ((now1 - base_tsc) * 1000) / tsc_freq as int <= ((now2 - base_tsc) * 1000) / tsc_freq as int,
{
    vstd::arithmetic::div_mod::lemma_div_is_ordered(
        (now1 - base_tsc) * 1000,
        (now2 - base_tsc) * 1000,
        tsc_freq as int,
    );
}

} // verus!
