//! Clock arithmetic over the CPU cycle counter (`ccount`), which runs at the
//! 80 MHz core clock and wraps around at 2^32.

use vstd::prelude::*;

verus! {

/// CPU cycles per microsecond at the 80 MHz core clock.
pub const CYCLES_PER_US: u32 = 80;

/// CPU cycles per scheduler tick reported to the driver.
pub const CYCLES_PER_TICK: u32 = 1000;

/// Cycles that passed from counter value `start` to counter value `now`,
/// counting across the counter's wrap-around.
pub open spec fn cycles_since(start: u32, now: u32) -> int {
    (now - start) % 0x1_0000_0000
}

/// Microseconds since boot for the counter value `cycles`.
pub fn system_get_time(cycles: u32) -> (r: u32)
    ensures
        r == cycles / CYCLES_PER_US,
{
    cycles / CYCLES_PER_US
}

/// Scheduler ticks for the counter value `cycles`.
#[allow(non_snake_case)]
pub fn xTaskGetTickCount(cycles: u32) -> (r: u32)
    ensures
        r == cycles / CYCLES_PER_TICK,
{
    cycles / CYCLES_PER_TICK
}

/// The high-resolution timer in microseconds for the counter value `cycles`.
pub fn esp_timer_get_time(cycles: u32) -> (r: i64)
    ensures
        r == cycles / CYCLES_PER_US,
{
    let us = system_get_time(cycles);
    us as i64
}

/// The early log timestamp in microseconds for the counter value `cycles`.
pub fn esp_log_early_timestamp(cycles: u32) -> (r: u32)
    ensures
        r == cycles / CYCLES_PER_US,
{
    system_get_time(cycles)
}

/// The number of cycles a busy wait of `us` microseconds lasts. The product
/// must fit in 32 bits.
pub fn delay_cycles(us: u32) -> (r: u32)
    requires
        us * CYCLES_PER_US <= u32::MAX,
    ensures
        r == us * CYCLES_PER_US,
{
    us * CYCLES_PER_US
}

/// Whether a busy wait that began at counter value `start` and lasts `cycles`
/// cycles is over at counter value `now`.
pub fn delay_elapsed(start: u32, now: u32, cycles: u32) -> (r: bool)
    ensures
        r == (cycles_since(start, now) >= cycles),
{
    let passed = now.wrapping_sub(start);
    passed >= cycles
}

/// A busy wait measures time correctly across the counter's wrap-around: if
/// the counter has advanced by `k < 2^32` cycles since `start`, the wait of
/// `cycles` cycles is over exactly when `k >= cycles`.
pub proof fn lemma_delay_elapsed_across_wrap(start: u32, k: int, cycles: u32)
    requires
        0 <= k < 0x1_0000_0000,
    ensures
        cycles_since(start, ((start + k) % 0x1_0000_0000) as u32) == k,
        (cycles_since(start, ((start + k) % 0x1_0000_0000) as u32) >= cycles) <==> k >= cycles,
{
    let now = ((start + k) % 0x1_0000_0000) as u32;
    if start + k < 0x1_0000_0000 {
        assert(now == start + k);
    } else {
        assert(now == start + k - 0x1_0000_0000);
    }
}

/// Between two readings of the counter that did not wrap, the reported
/// uptime and tick count never go backwards.
pub proof fn lemma_clock_monotone(c1: u32, c2: u32)
    requires
        c1 <= c2,
    ensures
        c1 / CYCLES_PER_US <= c2 / CYCLES_PER_US,
        c1 / CYCLES_PER_TICK <= c2 / CYCLES_PER_TICK,
{
    assert(c1 / 80 <= c2 / 80) by (nonlinear_arith)
        requires c1 <= c2;
    assert(c1 / 1000 <= c2 / 1000) by (nonlinear_arith)
        requires c1 <= c2;
}

} // verus!
