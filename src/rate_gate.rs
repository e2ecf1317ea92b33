use vstd::prelude::*;

verus! {

/// Spaces out calls to a rate-limited service: the earliest time, in
/// milliseconds on a monotonic clock, at which the next call may start.
#[derive(Clone, Copy, Debug, PartialEq, Eq, Structural)]
pub struct RateGate {
    pub next_allowed_ms: u64,
    pub spacing_ms: u64,
}

pub open spec fn max_int(a: int, b: int) -> int {
    if a >= b {
        a
    } else {
        b
    }
}

pub open spec fn saturate(v: int) -> u64 {
    if v > u64::MAX {
        u64::MAX
    } else {
        v as u64
    }
}

impl RateGate {
    /// A gate that lets the first call through at once and each later one no
    /// sooner than `spacing_ms` after the previous one started.
    pub fn new(spacing_ms: u64) -> (r: RateGate)
        ensures
            r.next_allowed_ms == 0,
            r.spacing_ms == spacing_ms,
    {
        RateGate { next_allowed_ms: 0, spacing_ms }
    }

    /// Takes a slot for a call asked for at `now_ms`: returns how long the caller waits
    /// before starting it, and books the next slot after its start.
    pub fn reserve(&mut self, now_ms: u64) -> (wait_ms: u64)
        ensures
            wait_ms == (if old(self).next_allowed_ms > now_ms {
                old(self).next_allowed_ms - now_ms
            } else {
                0
            }),
            final(self).spacing_ms == old(self).spacing_ms,
            final(self).next_allowed_ms == saturate(
                max_int(now_ms as int, old(self).next_allowed_ms as int) + old(self).spacing_ms,
            ),
    {
        let start = if self.next_allowed_ms > now_ms {
            self.next_allowed_ms
        } else {
            now_ms
        };
        let wait_ms = start - now_ms;
        self.next_allowed_ms = if start > u64::MAX - self.spacing_ms {
            u64::MAX
        } else {
            start + self.spacing_ms
        };
        wait_ms
    }
}

/// Two calls given slots one after the other, the second asked for no earlier
/// than the first, start at least the spacing apart (away from the clock's
/// upper end).
pub proof fn lemma_calls_spaced(g: RateGate, now1: u64, now2: u64)
    requires
        now1 <= now2,
        max_int(now1 as int, g.next_allowed_ms as int) + g.spacing_ms <= u64::MAX,
    ensures
        ({
            let start1 = max_int(now1 as int, g.next_allowed_ms as int);
            let g2 = RateGate {
                next_allowed_ms: saturate(start1 + g.spacing_ms),
                spacing_ms: g.spacing_ms,
            };
            let start2 = max_int(now2 as int, g2.next_allowed_ms as int);
            start2 >= start1 + g.spacing_ms
        }),
{
}

} // verus!
