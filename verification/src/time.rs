//! Lengths of time.
use vstd::prelude::*;

verus! {

/// A length of time: whole seconds and a fraction in nanoseconds.
#[derive(Debug, Clone, Copy, PartialEq, Eq, Structural)]
pub struct TimeSpan {
    pub secs: u64,
    pub nanos: u32,
}

impl TimeSpan {
    /// The fraction is less than a second.
    pub open spec fn wf(self) -> bool {
        self.nanos < 1_000_000_000
    }

    /// The whole milliseconds in the span.
    pub open spec fn millis(self) -> int {
        self.secs * 1_000 + self.nanos as int / 1_000_000
    }

    /// No time at all.
    pub fn zero() -> (r: TimeSpan)
        ensures
            r.wf(),
            r.secs == 0,
            r.nanos == 0,
    {
        TimeSpan { secs: 0, nanos: 0 }
    }

    /// A span of whole seconds.
    pub fn from_secs(secs: u64) -> (r: TimeSpan)
        ensures
            r.wf(),
            r.secs == secs,
            r.nanos == 0,
    {
        TimeSpan { secs, nanos: 0 }
    }

    /// A span of whole milliseconds.
    pub fn from_millis(millis: u64) -> (r: TimeSpan)
        ensures
            r.wf(),
            r.millis() == millis,
            r.nanos % 1_000_000 == 0,
    {
        TimeSpan { secs: millis / 1_000, nanos: ((millis % 1_000) as u32) * 1_000_000 }
    }

    /// The whole milliseconds in the span, modulo 2^64.
    pub fn as_millis(&self) -> (r: u64)
        ensures
            r == self.millis() % 0x1_0000_0000_0000_0000,
    {
        let whole: u64 = self.secs.wrapping_mul(1_000);
        let part: u64 = (self.nanos / 1_000_000) as u64;
        proof {
            let m: int = 0x1_0000_0000_0000_0000;
            vstd::arithmetic::div_mod::lemma_add_mod_noop(self.secs * 1_000, part as int, m);
            vstd::arithmetic::div_mod::lemma_small_mod(part as nat, m as nat);
        }
        whole.wrapping_add(part)
    }

    /// The span made `secs` seconds longer.
    pub fn plus_secs(&self, secs: u64) -> (r: TimeSpan)
        requires
            self.secs + secs <= u64::MAX,
        ensures
            r.secs == self.secs + secs,
            r.nanos == self.nanos,
    {
        TimeSpan { secs: self.secs + secs, nanos: self.nanos }
    }
}

/// The whole milliseconds of a span are as many as fit into it.
pub proof fn law_milliseconds_fit_into_the_span(t: TimeSpan)
    ensures
        t.millis() * 1_000_000 <= t.secs * 1_000_000_000 + t.nanos,
        t.secs * 1_000_000_000 + t.nanos < (t.millis() + 1) * 1_000_000,
        t.wf() <==> t.nanos <= 999_999_999,
{
}

} // verus!
