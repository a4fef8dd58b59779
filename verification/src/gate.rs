//! The admission gate: a bounded-concurrency limiter.
//!
//! Scanning a /24 block schedules 256 per-address units of work; admitting
//! them all at once would exhaust file descriptors and ephemeral ports. The
//! gate admits a unit only while fewer than `cap` are in flight, and keeps
//! an instrumented peak so callers can observe that the cap was never
//! exceeded.

use vstd::prelude::*;

verus! {

/// The default number of probe units admitted concurrently.
pub const DEFAULT_CONCURRENCY_CAP: usize = 32;

/// A counter-based concurrency limiter with an instrumented peak.
pub struct AdmissionGate {
    /// Capacity: the most units ever admitted at once.
    pub cap: usize,
    /// Units currently admitted and not yet released.
    pub in_flight: usize,
    /// The highest number of units ever in flight at the same time.
    pub peak: usize,
}

impl AdmissionGate {
    /// A well-formed limiter never holds more in flight than its capacity,
    /// and its peak never exceeds the capacity either.
    pub open spec fn wf(self) -> bool {
        self.cap >= 1 && self.in_flight <= self.cap && self.peak <= self.cap
    }

    /// A fresh gate with nothing in flight.
    pub fn new(cap: usize) -> (r: AdmissionGate)
        requires
            cap >= 1,
        ensures
            r.wf(),
            r.cap == cap,
            r.in_flight == 0,
            r.peak == 0,
    {
        AdmissionGate { cap, in_flight: 0, peak: 0 }
    }

    /// Admits one unit of work when capacity allows. Admission succeeds
    /// exactly when there is room; the peak records the new
    /// high-water mark.
    pub fn try_acquire(&mut self) -> (admitted: bool)
        requires
            old(self).wf(),
        ensures
            final(self).wf(),
            final(self).cap == old(self).cap,
            admitted == (old(self).in_flight < old(self).cap),
            admitted ==> final(self).in_flight == old(self).in_flight + 1,
            admitted ==> final(self).peak == if old(self).in_flight + 1 > old(self).peak {
                old(self).in_flight + 1
            } else {
                old(self).peak as int
            },
            !admitted ==> *final(self) == *old(self),
    {
        if self.in_flight < self.cap {
            self.in_flight = self.in_flight + 1;
            if self.in_flight > self.peak {
                self.peak = self.in_flight;
            }
            true
        } else {
            false
        }
    }

    /// Releases one admitted unit of work.
    pub fn release(&mut self)
        requires
            old(self).wf(),
            old(self).in_flight >= 1,
        ensures
            final(self).wf(),
            final(self).cap == old(self).cap,
            final(self).in_flight == old(self).in_flight - 1,
            final(self).peak == old(self).peak,
    {
        self.in_flight = self.in_flight - 1;
    }

    /// How many units are in flight now.
    pub fn current(&self) -> (r: usize)
        ensures
            r == self.in_flight,
    {
        self.in_flight
    }

    /// The high-water mark of concurrently admitted units.
    pub fn peak_in_flight(&self) -> (r: usize)
        ensures
            r == self.peak,
    {
        self.peak
    }
}

/// The concurrency-cap law: however a well-formed gate was driven, the
/// peak number of concurrently admitted units never exceeds its capacity.
pub proof fn lemma_peak_bounded(g: AdmissionGate)
    requires
        g.wf(),
    ensures
        g.peak <= g.cap,
{
}

} // verus!
