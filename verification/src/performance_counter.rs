use vstd::prelude::*;
use vstd::arithmetic::div_mod::lemma_div_is_ordered;

verus! {

/// A monotonic clock reading; opaque here, produced and consumed only
/// through the trusted wrappers below.
#[verifier::external_type_specification]
#[verifier::external_body]
pub struct ExInstant(std::time::Instant);

/// Relies on Clone for std::time::Instant, a Copy type: the clone is the
/// same instant.
pub assume_specification[ <std::time::Instant as Clone>::clone ](
    instant: &std::time::Instant,
) -> (r: std::time::Instant)
    ensures
        r == *instant,
;

/// Relies on std::time::Instant::now: a reading of the monotonic clock.
/// Nothing is promised of the value: it depends on when the call runs.
#[verifier::external_body]
fn instant_now() -> std::time::Instant {
    std::time::Instant::now()
}

/// Relies on std::time::Instant::elapsed: the time since `earlier`, as whole
/// nanoseconds. Nothing is promised of the value: it depends on when the
/// call runs.
#[verifier::external_body]
fn nanos_since(earlier: &std::time::Instant) -> u128 {
    earlier.elapsed().as_nanos()
}

/// Relies on std::time::Instant::checked_sub: the instant `nanos`
/// nanoseconds before `instant`, or None when the clock cannot represent a
/// point that far back.
#[verifier::external_body]
fn instant_earlier_by(instant: &std::time::Instant, nanos: u64) -> Option<std::time::Instant> {
    instant.checked_sub(std::time::Duration::from_nanos(nanos))
}

/// The total of a sequence of durations, each in nanoseconds.
pub open spec fn sum_nanos(s: Seq<u64>) -> int
    decreases s.len(),
{
    if s.len() == 0 {
        0
    } else {
        sum_nanos(s.drop_last()) + s.last()
    }
}

proof fn lemma_sum_nanos_bounds(s: Seq<u64>)
    ensures
        0 <= sum_nanos(s) <= s.len() * u64::MAX,
    decreases s.len(),
{
    if s.len() > 0 {
        lemma_sum_nanos_bounds(s.drop_last());
    }
}

/// Records a series of durations, in nanoseconds, and summarizes them.
#[derive(Debug, Clone)]
pub struct PerformanceCounter {
    times: Vec<u64>,
    recording_start: std::time::Instant,
    last_tick: std::time::Instant,
}

/// Summary statistics over the durations a counter has recorded.
#[derive(Debug, Clone, Copy)]
pub struct PerformanceReport {
    /// The mean of the recorded durations, in nanoseconds, rounded down.
    pub mean: u64,
    /// The largest recorded duration, in nanoseconds.
    pub slowest: u64,
    /// The smallest recorded duration, in nanoseconds.
    pub fastest: u64,
    /// When the first recorded duration began.
    pub start: std::time::Instant,
    /// When the report was made.
    pub end: std::time::Instant,
}

impl PerformanceCounter {
    /// The durations recorded so far, in nanoseconds, oldest first.
    pub closed spec fn recorded(&self) -> Seq<u64> {
        self.times@
    }

    /// Creates a counter with nothing recorded.
    pub fn new() -> (r: Self)
        ensures
            r.recorded() == Seq::<u64>::empty(),
    {
        let now = instant_now();
        PerformanceCounter { times: Vec::new(), recording_start: now, last_tick: now }
    }

    /// Records the time since the previous tick (or since the counter was
    /// created) as one sample, saturating at `u64::MAX` nanoseconds.
    pub fn tick(&mut self)
        ensures
            final(self).recorded().len() == old(self).recorded().len() + 1,
            final(self).recorded().drop_last() == old(self).recorded(),
    {
        let elapsed = nanos_since(&self.last_tick);
        let sample: u64 = if elapsed > u64::MAX as u128 {
            u64::MAX
        } else {
            elapsed as u64
        };
        self.push_time(sample);
        self.last_tick = instant_now();
        proof {
            assert(self.recorded().drop_last() =~= old(self).recorded());
        }
    }

    /// Records one sample of `nanos` nanoseconds. The first sample also
    /// anchors the recording start to that long before now.
    pub fn push_time(&mut self, nanos: u64)
        ensures
            final(self).recorded() == old(self).recorded().push(nanos),
    {
        if self.times.is_empty() {
            let now = instant_now();
            self.recording_start = match instant_earlier_by(&now, nanos) {
                Some(earlier) => earlier,
                None => now,
            };
        }
        self.times.push(nanos);
    }

    /// Summarizes the recorded samples: `None` when nothing was recorded,
    /// otherwise the mean (rounded down), the largest and the smallest
    /// sample, and the wall-clock span of the recording.
    pub fn report(&self) -> (r: Option<PerformanceReport>)
        ensures
            r is Some <==> self.recorded().len() > 0,
            match r {
                Some(rep) => {
                    &&& rep.mean == sum_nanos(self.recorded()) / (self.recorded().len() as int)
                    &&& self.recorded().contains(rep.slowest)
                    &&& forall|i: int|
                        0 <= i < self.recorded().len() ==> self.recorded()[i] <= rep.slowest
                    &&& self.recorded().contains(rep.fastest)
                    &&& forall|i: int|
                        0 <= i < self.recorded().len() ==> rep.fastest <= self.recorded()[i]
                },
                None => true,
            },
    {
        let len = self.times.len();
        if len == 0 {
            return None;
        }

        let mut sum: u128 = 0;
        let mut slowest: u64 = 0;
        let mut fastest: u64 = u64::MAX;
        let mut i: usize = 0;
        while i < len
            invariant
                len == self.recorded().len(),
                i <= len,
                sum == sum_nanos(self.recorded().take(i as int)),
                forall|j: int| 0 <= j < i ==> self.recorded()[j] <= slowest,
                forall|j: int| 0 <= j < i ==> fastest <= self.recorded()[j],
                i > 0 ==> exists|j: int| 0 <= j < i && #[trigger] self.recorded()[j] == slowest,
                i > 0 ==> exists|j: int| 0 <= j < i && #[trigger] self.recorded()[j] == fastest,
                i == 0 ==> slowest == 0 && fastest == u64::MAX,
            decreases len - i,
        {
            let sample = self.times[i];
            proof {
                lemma_sum_nanos_bounds(self.recorded().take(i as int));
                assert(self.recorded().take(i as int).len() * u64::MAX
                    < u128::MAX - u64::MAX) by (nonlinear_arith)
                    requires
                        self.recorded().take(i as int).len() <= usize::MAX,
                ;
            }
            sum = sum + sample as u128;
            if i == 0 {
                slowest = sample;
                fastest = sample;
            } else {
                if sample > slowest {
                    slowest = sample;
                }
                if sample < fastest {
                    fastest = sample;
                }
            }
            i = i + 1;
            proof {
                assert(self.recorded().take(i as int).drop_last()
                    =~= self.recorded().take(i - 1));
            }
        }

        proof {
            assert(self.recorded().take(len as int) =~= self.recorded());
            assert(self.recorded().contains(slowest)) by {
                let j = choose|j: int|
                    0 <= j < len && #[trigger] self.recorded()[j] == slowest;
                assert(self.recorded()[j] == slowest);
            }
            assert(self.recorded().contains(fastest)) by {
                let j = choose|j: int|
                    0 <= j < len && #[trigger] self.recorded()[j] == fastest;
                assert(self.recorded()[j] == fastest);
            }
            lemma_sum_nanos_bounds(self.recorded());
            assert((self.recorded().len() * u64::MAX) / (len as int) == u64::MAX)
                by (nonlinear_arith)
                requires
                    len > 0,
                    len == self.recorded().len(),
            ;
            lemma_div_is_ordered(
                sum_nanos(self.recorded()),
                self.recorded().len() * u64::MAX,
                len as int,
            );
        }
        let mean = (sum / (len as u128)) as u64;

        Some(PerformanceReport {
            mean,
            slowest,
            fastest,
            start: self.recording_start,
            end: instant_now(),
        })
    }

    /// Reports on the recorded samples as `report` does, then clears them.
    pub fn flush(&mut self) -> (r: Option<PerformanceReport>)
        ensures
            final(self).recorded() == Seq::<u64>::empty(),
            r is Some <==> old(self).recorded().len() > 0,
            match r {
                Some(rep) => {
                    &&& rep.mean == sum_nanos(old(self).recorded())
                        / (old(self).recorded().len() as int)
                    &&& old(self).recorded().contains(rep.slowest)
                    &&& forall|i: int|
                        0 <= i < old(self).recorded().len()
                            ==> old(self).recorded()[i] <= rep.slowest
                    &&& old(self).recorded().contains(rep.fastest)
                    &&& forall|i: int|
                        0 <= i < old(self).recorded().len()
                            ==> rep.fastest <= old(self).recorded()[i]
                },
                None => true,
            },
    {
        let report = self.report();
        self.times.clear();
        report
    }
}

impl Default for PerformanceCounter {
    /// A counter with nothing recorded.
    fn default() -> (r: Self)
        ensures
            r.recorded() == Seq::<u64>::empty(),
    {
        PerformanceCounter::new()
    }
}

} // verus!
