//! The traffic monitor's memory: the rate samples of the last minute.

use vstd::prelude::*;

use std::collections::VecDeque;

use crate::utilities::mihomo_api::TrafficInfo;

verus! {

/// How many samples the monitor keeps: one a second for a minute.
pub const MAX_SAMPLES: usize = 60;

/// The traffic rate measured at one moment, in bytes per second.
#[derive(Debug, Clone, Copy, PartialEq, Eq, Structural)]
pub struct TrafficSample {
    pub timestamp: u64,
    pub upload_bps: u64,
    pub download_bps: u64,
}

/// The rates between two readings of the kernel's byte counters: the
/// growth of each counter, held at zero where a counter went back (as
/// after a kernel restart). The first reading has no rate.
pub fn traffic_rates(previous: Option<TrafficInfo>, current: TrafficInfo) -> (r: (u64, u64))
    ensures
        match previous {
            None => r == (0u64, 0u64),
            Some(p) => r.0 == (if current.up >= p.up { (current.up - p.up) as u64 } else { 0u64 })
                && r.1 == (if current.down >= p.down { (current.down - p.down) as u64 } else { 0u64 }),
        },
{
    match previous {
        None => (0, 0),
        Some(p) => (current.up.saturating_sub(p.up), current.down.saturating_sub(p.down)),
    }
}

/// The last `n` elements of `s` (all of them where it is shorter).
pub open spec fn last_n<A>(s: Seq<A>, n: int) -> Seq<A> {
    if s.len() <= n {
        s
    } else {
        s.skip(s.len() - n)
    }
}

/// The samples kept, oldest first.
#[derive(Debug)]
pub struct TrafficMonitor {
    samples: VecDeque<TrafficSample>,
}

impl View for TrafficMonitor {
    type V = Seq<TrafficSample>;

    closed spec fn view(&self) -> Seq<TrafficSample> {
        self.samples@
    }
}

impl TrafficMonitor {
    /// At most `MAX_SAMPLES` samples are kept.
    #[verifier::type_invariant]
    spec fn window_bounded(&self) -> bool {
        self.samples@.len() <= MAX_SAMPLES
    }

    pub fn new() -> (m: TrafficMonitor)
        ensures
            m@ == Seq::<TrafficSample>::empty(),
    {
        TrafficMonitor { samples: VecDeque::new() }
    }

    /// Adds a sample; the oldest one goes where the window is full. The
    /// window never holds more than `MAX_SAMPLES`.
    pub fn record(&mut self, sample: TrafficSample)
        ensures
            final(self)@ == last_n(old(self)@.push(sample), MAX_SAMPLES as int),
            final(self)@.len() <= MAX_SAMPLES,
    {
        proof {
            use_type_invariant(&*self);
        }
        let mut window: VecDeque<TrafficSample> = VecDeque::new();
        std::mem::swap(&mut window, &mut self.samples);
        let ghost before = window@;
        window.push_back(sample);
        if window.len() > MAX_SAMPLES {
            window.pop_front();
        }
        proof {
            let s = before.push(sample);
            if s.len() > MAX_SAMPLES {
                assert(window@ =~= s.skip(s.len() - MAX_SAMPLES));
            } else {
                assert(window@ =~= s);
            }
        }
        self.samples = window;
    }

    /// Records the sample of one reading of the kernel's byte counters (see
    /// `rate_sample`), given the reading before it, where there was one.
    pub fn record_reading(&mut self, previous: Option<TrafficInfo>, current: TrafficInfo, timestamp: u64)
        ensures
            final(self)@ == last_n(old(self)@.push(rate_sample(previous, current, timestamp)), MAX_SAMPLES as int),
    {
        let (upload_bps, download_bps) = traffic_rates(previous, current);
        self.record(TrafficSample { timestamp, upload_bps, download_bps });
    }

    /// The most recent `count` samples, oldest first.
    pub fn get_samples(&self, count: usize) -> (r: Vec<TrafficSample>)
        ensures
            r@ == last_n(self@, count as int),
    {
        let n = self.samples.len();
        let start = n.saturating_sub(count);
        let mut out: Vec<TrafficSample> = Vec::new();
        let mut i: usize = start;
        while i < n
            invariant
                start <= i <= n,
                n == self.samples@.len(),
                start == (if n >= count { n - count } else { 0 }),
                out@ == self.samples@.subrange(start as int, i as int),
            decreases n - i,
        {
            out.push(self.samples[i]);
            assert(out@ =~= self.samples@.subrange(start as int, i + 1));
            i = i + 1;
        }
        assert(out@ =~= last_n(self@, count as int));
        out
    }
}

/// The sample of a reading `current` taken at `timestamp`: the rates since
/// `previous` (see `traffic_rates`).
pub open spec fn rate_sample(previous: Option<TrafficInfo>, current: TrafficInfo, timestamp: u64) -> TrafficSample {
    TrafficSample {
        timestamp,
        upload_bps: match previous {
            None => 0u64,
            Some(p) => if current.up >= p.up { (current.up - p.up) as u64 } else { 0u64 },
        },
        download_bps: match previous {
            None => 0u64,
            Some(p) => if current.down >= p.down { (current.down - p.down) as u64 } else { 0u64 },
        },
    }
}

/// The samples of a run of readings, each with its time: the first has no
/// rate, every later one the rates since the reading before it.
pub open spec fn reading_samples(readings: Seq<(TrafficInfo, u64)>) -> Seq<TrafficSample> {
    Seq::new(
        readings.len(),
        |i: int| rate_sample(if i == 0 { None } else { Some(readings[i - 1].0) }, readings[i].0, readings[i].1),
    )
}

/// The window after a new monitor records the readings one by one with
/// `record_reading`.
pub open spec fn window_after(readings: Seq<(TrafficInfo, u64)>) -> Seq<TrafficSample>
    decreases readings.len(),
{
    if readings.len() == 0 {
        Seq::empty()
    } else {
        let n = readings.len() - 1;
        last_n(
            window_after(readings.drop_last()).push(
                rate_sample(if n == 0 { None } else { Some(readings[n - 1].0) }, readings[n].0, readings[n].1),
            ),
            MAX_SAMPLES as int,
        )
    }
}

/// After any run of readings, the window holds the samples of the last
/// `MAX_SAMPLES` of them, in order, and asking for the last `count` gives
/// the samples of the last `count` readings where `count` is at most
/// `MAX_SAMPLES`.
pub proof fn lemma_window_after_readings(readings: Seq<(TrafficInfo, u64)>, count: int)
    requires
        0 <= count,
    ensures
        window_after(readings) == last_n(reading_samples(readings), MAX_SAMPLES as int),
        last_n(window_after(readings), count) == last_n(
            reading_samples(readings),
            if count <= MAX_SAMPLES { count } else { MAX_SAMPLES as int },
        ),
    decreases readings.len(),
{
    let m = MAX_SAMPLES as int;
    if readings.len() > 0 {
        let init = readings.drop_last();
        lemma_window_after_readings(init, count);
        let n = readings.len() - 1;
        let smp = rate_sample(if n == 0 { None } else { Some(readings[n - 1].0) }, readings[n].0, readings[n].1);
        assert(reading_samples(readings) =~= reading_samples(init).push(smp));
        lemma_window_keeps_newest(window_after(init), smp, reading_samples(init));
    } else {
        assert(reading_samples(readings) =~= Seq::<TrafficSample>::empty());
    }
    let all = reading_samples(readings);
    let w = last_n(all, m);
    if count <= m {
        assert(last_n(w, count) =~= last_n(all, count));
    } else {
        assert(last_n(w, count) =~= w);
    }
}

/// The window never holds more than a minute of samples, and holds the
/// newest ones: after any sequence of recordings it is the last
/// `MAX_SAMPLES` of all samples recorded.
pub proof fn lemma_window_keeps_newest(before: Seq<TrafficSample>, sample: TrafficSample, all: Seq<TrafficSample>)
    requires
        before == last_n(all, MAX_SAMPLES as int),
    ensures
        last_n(before.push(sample), MAX_SAMPLES as int) == last_n(all.push(sample), MAX_SAMPLES as int),
        last_n(before.push(sample), MAX_SAMPLES as int).len() <= MAX_SAMPLES,
{
    let m = MAX_SAMPLES as int;
    if all.len() <= m {
        assert(before == all);
    } else {
        assert(before.len() == m);
        assert(last_n(before.push(sample), m) =~= last_n(all.push(sample), m));
    }
}

} // verus!
