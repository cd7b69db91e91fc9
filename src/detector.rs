//! Threshold detector with a hold time.
//!
//! Every sample whose peak exceeds the threshold moves the falloff deadline
//! to `now + hold_time`; the detector is active while the time of the latest
//! sample is not past that deadline. One event is reported per change of
//! activity and none otherwise. Times are nanoseconds on a monotonic clock.
use vstd::prelude::*;

use crate::amplitude::{f32_gt, gt_bits, is_nan_magnitude, is_negative, magnitude};
use crate::event::Event;

verus! {

/// Fixed settings of a detector.
#[derive(Debug, Clone, Copy, PartialEq, Eq, Structural)]
pub struct DetectorConfig {
    /// Linear amplitude, as a binary32 bit pattern, that a peak must exceed.
    pub threshold: u32,
    /// How long, in nanoseconds, activity lasts after the last loud sample.
    pub hold_time: u64,
}

/// Nanoseconds in a millisecond.
pub const NANOS_PER_MILLI: u64 = 1_000_000;

impl DetectorConfig {
    /// Whether the threshold is a linear amplitude: neither negative nor
    /// NaN, as any power of ten is.
    pub open spec fn valid(self) -> bool {
        !is_negative(self.threshold) && !is_nan_magnitude(magnitude(self.threshold))
    }

    /// A configuration whose hold time is given in milliseconds; `None` when
    /// that many nanoseconds do not fit in a `u64`.
    pub fn from_millis(threshold: u32, hold_time_ms: u64) -> (r: Option<DetectorConfig>)
        ensures
            hold_time_ms * NANOS_PER_MILLI <= u64::MAX ==> r == Some(
                DetectorConfig { threshold, hold_time: (hold_time_ms * NANOS_PER_MILLI) as u64 },
            ),
            hold_time_ms * NANOS_PER_MILLI > u64::MAX ==> r == None::<DetectorConfig>,
    {
        match hold_time_ms.checked_mul(NANOS_PER_MILLI) {
            Some(hold_time) => Some(DetectorConfig { threshold, hold_time }),
            None => None,
        }
    }
}

/// State of a detector between two samples.
#[derive(Debug, Clone, Copy, PartialEq, Eq, Structural)]
pub struct HysteresisDetector {
    pub config: DetectorConfig,
    /// Whether the last reported transition was a rising one.
    pub is_active: bool,
    /// Time up to which the detector stays active; `None` until the first
    /// loud sample.
    pub falloff_deadline: Option<u128>,
}

/// A detector that has seen no sample yet.
pub open spec fn initial(config: DetectorConfig) -> HysteresisDetector {
    HysteresisDetector { config, is_active: false, falloff_deadline: None }
}

/// Whether a deadline covers the time `now`.
pub open spec fn active_at(deadline: Option<u128>, now: u64) -> bool {
    match deadline {
        Some(d) => now <= d,
        None => false,
    }
}

/// The event for going from activity `was` to activity `becomes`.
pub open spec fn transition(was: bool, becomes: bool) -> Option<Event> {
    if !was && becomes {
        Some(Event::Rising)
    } else if was && !becomes {
        Some(Event::Falling)
    } else {
        None
    }
}

/// The deadline after a sample of peak `peak` at time `now`.
pub open spec fn next_deadline(d: HysteresisDetector, peak: u32, now: u64) -> Option<u128> {
    if f32_gt(peak, d.config.threshold) {
        Some((now + d.config.hold_time) as u128)
    } else {
        d.falloff_deadline
    }
}

/// The detector and the event after one sample of peak `peak` at time `now`.
pub open spec fn step(d: HysteresisDetector, peak: u32, now: u64) -> (HysteresisDetector, Option<Event>) {
    let deadline = next_deadline(d, peak, now);
    let active = active_at(deadline, now);
    (
        HysteresisDetector { config: d.config, is_active: active, falloff_deadline: deadline },
        transition(d.is_active, active),
    )
}

/// The detector after a stream of `(peak, time)` samples.
pub open spec fn after(d: HysteresisDetector, samples: Seq<(u32, u64)>) -> HysteresisDetector
    decreases samples.len(),
{
    if samples.len() == 0 {
        d
    } else {
        let prev = after(d, samples.drop_last());
        step(prev, samples.last().0, samples.last().1).0
    }
}

/// The events reported, in order, over a stream of `(peak, time)` samples.
pub open spec fn emitted(d: HysteresisDetector, samples: Seq<(u32, u64)>) -> Seq<Event>
    decreases samples.len(),
{
    if samples.len() == 0 {
        Seq::empty()
    } else {
        let earlier = emitted(d, samples.drop_last());
        let prev = after(d, samples.drop_last());
        match step(prev, samples.last().0, samples.last().1).1 {
            Some(e) => earlier.push(e),
            None => earlier,
        }
    }
}

/// Whether no sample of the stream exceeds `threshold`.
pub open spec fn all_quiet(samples: Seq<(u32, u64)>, threshold: u32) -> bool {
    forall|i: int| 0 <= i < samples.len() ==> !f32_gt(#[trigger] samples[i].0, threshold)
}

/// Whether every sample of the stream exceeds `threshold`.
pub open spec fn all_loud(samples: Seq<(u32, u64)>, threshold: u32) -> bool {
    forall|i: int| 0 <= i < samples.len() ==> f32_gt(#[trigger] samples[i].0, threshold)
}

/// Whether the times of the stream never decrease and none is before `start`.
pub open spec fn in_time_order(samples: Seq<(u32, u64)>, start: u64) -> bool {
    &&& forall|i: int| 0 <= i < samples.len() ==> start <= #[trigger] samples[i].1
    &&& forall|i: int, j: int|
        0 <= i <= j < samples.len() ==> #[trigger] samples[i].1 <= #[trigger] samples[j].1
}

/// Feeding two streams one after the other is feeding their concatenation.
pub proof fn lemma_feed_concat(d: HysteresisDetector, a: Seq<(u32, u64)>, b: Seq<(u32, u64)>)
    ensures
        after(d, a + b) == after(after(d, a), b),
        emitted(d, a + b) == emitted(d, a) + emitted(after(d, a), b),
    decreases b.len(),
{
    if b.len() == 0 {
        assert(a + b =~= a);
        assert(emitted(d, a) + emitted(after(d, a), b) =~= emitted(d, a));
    } else {
        lemma_feed_concat(d, a, b.drop_last());
        assert((a + b).drop_last() =~= a + b.drop_last());
        assert((a + b).last() == b.last());
        let e = step(after(d, a + b.drop_last()), b.last().0, b.last().1).1;
        if let Some(x) = e {
            assert(emitted(d, a + b) =~= emitted(d, a) + emitted(after(d, a), b));
        }
    }
}

/// The configuration never changes.
pub proof fn lemma_config_kept(d: HysteresisDetector, s: Seq<(u32, u64)>)
    ensures
        after(d, s).config == d.config,
    decreases s.len(),
{
    if s.len() > 0 {
        lemma_config_kept(d, s.drop_last());
    }
}

/// Quiet samples after an active detector's deadline was set keep that
/// deadline; the detector is active exactly while the latest time is not
/// past it, and with times in order it reports one falling edge, when the
/// first sample past the deadline comes.
proof fn lemma_quiet_run(d: HysteresisDetector, deadline: u128, q: Seq<(u32, u64)>)
    requires
        d.is_active,
        d.falloff_deadline == Some(deadline),
        all_quiet(q, d.config.threshold),
        in_time_order(q, 0),
    ensures
        after(d, q).config == d.config,
        after(d, q).falloff_deadline == Some(deadline),
        after(d, q).is_active == (q.len() == 0 || q.last().1 <= deadline),
        emitted(d, q) == (if q.len() > 0 && q.last().1 > deadline {
            seq![Event::Falling]
        } else {
            Seq::<Event>::empty()
        }),
    decreases q.len(),
{
    if q.len() > 0 {
        let p = q.drop_last();
        assert(all_quiet(p, d.config.threshold));
        assert(in_time_order(p, 0));
        lemma_quiet_run(d, deadline, p);
        assert(!f32_gt(q.last().0, d.config.threshold));
        if p.len() > 0 {
            assert(p.last().1 <= q.last().1);
        }
    }
}

/// A peak equal to the threshold does not make an inactive detector rise;
/// the next larger binary32 value does.
pub proof fn lemma_threshold_boundary(d: HysteresisDetector, now: u64)
    requires
        !d.is_active,
        !active_at(d.falloff_deadline, now),
        d.config.threshold < 0x7f80_0000,
    ensures
        step(d, d.config.threshold, now).1 == None::<Event>,
        step(d, (d.config.threshold + 1) as u32, now).1 == Some(Event::Rising),
{
}

/// After one loud sample at `t0` and then quiet ones, the detector is active
/// at each sample whose time is at most `t0 + hold_time` and inactive at the
/// others; with times in order it reports one rising edge and then a falling
/// edge at the first sample past `t0 + hold_time`.
pub proof fn lemma_hold_time_decay(
    config: DetectorConfig,
    loud: u32,
    t0: u64,
    quiet: Seq<(u32, u64)>,
)
    requires
        f32_gt(loud, config.threshold),
        all_quiet(quiet, config.threshold),
        in_time_order(quiet, t0),
    ensures
        forall|k: int|
            1 <= k <= quiet.len() ==> #[trigger] after(
                initial(config),
                seq![(loud, t0)] + quiet.take(k),
            ).is_active == (quiet[k - 1].1 <= t0 + config.hold_time),
        emitted(initial(config), seq![(loud, t0)] + quiet) == (if quiet.len() > 0
            && quiet.last().1 > t0 + config.hold_time {
            seq![Event::Rising, Event::Falling]
        } else {
            seq![Event::Rising]
        }),
{
    let d = initial(config);
    let first = seq![(loud, t0)];
    let deadline = (t0 + config.hold_time) as u128;
    assert(first.drop_last() =~= Seq::<(u32, u64)>::empty());
    assert(after(d, first.drop_last()) == d);
    assert(emitted(d, first.drop_last()) == Seq::<Event>::empty());
    assert(first.last() == (loud, t0));
    let d1 = after(d, first);
    assert(d1.falloff_deadline == Some(deadline));
    assert(emitted(d, first) =~= seq![Event::Rising]);
    assert forall|k: int| 1 <= k <= quiet.len() implies #[trigger] after(d, first + quiet.take(k)).is_active
        == (quiet[k - 1].1 <= t0 + config.hold_time) by {
        let q = quiet.take(k);
        assert(all_quiet(q, config.threshold));
        assert(in_time_order(q, 0));
        lemma_feed_concat(d, first, q);
        lemma_quiet_run(d1, deadline, q);
        assert(q.last() == quiet[k - 1]);
    }
    assert(in_time_order(quiet, 0));
    lemma_feed_concat(d, first, quiet);
    lemma_quiet_run(d1, deadline, quiet);
    if quiet.len() > 0 && quiet.last().1 > t0 + config.hold_time {
        assert(seq![Event::Rising] + seq![Event::Falling] =~= seq![Event::Rising, Event::Falling]);
    } else {
        assert(seq![Event::Rising] + Seq::<Event>::empty() =~= seq![Event::Rising]);
    }
}

/// A second loud sample at `t1` moves the end of activity to
/// `t1 + hold_time`: after loud samples at `t0` and `t1` and then quiet ones,
/// the detector is active at each quiet sample whose time is at most
/// `t1 + hold_time`, and with times in order it reports one rising edge and
/// then a falling edge at the first sample past `t1 + hold_time`.
pub proof fn lemma_hold_time_refresh(
    config: DetectorConfig,
    loud0: u32,
    t0: u64,
    loud1: u32,
    t1: u64,
    quiet: Seq<(u32, u64)>,
)
    requires
        f32_gt(loud0, config.threshold),
        f32_gt(loud1, config.threshold),
        t0 <= t1,
        all_quiet(quiet, config.threshold),
        in_time_order(quiet, t1),
    ensures
        forall|k: int|
            1 <= k <= quiet.len() ==> after(
                initial(config),
                seq![(loud0, t0), (loud1, t1)] + #[trigger] quiet.take(k),
            ).is_active == (quiet[k - 1].1 <= t1 + config.hold_time),
        emitted(initial(config), seq![(loud0, t0), (loud1, t1)] + quiet) == (if quiet.len() > 0
            && quiet.last().1 > t1 + config.hold_time {
            seq![Event::Rising, Event::Falling]
        } else {
            seq![Event::Rising]
        }),
{
    let d = initial(config);
    let first = seq![(loud0, t0)];
    let both = seq![(loud0, t0), (loud1, t1)];
    let deadline = (t1 + config.hold_time) as u128;
    assert(first.drop_last() =~= Seq::<(u32, u64)>::empty());
    assert(after(d, first.drop_last()) == d);
    assert(emitted(d, first.drop_last()) == Seq::<Event>::empty());
    assert(first.last() == (loud0, t0));
    assert(both.drop_last() =~= first);
    assert(both.last() == (loud1, t1));
    let d1 = after(d, both);
    assert(after(d, first).is_active);
    assert(d1.falloff_deadline == Some(deadline));
    assert(d1.is_active);
    assert(emitted(d, first) =~= seq![Event::Rising]);
    assert(step(after(d, first), loud1, t1).1 == None::<Event>);
    assert(emitted(d, both) =~= seq![Event::Rising]);
    assert forall|k: int| 1 <= k <= quiet.len() implies after(d, both + #[trigger] quiet.take(k)).is_active
        == (quiet[k - 1].1 <= t1 + config.hold_time) by {
        let q = quiet.take(k);
        assert(all_quiet(q, config.threshold));
        assert(in_time_order(q, 0));
        lemma_feed_concat(d, both, q);
        lemma_quiet_run(d1, deadline, q);
        assert(q.last() == quiet[k - 1]);
    }
    assert(in_time_order(quiet, 0));
    lemma_feed_concat(d, both, quiet);
    lemma_quiet_run(d1, deadline, quiet);
    if quiet.len() > 0 && quiet.last().1 > t1 + config.hold_time {
        assert(seq![Event::Rising] + seq![Event::Falling] =~= seq![Event::Rising, Event::Falling]);
    } else {
        assert(seq![Event::Rising] + Seq::<Event>::empty() =~= seq![Event::Rising]);
    }
}

/// Loud samples fed to an active detector report no event, and it stays
/// active.
pub proof fn lemma_no_duplicate_events(d: HysteresisDetector, loud: Seq<(u32, u64)>)
    requires
        d.is_active,
        all_loud(loud, d.config.threshold),
    ensures
        emitted(d, loud) == Seq::<Event>::empty(),
        after(d, loud).is_active,
    decreases loud.len(),
{
    if loud.len() > 0 {
        let p = loud.drop_last();
        assert(all_loud(p, d.config.threshold));
        lemma_no_duplicate_events(d, p);
        lemma_config_kept(d, p);
        assert(f32_gt(loud.last().0, d.config.threshold));
    }
}

/// A fresh detector with a valid threshold, fed only samples of peak zero
/// (the peak of an empty buffer), never becomes active and reports nothing.
pub proof fn lemma_silence_never_rises(config: DetectorConfig, silence: Seq<(u32, u64)>)
    requires
        config.valid(),
        forall|i: int| 0 <= i < silence.len() ==> (#[trigger] silence[i]).0 == 0,
    ensures
        emitted(initial(config), silence) == Seq::<Event>::empty(),
        after(initial(config), silence) == initial(config),
    decreases silence.len(),
{
    if silence.len() > 0 {
        let p = silence.drop_last();
        lemma_silence_never_rises(config, p);
        assert(silence.last().0 == 0);
        assert(!f32_gt(0, config.threshold));
    }
}

impl HysteresisDetector {
    /// A detector that is inactive until its first loud sample.
    pub fn new(config: DetectorConfig) -> (r: HysteresisDetector)
        ensures
            r == initial(config),
    {
        HysteresisDetector { config, is_active: false, falloff_deadline: None }
    }

    /// Takes the peak of one buffer, captured at time `now`, and returns the
    /// transition it causes, if any.
    pub fn on_sample(&mut self, peak: u32, now: u64) -> (r: Option<Event>)
        ensures
            (*final(self), r) == step(*old(self), peak, now),
    {
        if gt_bits(peak, self.config.threshold) {
            self.falloff_deadline = Some(now as u128 + self.config.hold_time as u128);
        }
        let should_be_active = match self.falloff_deadline {
            Some(d) => now as u128 <= d,
            None => false,
        };
        if !self.is_active && should_be_active {
            self.is_active = true;
            Some(Event::Rising)
        } else if self.is_active && !should_be_active {
            self.is_active = false;
            Some(Event::Falling)
        } else {
            None
        }
    }
}

} // verus!
