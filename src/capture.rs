//! What the capture stream's callbacks decide: each buffer's peak goes
//! through the detector, and each transition, as well as a pause or a resume
//! of the stream, goes to every consumer.
use vstd::prelude::*;

use crate::amplitude::{chunk_error, frame_peak, peak_of, MalformedBufferError};
use crate::detector::{active_at, initial, step, DetectorConfig, HysteresisDetector};
use crate::event::Event;
use crate::fanout::{delivered, Fanout};
use std::sync::mpsc::Sender;

verus! {

/// The states that a capture stream goes through.
#[derive(Debug, Clone, Copy, PartialEq, Eq, Structural)]
pub enum StreamPhase {
    Error,
    Unconnected,
    Connecting,
    Paused,
    Streaming,
}

/// The stream entered its error state; capture cannot go on.
#[derive(Debug, Clone, Copy, PartialEq, Eq, Structural)]
pub struct StreamFailed;

/// What a change of stream state from `from` to `to` reports: a failure on
/// entering the error state, a falling edge on resuming, a suspension on
/// pausing, and nothing otherwise.
pub open spec fn phase_outcome(from: StreamPhase, to: StreamPhase) -> Result<Option<Event>, StreamFailed> {
    if to == StreamPhase::Error {
        Err(StreamFailed)
    } else if from == StreamPhase::Paused && to == StreamPhase::Streaming {
        Ok(Some(Event::Falling))
    } else if from == StreamPhase::Streaming && to == StreamPhase::Paused {
        Ok(Some(Event::Suspended))
    } else {
        Ok(None)
    }
}

/// Decides what a change of stream state reports.
pub fn phase_event(from: StreamPhase, to: StreamPhase) -> (r: Result<Option<Event>, StreamFailed>)
    ensures
        r == phase_outcome(from, to),
{
    match (from, to) {
        (_, StreamPhase::Error) => Err(StreamFailed),
        (StreamPhase::Paused, StreamPhase::Streaming) => Ok(Some(Event::Falling)),
        (StreamPhase::Streaming, StreamPhase::Paused) => Ok(Some(Event::Suspended)),
        _ => Ok(None),
    }
}

/// Whether `after` is `before` once `event`, if any, was published: every
/// consumer that stays received it after all it had received before, those
/// whose receiving end is gone are removed, and with no event nothing
/// changes.
pub open spec fn published(before: Fanout, after: Fanout, event: Option<Event>) -> bool {
    match event {
        Some(e) => exists|dropped: nat| delivered(before.consumers@, after.consumers@, e, dropped),
        None => after == before,
    }
}

/// A buffer with no samples reads as silence. With a valid threshold it
/// leaves the deadline as it was and never makes the detector rise, as long
/// as the time has not gone back to within a deadline that had passed.
pub proof fn lemma_empty_frame_never_rises(d: HysteresisDetector, data: Seq<u8>, now: u64)
    requires
        d.config.valid(),
        !d.is_active ==> !active_at(d.falloff_deadline, now),
    ensures
        chunk_error(data.len(), 0) is None,
        peak_of(data, 0) == 0,
        step(d, peak_of(data, 0), now).0.falloff_deadline == d.falloff_deadline,
        step(d, peak_of(data, 0), now).1 != Some(Event::Rising),
        step(d, peak_of(data, 0), now).0.is_active ==> d.is_active,
{
}

/// The state that a capture stream's callbacks share.
pub struct Capture {
    pub detector: HysteresisDetector,
    pub fanout: Fanout,
}

impl Capture {
    /// A capture with a fresh detector and the given consumers.
    pub fn new(config: DetectorConfig, consumers: Vec<Sender<Event>>) -> (r: Capture)
        ensures
            r.detector == initial(config),
            r.fanout.consumers@ == consumers@,
    {
        Capture { detector: HysteresisDetector::new(config), fanout: Fanout::new(consumers) }
    }

    /// Processes one buffer, of which the first `chunk_size` bytes hold
    /// samples, captured at time `now`. A malformed buffer changes nothing.
    /// Otherwise its peak goes to the detector, and the transition, if any,
    /// is published and returned.
    pub fn on_frame(&mut self, data: &[u8], chunk_size: u32, now: u64) -> (r: Result<Option<Event>, MalformedBufferError>)
        ensures
            match chunk_error(data@.len(), chunk_size as nat) {
                Some(e) => r == Err::<Option<Event>, MalformedBufferError>(e) && *final(self) == *old(self),
                None => {
                    let (d, e) = step(old(self).detector, peak_of(data@, (chunk_size / 4) as nat), now);
                    &&& r == Ok::<Option<Event>, MalformedBufferError>(e)
                    &&& final(self).detector == d
                    &&& published(old(self).fanout, final(self).fanout, e)
                },
            },
    {
        let peak = match frame_peak(data, chunk_size) {
            Ok(p) => p,
            Err(e) => return Err(e),
        };
        let event = self.detector.on_sample(peak, now);
        if let Some(e) = event {
            let _dropped = self.fanout.publish(e);
        }
        Ok(event)
    }

    /// Handles a change of stream state from `from` to `to`: entering the
    /// error state fails and changes nothing; a pause or a resume is
    /// published and returned. The detector is left as it is.
    pub fn on_state_changed(&mut self, from: StreamPhase, to: StreamPhase) -> (r: Result<Option<Event>, StreamFailed>)
        ensures
            r == phase_outcome(from, to),
            final(self).detector == old(self).detector,
            match r {
                Ok(e) => published(old(self).fanout, final(self).fanout, e),
                Err(_) => *final(self) == *old(self),
            },
    {
        let outcome = phase_event(from, to);
        if let Ok(Some(e)) = outcome {
            let _dropped = self.fanout.publish(e);
        }
        outcome
    }
}

} // verus!
