use micclick::amplitude::MalformedBufferError;
use micclick::capture::{phase_event, Capture, StreamFailed, StreamPhase};
use micclick::detector::DetectorConfig;
use micclick::event::Event;
use micclick::fanout::Fanout;
use std::sync::mpsc;

const MS: u64 = 1_000_000;

fn bytes_of(samples: &[f32]) -> Vec<u8> {
    let mut out = Vec::new();
    for s in samples {
        out.extend_from_slice(&s.to_le_bytes());
    }
    out
}

#[test]
fn fanout_ordering() {
    let (s1, r1) = mpsc::channel();
    let (s2, r2) = mpsc::channel();
    let mut f = Fanout::new(vec![s1, s2]);
    for e in [Event::Rising, Event::Falling, Event::Rising] {
        assert_eq!(f.publish(e), 0);
    }
    for r in [r1, r2] {
        let got: Vec<Event> = r.try_iter().collect();
        assert_eq!(got, vec![Event::Rising, Event::Falling, Event::Rising]);
    }
}

#[test]
fn closed_consumer_is_dropped() {
    let (s1, r1) = mpsc::channel();
    let (s2, r2) = mpsc::channel::<Event>();
    let (s3, r3) = mpsc::channel();
    drop(r2);
    let mut f = Fanout::new(vec![s1, s2, s3]);
    assert_eq!(f.len(), 3);
    assert_eq!(f.publish(Event::Rising), 1);
    assert_eq!(f.len(), 2);
    assert_eq!(f.publish(Event::Falling), 0);
    for r in [r1, r3] {
        let got: Vec<Event> = r.try_iter().collect();
        assert_eq!(got, vec![Event::Rising, Event::Falling]);
    }
}

#[test]
fn minus_sixty_db_scenario() {
    let threshold = 10f32.powf(-60.0 / 20.0);
    assert!((threshold - 0.001).abs() < 1e-6);
    let config = DetectorConfig::from_millis(threshold.to_bits(), 750).unwrap();
    let (s, r) = mpsc::channel();
    let mut c = Capture::new(config, vec![s]);
    let loud = bytes_of(&[0.01, -0.002]);
    let quiet = bytes_of(&[0.0, 0.0]);
    assert_eq!(c.on_frame(&loud, 8, 0), Ok(Some(Event::Rising)));
    for t in [10, 200, 500, 750] {
        assert_eq!(c.on_frame(&quiet, 8, t * MS), Ok(None));
    }
    assert_eq!(c.on_frame(&quiet, 8, 760 * MS), Ok(Some(Event::Falling)));
    assert_eq!(c.on_frame(&quiet, 8, 800 * MS), Ok(None));
    let got: Vec<Event> = r.try_iter().collect();
    assert_eq!(got, vec![Event::Rising, Event::Falling]);
}

#[test]
fn empty_frame_never_rises() {
    let config = DetectorConfig::from_millis(0.001f32.to_bits(), 750).unwrap();
    let (s, r) = mpsc::channel();
    let mut c = Capture::new(config, vec![s]);
    for t in 0..20u64 {
        assert_eq!(c.on_frame(&[], 0, t * MS), Ok(None));
    }
    assert!(!c.detector.is_active);
    assert!(r.try_recv().is_err());
}

#[test]
fn malformed_frame_changes_nothing() {
    let config = DetectorConfig::from_millis(0.001f32.to_bits(), 750).unwrap();
    let (s, r) = mpsc::channel();
    let mut c = Capture::new(config, vec![s]);
    let loud = bytes_of(&[0.5]);
    assert_eq!(c.on_frame(&loud, 3, 0), Err(MalformedBufferError::PartialSample));
    assert_eq!(c.on_frame(&loud, 8, 0), Err(MalformedBufferError::ChunkPastEnd));
    assert!(!c.detector.is_active);
    assert_eq!(c.detector.falloff_deadline, None);
    assert!(r.try_recv().is_err());
}

#[test]
fn stream_phase_events() {
    assert_eq!(phase_event(StreamPhase::Paused, StreamPhase::Streaming), Ok(Some(Event::Falling)));
    assert_eq!(phase_event(StreamPhase::Streaming, StreamPhase::Paused), Ok(Some(Event::Suspended)));
    assert_eq!(phase_event(StreamPhase::Streaming, StreamPhase::Error), Err(StreamFailed));
    assert_eq!(phase_event(StreamPhase::Connecting, StreamPhase::Error), Err(StreamFailed));
    assert_eq!(phase_event(StreamPhase::Connecting, StreamPhase::Paused), Ok(None));
    assert_eq!(phase_event(StreamPhase::Unconnected, StreamPhase::Connecting), Ok(None));
    assert_eq!(phase_event(StreamPhase::Streaming, StreamPhase::Unconnected), Ok(None));
}

#[test]
fn pause_and_resume_are_published() {
    let config = DetectorConfig::from_millis(0.001f32.to_bits(), 750).unwrap();
    let (s, r) = mpsc::channel();
    let mut c = Capture::new(config, vec![s]);
    assert_eq!(c.on_state_changed(StreamPhase::Streaming, StreamPhase::Paused), Ok(Some(Event::Suspended)));
    assert_eq!(c.on_state_changed(StreamPhase::Paused, StreamPhase::Streaming), Ok(Some(Event::Falling)));
    assert_eq!(c.on_state_changed(StreamPhase::Connecting, StreamPhase::Paused), Ok(None));
    assert_eq!(c.on_state_changed(StreamPhase::Streaming, StreamPhase::Error), Err(StreamFailed));
    let got: Vec<Event> = r.try_iter().collect();
    assert_eq!(got, vec![Event::Suspended, Event::Falling]);
}

#[test]
fn settle_keeps_or_removes() {
    let (s1, r1) = mpsc::channel();
    let (s2, _r2) = mpsc::channel();
    let (s3, r3) = mpsc::channel();
    let mut f = Fanout::new(vec![s1, s2, s3]);
    assert_eq!(f.settle(0, true), 1);
    assert_eq!(f.len(), 3);
    assert_eq!(f.settle(1, false), 1);
    assert_eq!(f.len(), 2);
    assert_eq!(f.publish(Event::Rising), 0);
    assert_eq!(r1.try_recv(), Ok(Event::Rising));
    assert_eq!(r3.try_recv(), Ok(Event::Rising));
}
