use micclick::detector::{DetectorConfig, HysteresisDetector};
use micclick::event::Event;

const MS: u64 = 1_000_000;

fn config() -> DetectorConfig {
    DetectorConfig { threshold: 0.001f32.to_bits(), hold_time: 750 * MS }
}

#[test]
fn threshold_boundary() {
    let mut d = HysteresisDetector::new(config());
    assert_eq!(d.on_sample(0.001f32.to_bits(), 0), None);
    assert!(!d.is_active);
    let above = f32::from_bits(0.001f32.to_bits() + 1);
    assert!(above > 0.001);
    assert_eq!(d.on_sample(above.to_bits(), MS), Some(Event::Rising));
    assert!(d.is_active);
}

#[test]
fn hold_time_decay() {
    let mut d = HysteresisDetector::new(config());
    assert_eq!(d.on_sample(0.5f32.to_bits(), 0), Some(Event::Rising));
    for t in [1, 100, 400, 749, 750] {
        assert_eq!(d.on_sample(0, t * MS), None);
        assert!(d.is_active);
    }
    assert_eq!(d.on_sample(0, 750 * MS + 1), Some(Event::Falling));
    assert!(!d.is_active);
    assert_eq!(d.on_sample(0, 2000 * MS), None);
    assert!(!d.is_active);
}

#[test]
fn hold_time_refresh() {
    let mut d = HysteresisDetector::new(config());
    assert_eq!(d.on_sample(0.5f32.to_bits(), 0), Some(Event::Rising));
    assert_eq!(d.on_sample(0.5f32.to_bits(), 375 * MS), None);
    assert_eq!(d.falloff_deadline, Some((1125 * MS) as u128));
    assert_eq!(d.on_sample(0, 751 * MS), None);
    assert_eq!(d.on_sample(0, 1125 * MS), None);
    assert!(d.is_active);
    assert_eq!(d.on_sample(0, 1125 * MS + 1), Some(Event::Falling));
}

#[test]
fn no_duplicate_events() {
    let mut d = HysteresisDetector::new(config());
    assert_eq!(d.on_sample(0.5f32.to_bits(), 0), Some(Event::Rising));
    for n in 1..100u64 {
        assert_eq!(d.on_sample(0.2f32.to_bits(), n * 10 * MS), None);
        assert!(d.is_active);
    }
}

#[test]
fn quiet_samples_never_rise() {
    let mut d = HysteresisDetector::new(config());
    for n in 0..50u64 {
        assert_eq!(d.on_sample(0, n * MS), None);
        assert_eq!(d.on_sample(0.0005f32.to_bits(), n * MS), None);
    }
    assert_eq!(d.falloff_deadline, None);
}

#[test]
fn rises_again_after_falling() {
    let mut d = HysteresisDetector::new(config());
    assert_eq!(d.on_sample(0.5f32.to_bits(), 0), Some(Event::Rising));
    assert_eq!(d.on_sample(0, 800 * MS), Some(Event::Falling));
    assert_eq!(d.on_sample(0.5f32.to_bits(), 900 * MS), Some(Event::Rising));
}

#[test]
fn nan_threshold_never_rises() {
    let mut d = HysteresisDetector::new(DetectorConfig { threshold: f32::NAN.to_bits(), hold_time: MS });
    assert_eq!(d.on_sample(1.0f32.to_bits(), 0), None);
}

#[test]
fn config_from_millis() {
    let t = 0.001f32.to_bits();
    assert_eq!(
        DetectorConfig::from_millis(t, 750),
        Some(DetectorConfig { threshold: t, hold_time: 750_000_000 })
    );
    assert_eq!(DetectorConfig::from_millis(t, 0), Some(DetectorConfig { threshold: t, hold_time: 0 }));
    assert_eq!(DetectorConfig::from_millis(t, u64::MAX / 1_000_000 + 1), None);
}

#[test]
fn largest_time_and_hold_do_not_overflow() {
    let mut d = HysteresisDetector::new(DetectorConfig { threshold: 0, hold_time: u64::MAX });
    assert_eq!(d.on_sample(1.0f32.to_bits(), u64::MAX), Some(Event::Rising));
    assert_eq!(d.falloff_deadline, Some(u64::MAX as u128 * 2));
}
