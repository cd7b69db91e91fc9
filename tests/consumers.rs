use micclick::consumers::{Clicker, Cue, TrayIcon, TrayLook};
use micclick::event::Event;

#[test]
fn clicker_cues_only_on_change() {
    let mut c = Clicker::new();
    assert_eq!(c.on_event(Event::Falling), None);
    assert_eq!(c.on_event(Event::Rising), Some(Cue::On));
    assert_eq!(c.on_event(Event::Rising), None);
    assert_eq!(c.on_event(Event::Suspended), Some(Cue::Off));
    assert_eq!(c.on_event(Event::Falling), None);
    assert_eq!(c.on_event(Event::Rising), Some(Cue::On));
    assert_eq!(c.on_event(Event::Falling), Some(Cue::Off));
    assert!(!c.is_active);
}

#[test]
fn tray_looks() {
    assert_eq!(TrayLook::initial(), TrayLook { icon: TrayIcon::Muted, active: false });
    assert_eq!(TrayLook::for_event(Event::Rising), TrayLook { icon: TrayIcon::High, active: true });
    assert_eq!(TrayLook::for_event(Event::Falling), TrayLook { icon: TrayIcon::Low, active: true });
    assert_eq!(TrayLook::for_event(Event::Suspended), TrayLook { icon: TrayIcon::Muted, active: false });
}

#[test]
fn tray_icon_names() {
    assert_eq!(TrayIcon::Muted.name(), "microphone-sensitivity-muted-symbolic");
    assert_eq!(TrayIcon::Low.name(), "microphone-sensitivity-low-symbolic");
    assert_eq!(TrayIcon::High.name(), "microphone-sensitivity-high-symbolic");
}
