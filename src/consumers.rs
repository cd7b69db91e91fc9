//! What the consumers of events decide: which sound cue to play, and how
//! the tray icon looks.
use vstd::prelude::*;

use crate::event::Event;

verus! {

/// A sound cue to play.
#[derive(Debug, Clone, Copy, PartialEq, Eq, Structural)]
pub enum Cue {
    /// Sound input began.
    On,
    /// Sound input ended.
    Off,
}

/// Activity as the clicker last saw it, and the cue that `e` calls for:
/// a cue plays only on an actual change, so repeated events stay silent.
pub open spec fn clicker_step(active: bool, e: Event) -> (bool, Option<Cue>) {
    match e {
        Event::Rising => (true, if active { None } else { Some(Cue::On) }),
        Event::Falling | Event::Suspended => (false, if active { Some(Cue::Off) } else { None }),
    }
}

/// The sound-cue consumer.
#[derive(Debug, Clone, Copy, PartialEq, Eq, Structural)]
pub struct Clicker {
    pub is_active: bool,
}

impl Clicker {
    /// A clicker that has seen no activity.
    pub fn new() -> (r: Clicker)
        ensures
            !r.is_active,
    {
        Clicker { is_active: false }
    }

    /// Takes one event and returns the cue to play, if any.
    pub fn on_event(&mut self, e: Event) -> (r: Option<Cue>)
        ensures
            (final(self).is_active, r) == clicker_step(old(self).is_active, e),
    {
        match e {
            Event::Rising => {
                let cue = if self.is_active { None } else { Some(Cue::On) };
                self.is_active = true;
                cue
            },
            Event::Falling | Event::Suspended => {
                let cue = if self.is_active { Some(Cue::Off) } else { None };
                self.is_active = false;
                cue
            },
        }
    }
}

/// The tray icon's picture.
#[derive(Debug, Clone, Copy, PartialEq, Eq, Structural)]
pub enum TrayIcon {
    /// The stream is paused or not started.
    Muted,
    /// The stream runs and is quiet.
    Low,
    /// Sound input is active.
    High,
}

/// The tray icon's picture and whether it is shown as active.
#[derive(Debug, Clone, Copy, PartialEq, Eq, Structural)]
pub struct TrayLook {
    pub icon: TrayIcon,
    pub active: bool,
}

/// The look after event `e`.
pub open spec fn look_for(e: Event) -> TrayLook {
    match e {
        Event::Rising => TrayLook { icon: TrayIcon::High, active: true },
        Event::Falling => TrayLook { icon: TrayIcon::Low, active: true },
        Event::Suspended => TrayLook { icon: TrayIcon::Muted, active: false },
    }
}

/// The icon-theme name of each picture.
pub open spec fn icon_name(icon: TrayIcon) -> Seq<char> {
    match icon {
        TrayIcon::Muted => "microphone-sensitivity-muted-symbolic"@,
        TrayIcon::Low => "microphone-sensitivity-low-symbolic"@,
        TrayIcon::High => "microphone-sensitivity-high-symbolic"@,
    }
}

impl TrayIcon {
    /// The icon-theme name of this picture.
    pub fn name(&self) -> (r: &'static str)
        ensures
            r@ == icon_name(*self),
    {
        match self {
            TrayIcon::Muted => "microphone-sensitivity-muted-symbolic",
            TrayIcon::Low => "microphone-sensitivity-low-symbolic",
            TrayIcon::High => "microphone-sensitivity-high-symbolic",
        }
    }
}

impl TrayLook {
    /// The look before any event: muted, and not shown as active.
    pub fn initial() -> (r: TrayLook)
        ensures
            r == (TrayLook { icon: TrayIcon::Muted, active: false }),
    {
        TrayLook { icon: TrayIcon::Muted, active: false }
    }

    /// The look after event `e`.
    pub fn for_event(e: Event) -> (r: TrayLook)
        ensures
            r == look_for(e),
    {
        match e {
            Event::Rising => TrayLook { icon: TrayIcon::High, active: true },
            Event::Falling => TrayLook { icon: TrayIcon::Low, active: true },
            Event::Suspended => TrayLook { icon: TrayIcon::Muted, active: false },
        }
    }
}

} // verus!
