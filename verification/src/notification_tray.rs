//! The tray: how it comes and goes, its switches and sliders, and its calendar.

use vstd::prelude::*;
use vstd::string::*;

use crate::calendar::{
    adjacent, adjacent_calendar_month, is_month, CalendarMonth, MAX_YEAR, MIN_YEAR,
};
use crate::modules::system_controls::{
    after_action, AudioEndpoint, ControlAction, ControlSnapshot, LevelStatus, NetworkKind,
    ToggleStatus,
};
use crate::text::owned;

verus! {

/// How long after sending a slider's value the next one is sent while it is
/// dragged, in nanoseconds.
pub const SLIDER_SEND_INTERVAL: u64 = 50_000_000;

/// What a slider is for.
#[derive(Clone, Copy, Debug, PartialEq, Eq, Structural)]
pub enum SliderKind {
    AudioOutput,
    AudioInput,
    Brightness,
}

/// A slider that is dragged, and when its value was sent last.
#[derive(Clone, Copy, Debug, PartialEq, Eq, Structural)]
pub struct SliderDrag {
    pub kind: SliderKind,
    pub last_sent_at: Option<u64>,
}

/// The tray.
pub struct NotificationTray {
    pub visible: bool,
    pub hiding: bool,
    pub slide_started_at: Option<u64>,
    pub start_show_on_first_render: bool,
    pub controls: ControlSnapshot,
    pub slider_drag: Option<SliderDrag>,
    pub calendar_month: CalendarMonth,
}

/// The level that a slider shows.
pub open spec fn level(s: ControlSnapshot, kind: SliderKind) -> LevelStatus {
    match kind {
        SliderKind::AudioOutput => s.audio_output,
        SliderKind::AudioInput => s.audio_input,
        SliderKind::Brightness => s.brightness,
    }
}

/// The snapshot with a level changed.
pub open spec fn with_percent(s: ControlSnapshot, kind: SliderKind, percent: u8) -> ControlSnapshot {
    match kind {
        SliderKind::AudioOutput => ControlSnapshot {
            audio_output: LevelStatus { percent, ..s.audio_output },
            ..s
        },
        SliderKind::AudioInput => ControlSnapshot {
            audio_input: LevelStatus { percent, ..s.audio_input },
            ..s
        },
        SliderKind::Brightness => ControlSnapshot {
            brightness: LevelStatus { percent, ..s.brightness },
            ..s
        },
    }
}

/// What sets the level of a slider.
pub open spec fn slider_sets(kind: SliderKind, percent: u8) -> ControlAction {
    match kind {
        SliderKind::AudioOutput => ControlAction::SetVolume(AudioEndpoint::Output, percent),
        SliderKind::AudioInput => ControlAction::SetVolume(AudioEndpoint::Input, percent),
        SliderKind::Brightness => ControlAction::SetBrightness(percent),
    }
}

/// Whether a slider's value is sent.
pub open spec fn send_due(last: Option<u64>, now: u64) -> bool {
    match last {
        None => true,
        Some(at) => now - at >= SLIDER_SEND_INTERVAL,
    }
}

/// The tray after its slider was moved.
pub open spec fn moved(t: NotificationTray, percent: u8, force: bool, now: u64) -> NotificationTray {
    match t.slider_drag {
        None => t,
        Some(drag) => NotificationTray {
            controls: with_percent(t.controls, drag.kind, percent),
            slider_drag: Some(
                if force || send_due(drag.last_sent_at, now) {
                    SliderDrag { last_sent_at: Some(now), ..drag }
                } else {
                    drag
                },
            ),
            ..t
        },
    }
}

/// What is sent when a slider was moved.
pub open spec fn sent(t: NotificationTray, percent: u8, force: bool, now: u64) -> Option<
    ControlAction,
> {
    match t.slider_drag {
        None => None,
        Some(drag) => if force || send_due(drag.last_sent_at, now) {
            Some(slider_sets(drag.kind, percent))
        } else {
            None
        },
    }
}

/// Whether a status is another with its switch thrown.
pub open spec fn switched(r: ToggleStatus, s: ToggleStatus) -> bool {
    &&& r.enabled == !s.enabled
    &&& r.label@ == (if r.enabled {
        "未接続"@
    } else {
        "Off"@
    })
    &&& r == (ToggleStatus { enabled: r.enabled, label: r.label, ..s })
}

/// Throws the switch of a status.
fn switch_status(s: &ToggleStatus) -> (r: ToggleStatus)
    ensures
        switched(r, *s),
{
    let mut next = s.clone();
    next.enabled = !s.enabled;
    next.label = if next.enabled {
        owned("未接続")
    } else {
        owned("Off")
    };
    next
}

/// Where the tray stands in its slide.
#[derive(Clone, Copy, Debug, PartialEq, Eq, Structural)]
pub enum SlidePhase {
    /// It rests.
    Still,
    /// It slides, so long since it started.
    Sliding(u64),
    /// It has just finished to slide.
    Finished,
}

impl NotificationTray {
    /// A tray that shows itself for the first time. Where motion is not reduced
    /// it slides in from when it is drawn first.
    pub fn new(controls: ControlSnapshot, month: CalendarMonth, reduce_motion: bool) -> (r: Self)
        ensures
            r == (NotificationTray {
                visible: true,
                hiding: false,
                slide_started_at: None,
                start_show_on_first_render: !reduce_motion,
                controls,
                slider_drag: None,
                calendar_month: month,
            }),
    {
        NotificationTray {
            visible: true,
            hiding: false,
            slide_started_at: None,
            start_show_on_first_render: !reduce_motion,
            controls,
            slider_drag: None,
            calendar_month: month,
        }
    }

    /// The percentage that a slider shows.
    pub fn slider_percent(&self, kind: SliderKind) -> (r: u8)
        ensures
            r == level(self.controls, kind).percent,
    {
        match kind {
            SliderKind::AudioOutput => self.controls.audio_output.percent,
            SliderKind::AudioInput => self.controls.audio_input.percent,
            SliderKind::Brightness => self.controls.brightness.percent,
        }
    }

    /// Whether a slider can be moved.
    pub fn slider_available(&self, kind: SliderKind) -> (r: bool)
        ensures
            r == level(self.controls, kind).available,
    {
        match kind {
            SliderKind::AudioOutput => self.controls.audio_output.available,
            SliderKind::AudioInput => self.controls.audio_input.available,
            SliderKind::Brightness => self.controls.brightness.available,
        }
    }

    /// Changes what a slider shows.
    pub fn set_slider_percent(&mut self, kind: SliderKind, percent: u8)
        ensures
            *final(self) == (NotificationTray {
                controls: with_percent(old(self).controls, kind, percent),
                ..*old(self)
            }),
    {
        match kind {
            SliderKind::AudioOutput => {
                self.controls.audio_output.percent = percent;
            },
            SliderKind::AudioInput => {
                self.controls.audio_input.percent = percent;
            },
            SliderKind::Brightness => {
                self.controls.brightness.percent = percent;
            },
        }
    }

    /// What sets the level of a slider.
    pub fn slider_action(kind: SliderKind, percent: u8) -> (r: ControlAction)
        ensures
            r == slider_sets(kind, percent),
    {
        match kind {
            SliderKind::AudioOutput => ControlAction::SetVolume(AudioEndpoint::Output, percent),
            SliderKind::AudioInput => ControlAction::SetVolume(AudioEndpoint::Input, percent),
            SliderKind::Brightness => ControlAction::SetBrightness(percent),
        }
    }

    /// Shows what the machine reports; a slider that is dragged stays where it
    /// is.
    pub fn set_controls(&mut self, controls: ControlSnapshot)
        ensures
            *final(self) == (NotificationTray {
                controls: match old(self).slider_drag {
                    Some(drag) => with_percent(
                        controls,
                        drag.kind,
                        level(old(self).controls, drag.kind).percent,
                    ),
                    None => controls,
                },
                ..*old(self)
            }),
    {
        match self.slider_drag {
            Some(drag) => {
                let percent = self.slider_percent(drag.kind);
                self.controls = controls;
                self.set_slider_percent(drag.kind, percent);
            },
            None => {
                self.controls = controls;
            },
        }
    }

    /// Shows the tray.
    pub fn show(&mut self, now: u64, reduce_motion: bool)
        ensures
            *final(self) == (NotificationTray {
                visible: true,
                hiding: false,
                start_show_on_first_render: false,
                slide_started_at: if reduce_motion {
                    None
                } else {
                    Some(now)
                },
                ..*old(self)
            }),
    {
        self.visible = true;
        self.hiding = false;
        self.start_show_on_first_render = false;
        self.slide_started_at = if reduce_motion {
            None
        } else {
            Some(now)
        };
    }

    /// Hides the tray, at once where motion is reduced, and tells whether
    /// anything changed; one that is hidden or hiding stays as it is.
    pub fn begin_hide(&mut self, now: u64, reduce_motion: bool) -> (r: bool)
        ensures
            r == (old(self).visible && !old(self).hiding),
            !r ==> *final(self) == *old(self),
            r && reduce_motion ==> *final(self) == (NotificationTray {
                visible: false,
                ..*old(self)
            }),
            r && !reduce_motion ==> *final(self) == (NotificationTray {
                hiding: true,
                slide_started_at: Some(now),
                ..*old(self)
            }),
    {
        if !self.visible || self.hiding {
            return false;
        }
        if reduce_motion {
            self.visible = false;
        } else {
            self.hiding = true;
            self.slide_started_at = Some(now);
        }
        true
    }

    /// Starts the first slide when the tray is drawn for the first time.
    pub fn begin_render(&mut self, now: u64)
        ensures
            *final(self) == (if old(self).visible && old(self).start_show_on_first_render {
                NotificationTray {
                    start_show_on_first_render: false,
                    slide_started_at: Some(now),
                    ..*old(self)
                }
            } else {
                *old(self)
            }),
    {
        if self.visible && self.start_show_on_first_render {
            self.start_show_on_first_render = false;
            self.slide_started_at = Some(now);
        }
    }

    /// Where the tray stands in a slide that takes so long. At its end it rests,
    /// and is hidden where it was hiding.
    pub fn slide_phase(&mut self, now: u64, duration: u64) -> (r: SlidePhase)
        ensures
            match old(self).slide_started_at {
                None => r == SlidePhase::Still && *final(self) == *old(self),
                Some(at) => if now - at >= duration {
                    &&& r == SlidePhase::Finished
                    &&& *final(self) == (NotificationTray {
                        slide_started_at: None,
                        visible: old(self).visible && !old(self).hiding,
                        hiding: false,
                        ..*old(self)
                    })
                } else {
                    &&& r == SlidePhase::Sliding(
                        (if now > at {
                            now - at
                        } else {
                            0
                        }) as u64,
                    )
                    &&& *final(self) == *old(self)
                },
            },
    {
        match self.slide_started_at {
            None => SlidePhase::Still,
            Some(at) => {
                let elapsed: u64 = if now > at {
                    now - at
                } else {
                    0
                };
                if now >= at && elapsed >= duration {
                    self.slide_started_at = None;
                    if self.hiding {
                        self.visible = false;
                        self.hiding = false;
                    }
                    SlidePhase::Finished
                } else {
                    SlidePhase::Sliding(elapsed)
                }
            },
        }
    }

    /// Throws the switch of the wireless network and tells whether to send the
    /// action for it; without one nothing happens.
    pub fn toggle_wifi(&mut self) -> (r: bool)
        ensures
            r == old(self).controls.wifi.available,
            !r ==> *final(self) == *old(self),
            r ==> {
                &&& switched(final(self).controls.wifi, old(self).controls.wifi)
                &&& *final(self) == (NotificationTray {
                    controls: ControlSnapshot {
                        wifi: final(self).controls.wifi,
                        ..old(self).controls
                    },
                    ..*old(self)
                })
            },
    {
        if !self.controls.wifi.available {
            return false;
        }
        self.controls.wifi = switch_status(&self.controls.wifi);
        true
    }

    /// Throws the switch of Bluetooth and tells whether to send the action for
    /// it; without an adapter nothing happens.
    pub fn toggle_bluetooth(&mut self) -> (r: bool)
        ensures
            r == old(self).controls.bluetooth.available,
            !r ==> *final(self) == *old(self),
            r ==> {
                &&& switched(final(self).controls.bluetooth, old(self).controls.bluetooth)
                &&& *final(self) == (NotificationTray {
                    controls: ControlSnapshot {
                        bluetooth: final(self).controls.bluetooth,
                        ..old(self).controls
                    },
                    ..*old(self)
                })
            },
    {
        if !self.controls.bluetooth.available {
            return false;
        }
        self.controls.bluetooth = switch_status(&self.controls.bluetooth);
        true
    }

    /// Mutes or unmutes and tells whether to send the action for it.
    pub fn toggle_mute(&mut self, endpoint: AudioEndpoint) -> (r: bool)
        ensures
            match endpoint {
                AudioEndpoint::Output => {
                    &&& r == old(self).controls.audio_output.available
                    &&& *final(self) == (NotificationTray {
                        controls: ControlSnapshot {
                            audio_output: LevelStatus {
                                muted: old(self).controls.audio_output.muted != r,
                                ..old(self).controls.audio_output
                            },
                            ..old(self).controls
                        },
                        ..*old(self)
                    })
                },
                AudioEndpoint::Input => {
                    &&& r == old(self).controls.audio_input.available
                    &&& *final(self) == (NotificationTray {
                        controls: ControlSnapshot {
                            audio_input: LevelStatus {
                                muted: old(self).controls.audio_input.muted != r,
                                ..old(self).controls.audio_input
                            },
                            ..old(self).controls
                        },
                        ..*old(self)
                    })
                },
            },
    {
        match endpoint {
            AudioEndpoint::Output => {
                if !self.controls.audio_output.available {
                    return false;
                }
                self.controls.audio_output.muted = !self.controls.audio_output.muted;
            },
            AudioEndpoint::Input => {
                if !self.controls.audio_input.available {
                    return false;
                }
                self.controls.audio_input.muted = !self.controls.audio_input.muted;
            },
        }
        true
    }

    /// Moves the slider that is dragged. Its value is sent where that is asked
    /// for, and else not more often than the interval allows.
    pub fn update_slider(&mut self, percent: u8, force_send: bool, now: u64) -> (r: Option<
        ControlAction,
    >)
        ensures
            *final(self) == moved(*old(self), percent, force_send, now),
            r == sent(*old(self), percent, force_send, now),
    {
        match self.slider_drag {
            None => None,
            Some(drag) => {
                self.set_slider_percent(drag.kind, percent);
                let due = match drag.last_sent_at {
                    None => true,
                    Some(at) => now >= at && now - at >= SLIDER_SEND_INTERVAL,
                };
                if force_send || due {
                    self.slider_drag = Some(SliderDrag { kind: drag.kind, last_sent_at: Some(now) });
                    Some(Self::slider_action(drag.kind, percent))
                } else {
                    None
                }
            },
        }
    }

    /// Starts to drag a slider, unless what it is for is not there.
    pub fn begin_slider_drag(&mut self, kind: SliderKind, percent: u8, now: u64) -> (r: Option<
        ControlAction,
    >)
        ensures
            !level(old(self).controls, kind).available ==> r is None && *final(self) == *old(self),
            level(old(self).controls, kind).available ==> {
                &&& r == Some(slider_sets(kind, percent))
                &&& *final(self) == (NotificationTray {
                    controls: with_percent(old(self).controls, kind, percent),
                    slider_drag: Some(SliderDrag { kind, last_sent_at: Some(now) }),
                    ..*old(self)
                })
            },
    {
        if !self.slider_available(kind) {
            return None;
        }
        self.slider_drag = Some(SliderDrag { kind, last_sent_at: None });
        self.update_slider(percent, true, now)
    }

    /// Lets the slider go; its last value is always sent.
    pub fn end_slider_drag(&mut self, percent: u8, now: u64) -> (r: Option<ControlAction>)
        ensures
            match old(self).slider_drag {
                None => r is None && *final(self) == *old(self),
                Some(drag) => {
                    &&& r == Some(slider_sets(drag.kind, percent))
                    &&& *final(self) == (NotificationTray {
                        controls: with_percent(old(self).controls, drag.kind, percent),
                        slider_drag: None,
                        ..*old(self)
                    })
                },
            },
    {
        let action = self.update_slider(percent, true, now);
        self.slider_drag = None;
        action
    }

    /// Shows the month before.
    pub fn show_previous_calendar_month(&mut self)
        requires
            is_month(old(self).calendar_month),
            MIN_YEAR <= adjacent(
                old(self).calendar_month.year as int,
                old(self).calendar_month.month as int,
                -1,
            ).0,
        ensures
            is_month(final(self).calendar_month),
            (
                final(self).calendar_month.year as int,
                final(self).calendar_month.month as int,
            ) == adjacent(
                old(self).calendar_month.year as int,
                old(self).calendar_month.month as int,
                -1,
            ),
            *final(self) == (NotificationTray {
                calendar_month: final(self).calendar_month,
                ..*old(self)
            }),
    {
        self.calendar_month = adjacent_calendar_month(self.calendar_month, -1);
    }

    /// Shows the month behind.
    pub fn show_next_calendar_month(&mut self)
        requires
            is_month(old(self).calendar_month),
            adjacent(
                old(self).calendar_month.year as int,
                old(self).calendar_month.month as int,
                1,
            ).0 <= MAX_YEAR,
        ensures
            is_month(final(self).calendar_month),
            (
                final(self).calendar_month.year as int,
                final(self).calendar_month.month as int,
            ) == adjacent(
                old(self).calendar_month.year as int,
                old(self).calendar_month.month as int,
                1,
            ),
            *final(self) == (NotificationTray {
                calendar_month: final(self).calendar_month,
                ..*old(self)
            }),
    {
        self.calendar_month = adjacent_calendar_month(self.calendar_month, 1);
    }
}

/// The glyph and the title of the switch for the network: those of the route
/// that traffic takes.
pub fn network_switch(route: Option<NetworkKind>) -> (r: (&'static str, &'static str))
    ensures
        route == Some(NetworkKind::Wired) ==> r.0@ == "\u{f0200}"@ && r.1@ == "有線接続"@,
        route != Some(NetworkKind::Wired) ==> r.0@ == "\u{f1eb}"@ && r.1@ == "Wi-Fi"@,
{
    match route {
        Some(NetworkKind::Wired) => ("\u{f0200}", "有線接続"),
        _ => ("\u{f1eb}", "Wi-Fi"),
    }
}

/// While a slider is dragged, reports of the machine do not move it.
pub proof fn law_dragged_slider_stays(
    controls: ControlSnapshot,
    reported: ControlSnapshot,
    kind: SliderKind,
)
    ensures
        level(
            with_percent(reported, kind, level(controls, kind).percent),
            kind,
        ).percent == level(controls, kind).percent,
{
}

/// Moving one slider leaves the others where they are.
pub proof fn law_other_sliders_stay(
    s: ControlSnapshot,
    kind: SliderKind,
    other: SliderKind,
    percent: u8,
)
    requires
        other != kind,
    ensures
        level(with_percent(s, kind, percent), other) == level(s, other),
{
}

/// The glyph of the switch that mutes an endpoint.
pub open spec fn mute_glyph(endpoint: AudioEndpoint, muted: bool) -> Seq<char> {
    match (endpoint, muted) {
        (AudioEndpoint::Output, true) => "\u{f6a9}"@,
        (AudioEndpoint::Input, true) => "\u{f131}"@,
        (AudioEndpoint::Output, false) => "\u{f028}"@,
        (AudioEndpoint::Input, false) => "\u{f130}"@,
    }
}

/// The glyph of the switch that mutes an endpoint.
pub fn mute_icon(endpoint: AudioEndpoint, muted: bool) -> (r: &'static str)
    ensures
        r@ == mute_glyph(endpoint, muted),
{
    match (endpoint, muted) {
        (AudioEndpoint::Output, true) => "\u{f6a9}",
        (AudioEndpoint::Input, true) => "\u{f131}",
        (AudioEndpoint::Output, false) => "\u{f028}",
        (AudioEndpoint::Input, false) => "\u{f130}",
    }
}

/// A slider that is dragged goes where it is dragged to, and takes nothing else along.
pub proof fn law_slider_follows(t: NotificationTray, percent: u8, force: bool, now: u64)
    ensures
        t.slider_drag is None ==> moved(t, percent, force, now) == t,
        t.slider_drag matches Some(drag) ==> {
            let r = moved(t, percent, force, now);
            &&& level(r.controls, drag.kind).percent == percent
            &&& level(r.controls, drag.kind).muted == level(t.controls, drag.kind).muted
            &&& level(r.controls, drag.kind).available == level(t.controls, drag.kind).available
            &&& r.slider_drag matches Some(d) && d.kind == drag.kind
            &&& r.visible == t.visible && r.calendar_month == t.calendar_month
        },
{
}

/// What is sent for a slider sets, on the machine, the level that the slider shows.
pub proof fn law_sent_level_is_shown(t: NotificationTray, percent: u8, force: bool, now: u64)
    requires
        percent <= 100,
        sent(t, percent, force, now) is Some,
    ensures
        after_action(t.controls, sent(t, percent, force, now)->0) == moved(
            t,
            percent,
            force,
            now,
        ).controls,
        moved(t, percent, force, now).slider_drag->0.last_sent_at == Some(now),
{
}

/// While a slider is dragged its level is sent at once, and then again no sooner than
/// fifty milliseconds later, unless it must be.
pub proof fn law_levels_are_sent_at_intervals(t: NotificationTray, percent: u8, now: u64)
    requires
        t.slider_drag is Some,
    ensures
        sent(t, percent, true, now) is Some,
        t.slider_drag->0.last_sent_at is None ==> sent(t, percent, false, now) is Some,
        t.slider_drag->0.last_sent_at matches Some(at) ==> (sent(t, percent, false, now) is Some
            <==> now - at >= 50_000_000),
        sent(t, percent, false, now) is None ==> moved(t, percent, false, now).slider_drag
            == t.slider_drag,
{
}

/// Throwing a switch turns it, and its label says so.
pub proof fn law_switch_is_thrown(r: ToggleStatus, s: ToggleStatus)
    requires
        switched(r, s),
    ensures
        r.enabled != s.enabled,
        s.enabled ==> r.label@ == "Off"@,
        !s.enabled ==> r.label@ == "未接続"@,
        r.connected == s.connected && r.available == s.available && r.wired == s.wired,
{
}

} // verus!
