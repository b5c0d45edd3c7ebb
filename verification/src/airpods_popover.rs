//! The popover with the earbuds: how they treat sound from outside, as long as a
//! change is under way.

use vstd::prelude::*;
use vstd::string::*;

use crate::modules::airpods::{AirPodsListeningMode, AirPodsStatus};
use crate::modules::system_controls::ControlSnapshot;
use crate::text::{concat, decimal, decimal_text, owned};

verus! {

/// A change of the mode that was asked for and is not confirmed yet.
#[derive(Clone, Copy, Debug, PartialEq, Eq, Structural)]
pub struct PendingModeChange {
    pub requested: AirPodsListeningMode,
    pub previous: Option<AirPodsListeningMode>,
}

/// The popover with the earbuds.
pub struct AirPodsPopover {
    pub controls: ControlSnapshot,
    pub pending_mode_change: Option<PendingModeChange>,
}

/// The snapshot with another mode of the earbuds.
pub open spec fn with_mode(
    s: ControlSnapshot,
    mode: Option<AirPodsListeningMode>,
) -> ControlSnapshot {
    ControlSnapshot { airpods: AirPodsStatus { listening_mode: mode, ..s.airpods }, ..s }
}

/// The popover after a report. A change that the report confirms is done; one
/// that it tells a failure of is taken back; before that the mode that was asked
/// for is shown, whatever the report says.
pub open spec fn after_report(p: AirPodsPopover, s: ControlSnapshot) -> AirPodsPopover {
    match p.pending_mode_change {
        None => AirPodsPopover { controls: s, pending_mode_change: None },
        Some(change) => if s.airpods.listening_mode == Some(change.requested) {
            AirPodsPopover { controls: s, pending_mode_change: None }
        } else if s.airpods.message is Some {
            AirPodsPopover {
                controls: with_mode(s, change.previous),
                pending_mode_change: None,
            }
        } else {
            AirPodsPopover {
                controls: with_mode(s, Some(change.requested)),
                pending_mode_change: Some(change),
            }
        },
    }
}

/// The popover after a mode was chosen.
pub open spec fn after_choice(p: AirPodsPopover, mode: AirPodsListeningMode) -> AirPodsPopover {
    if p.controls.airpods.ready {
        AirPodsPopover {
            controls: ControlSnapshot {
                airpods: AirPodsStatus {
                    listening_mode: Some(mode),
                    message: None,
                    ..p.controls.airpods
                },
                ..p.controls
            },
            pending_mode_change: Some(
                PendingModeChange {
                    requested: mode,
                    previous: p.controls.airpods.listening_mode,
                },
            ),
        }
    } else {
        p
    }
}

impl AirPodsPopover {
    /// A popover that shows what is known.
    pub fn new(controls: ControlSnapshot) -> (r: Self)
        ensures
            r == (AirPodsPopover { controls, pending_mode_change: None }),
    {
        AirPodsPopover { controls, pending_mode_change: None }
    }

    /// Shows what the machine reports.
    pub fn set_controls(&mut self, controls: ControlSnapshot)
        ensures
            *final(self) == after_report(*old(self), controls),
    {
        self.controls = controls;
        if let Some(change) = self.pending_mode_change {
            let confirmed = match self.controls.airpods.listening_mode {
                Some(mode) => mode == change.requested,
                None => false,
            };
            if confirmed {
                self.pending_mode_change = None;
            } else if self.controls.airpods.message.is_some() {
                self.controls.airpods.listening_mode = change.previous;
                self.pending_mode_change = None;
            } else {
                self.controls.airpods.listening_mode = Some(change.requested);
            }
        }
    }

    /// Chooses a mode and tells whether to ask the earbuds for it; earbuds that
    /// are not ready are not asked.
    pub fn set_mode(&mut self, mode: AirPodsListeningMode) -> (r: bool)
        ensures
            r == old(self).controls.airpods.ready,
            *final(self) == after_choice(*old(self), mode),
    {
        if !self.controls.airpods.ready {
            return false;
        }
        let previous = self.controls.airpods.listening_mode;
        self.controls.airpods.listening_mode = Some(mode);
        self.controls.airpods.message = None;
        self.pending_mode_change = Some(PendingModeChange { requested: mode, previous });
        true
    }

    /// Takes note that the request could not be sent: the mode is as it was, and
    /// nothing is under way.
    pub fn mode_request_failed(&mut self)
        ensures
            final(self).pending_mode_change is None,
            final(self).controls.airpods.message is Some,
            final(self).controls.airpods.message->0@
                == "AirPodsへの操作要求を送信できませんでした"@,
            final(self).controls == (ControlSnapshot {
                airpods: AirPodsStatus {
                    listening_mode: match old(self).pending_mode_change {
                        Some(change) => change.previous,
                        None => old(self).controls.airpods.listening_mode,
                    },
                    message: final(self).controls.airpods.message,
                    ..old(self).controls.airpods
                },
                ..old(self).controls
            }),
    {
        if let Some(change) = self.pending_mode_change {
            self.controls.airpods.listening_mode = change.previous;
        }
        self.controls.airpods.message = Some(owned("AirPodsへの操作要求を送信できませんでした"));
        self.pending_mode_change = None;
    }
}

/// A charge, or a dash where it is not known.
pub open spec fn charge_label(percent: Option<u8>) -> Seq<char> {
    match percent {
        Some(p) => decimal(p as nat),
        None => "—"@,
    }
}

/// A charge, or a dash where it is not known.
fn charge_text(percent: Option<u8>) -> (r: String)
    ensures
        r@ == charge_label(percent),
{
    match percent {
        Some(percent) => decimal_text(percent as u64),
        None => owned("—"),
    }
}

/// The charges of both earbuds.
pub fn charges_label(left: Option<u8>, right: Option<u8>) -> (r: String)
    ensures
        r@ == charge_label(left) + "% / "@ + charge_label(right) + "%"@,
{
    let mut out = concat(charge_text(left).as_str(), "% / ");
    out.append(charge_text(right).as_str());
    out.append("%");
    out
}

/// Whatever stale reports come between, a mode that was chosen is shown until a
/// report confirms it or tells a failure.
pub proof fn law_choice_outlives_stale_reports(
    p: AirPodsPopover,
    mode: AirPodsListeningMode,
    stale: ControlSnapshot,
    later: ControlSnapshot,
)
    requires
        p.controls.airpods.ready,
        stale.airpods.message is None,
        stale.airpods.listening_mode != Some(mode),
    ensures
        ({
            let waiting = after_report(after_choice(p, mode), stale);
            &&& waiting.controls.airpods.listening_mode == Some(mode)
            &&& after_report(waiting, later) == after_report(after_choice(p, mode), later)
        }),
{
}

/// A failure that a report tells brings back the mode from before the choice.
pub proof fn law_failed_choice_is_taken_back(
    p: AirPodsPopover,
    mode: AirPodsListeningMode,
    report: ControlSnapshot,
)
    requires
        p.controls.airpods.ready,
        report.airpods.message is Some,
        report.airpods.listening_mode != Some(mode),
    ensures
        after_report(after_choice(p, mode), report).controls.airpods.listening_mode
            == p.controls.airpods.listening_mode,
{
}

/// While a change is under way the mode that was asked for is shown, until a report
/// confirms it; where it failed, the one before it is shown again.
pub proof fn law_reports_on_a_change(p: AirPodsPopover, s: ControlSnapshot)
    ensures
        ({
            let r = after_report(p, s);
            &&& p.pending_mode_change is None ==> r.controls == s && r.pending_mode_change is None
            &&& p.pending_mode_change matches Some(change) ==> {
                &&& s.airpods.listening_mode == Some(change.requested) ==> r.controls == s
                    && r.pending_mode_change is None
                &&& s.airpods.listening_mode != Some(change.requested) && s.airpods.message is Some
                    ==> r.controls.airpods.listening_mode == change.previous
                    && r.pending_mode_change is None
                &&& s.airpods.listening_mode != Some(change.requested) && s.airpods.message is None
                    ==> r.controls.airpods.listening_mode == Some(change.requested)
                    && r.pending_mode_change == p.pending_mode_change
            }
            &&& r.controls.airpods == (AirPodsStatus {
                listening_mode: r.controls.airpods.listening_mode,
                ..s.airpods
            })
            &&& r.controls == (ControlSnapshot { airpods: r.controls.airpods, ..s })
        }),
{
}

/// A choice that fails leads back to the mode before it; one that is confirmed stays.
pub proof fn law_choice_and_report(
    p: AirPodsPopover,
    mode: AirPodsListeningMode,
    s: ControlSnapshot,
)
    requires
        p.controls.airpods.ready,
    ensures
        ({
            let chosen = after_choice(p, mode);
            let r = after_report(chosen, s);
            &&& chosen.controls.airpods.listening_mode == Some(mode)
            &&& chosen.controls.airpods.message is None
            &&& s.airpods.listening_mode == Some(mode) ==> r.controls.airpods.listening_mode == Some(
                mode,
            )
            &&& s.airpods.listening_mode != Some(mode) && s.airpods.message is Some
                ==> r.controls.airpods.listening_mode == p.controls.airpods.listening_mode
        }),
{
}

/// Nothing can be chosen before the earbuds are ready.
pub proof fn law_no_choice_before_ready(p: AirPodsPopover, mode: AirPodsListeningMode)
    requires
        !p.controls.airpods.ready,
    ensures
        after_choice(p, mode) == p,
{
}

} // verus!
