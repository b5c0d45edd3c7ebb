//! The earbuds: how charged they are, how they treat sound from outside, and
//! when they are connected to.

use vstd::prelude::*;
use vstd::string::*;

use crate::text::{owned, opt_view, same};

verus! {

/// How the earbuds treat sound from outside.
#[derive(Clone, Copy, Debug, PartialEq, Eq, Structural)]
pub enum AirPodsListeningMode {
    NoiseCancellation,
    Transparency,
    Adaptive,
}

/// The mode that a byte of the protocol stands for.
pub open spec fn listening_mode(value: u8) -> Option<AirPodsListeningMode> {
    if value == 2 {
        Some(AirPodsListeningMode::NoiseCancellation)
    } else if value == 3 {
        Some(AirPodsListeningMode::Transparency)
    } else if value == 4 {
        Some(AirPodsListeningMode::Adaptive)
    } else {
        None
    }
}

impl AirPodsListeningMode {
    /// The mode that a byte of the protocol stands for; the byte for no mode,
    /// and any that is not known, stands for none.
    pub fn from_byte(value: u8) -> (r: Option<Self>)
        ensures
            r == listening_mode(value),
    {
        match value {
            2 => Some(AirPodsListeningMode::NoiseCancellation),
            3 => Some(AirPodsListeningMode::Transparency),
            4 => Some(AirPodsListeningMode::Adaptive),
            _ => None,
        }
    }
}

/// What is known of the earbuds.
#[derive(Debug, PartialEq, Eq)]
pub struct AirPodsStatus {
    pub connected: bool,
    pub ready: bool,
    pub address: Option<String>,
    pub left_percent: Option<u8>,
    pub right_percent: Option<u8>,
    pub average_percent: Option<u8>,
    pub listening_mode: Option<AirPodsListeningMode>,
    pub message: Option<String>,
}

impl Clone for AirPodsStatus {
    fn clone(&self) -> (r: Self)
        ensures
            r == *self,
    {
        AirPodsStatus {
            connected: self.connected,
            ready: self.ready,
            address: self.address.clone(),
            left_percent: self.left_percent,
            right_percent: self.right_percent,
            average_percent: self.average_percent,
            listening_mode: self.listening_mode,
            message: self.message.clone(),
        }
    }
}

/// What is known at first of earbuds at an address, or of none.
pub open spec fn found(address: Option<String>) -> AirPodsStatus {
    AirPodsStatus {
        connected: address is Some,
        ready: false,
        address,
        left_percent: None,
        right_percent: None,
        average_percent: None,
        listening_mode: None,
        message: None,
    }
}

impl Default for AirPodsStatus {
    fn default() -> (r: Self)
        ensures
            r == found(None),
    {
        AirPodsStatus {
            connected: false,
            ready: false,
            address: None,
            left_percent: None,
            right_percent: None,
            average_percent: None,
            listening_mode: None,
            message: None,
        }
    }
}

/// What the earbuds are told.
#[derive(Clone, Copy, Debug)]
pub enum AirPodsCommand {
    SetListeningMode(AirPodsListeningMode),
}

/// The mean of the two charges, rounded down, or the only one there is.
pub open spec fn average(left: Option<u8>, right: Option<u8>) -> Option<u8> {
    match (left, right) {
        (Some(l), Some(r)) => Some(((l + r) / 2) as u8),
        (Some(l), None) => Some(l),
        (None, r) => r,
    }
}

/// The mean of the two charges, rounded down, or the only one there is.
pub fn battery_average(left: Option<u8>, right: Option<u8>) -> (r: Option<u8>)
    ensures
        r == average(left, right),
{
    match (left, right) {
        (Some(left), Some(right)) => Some(((left as u16 + right as u16) / 2) as u8),
        (Some(value), None) => Some(value),
        (None, Some(value)) => Some(value),
        (None, None) => None,
    }
}

/// The part of the earbuds that a charge is of.
#[derive(Clone, Copy, Debug, PartialEq, Eq, Structural)]
pub enum BatteryPart {
    Left,
    Right,
    Other,
}

/// A charge that the earbuds report.
#[derive(Clone, Copy, Debug)]
pub struct BatteryReport {
    pub part: BatteryPart,
    pub level: u8,
    pub disconnected: bool,
}

/// A number, but at most a hundred.
pub open spec fn at_most_100(n: u8) -> u8 {
    if n > 100 {
        100
    } else {
        n
    }
}

/// The charge of a part: that of the last report of it while it is connected.
pub open spec fn charge(reports: Seq<BatteryReport>, part: BatteryPart) -> Option<u8>
    decreases reports.len(),
{
    if reports.len() == 0 {
        None
    } else if reports.last().part == part && !reports.last().disconnected {
        Some(at_most_100(reports.last().level))
    } else {
        charge(reports.drop_last(), part)
    }
}

/// What is known after the earbuds reported.
pub open spec fn reported(
    s: AirPodsStatus,
    reports: Seq<BatteryReport>,
    mode_byte: Option<u8>,
) -> AirPodsStatus {
    let left = charge(reports, BatteryPart::Left);
    let right = charge(reports, BatteryPart::Right);
    let mode = match mode_byte {
        Some(b) => listening_mode(b),
        None => None,
    };
    AirPodsStatus {
        left_percent: left,
        right_percent: right,
        average_percent: average(left, right),
        listening_mode: if mode is Some {
            mode
        } else {
            s.listening_mode
        },
        ..s
    }
}

impl AirPodsStatus {
    /// Takes over what the earbuds report: their charges, and the first byte of
    /// their listening mode where they tell one.
    pub fn apply_snapshot(&mut self, reports: &Vec<BatteryReport>, mode_byte: Option<u8>)
        ensures
            *final(self) == reported(*old(self), reports@, mode_byte),
    {
        let mut left: Option<u8> = None;
        let mut right: Option<u8> = None;
        let mut i: usize = 0;
        proof {
            assert(reports@.take(0) =~= Seq::empty());
        }
        while i < reports.len()
            invariant
                i <= reports.len(),
                left == charge(reports@.take(i as int), BatteryPart::Left),
                right == charge(reports@.take(i as int), BatteryPart::Right),
            decreases reports.len() - i,
        {
            proof {
                assert(reports@.take(i + 1).drop_last() =~= reports@.take(i as int));
            }
            let report = reports[i];
            if !report.disconnected {
                let level: u8 = if report.level > 100 {
                    100
                } else {
                    report.level
                };
                match report.part {
                    BatteryPart::Left => {
                        left = Some(level);
                    },
                    BatteryPart::Right => {
                        right = Some(level);
                    },
                    BatteryPart::Other => {},
                }
            }
            i += 1;
        }
        proof {
            assert(reports@.take(i as int) =~= reports@);
        }
        let mode = match mode_byte {
            Some(byte) => AirPodsListeningMode::from_byte(byte),
            None => None,
        };
        self.left_percent = left;
        self.right_percent = right;
        self.average_percent = battery_average(left, right);
        if mode.is_some() {
            self.listening_mode = mode;
        }
    }

    /// Notes a failure.
    pub fn set_error(&mut self, message: String)
        ensures
            *final(self) == (AirPodsStatus { ready: false, message: Some(message), ..*old(self) }),
    {
        self.ready = false;
        self.message = Some(message);
    }
}

/// How long after an attempt to connect the next one is made, in nanoseconds.
pub const RETRY_INTERVAL: u64 = 10_000_000_000;

/// The connection to the earbuds.
#[derive(Debug)]
pub struct AirPodsSession {
    pub status: AirPodsStatus,
    pub address: Option<String>,
    pub connected: bool,
    pub last_attempt: Option<u64>,
}

/// What to do next.
#[derive(Debug)]
pub enum AirPodsStep {
    Connect(String),
    Wait,
}

/// What is to be done with a command.
#[derive(Clone, Copy, Debug, PartialEq, Eq, Structural)]
pub enum CommandStep {
    Send { mode: AirPodsListeningMode, previous: Option<AirPodsListeningMode> },
    Refused,
}

/// Whether an attempt to connect is due.
pub open spec fn attempt_due(last: Option<u64>, now: u64) -> bool {
    match last {
        None => true,
        Some(at) => now - at >= RETRY_INTERVAL,
    }
}

impl AirPodsSession {
    /// A session without earbuds.
    pub fn new() -> (r: Self)
        ensures
            r.status == found(None),
            r.address is None,
            !r.connected,
            r.last_attempt is None,
    {
        AirPodsSession {
            status: AirPodsStatus::default(),
            address: None,
            connected: false,
            last_attempt: None,
        }
    }

    /// Takes note of the earbuds that were discovered. Where they are others
    /// than before all that was known is forgotten, and the connection with it.
    pub fn discovered(&mut self, discovered: Option<String>)
        ensures
            opt_view(discovered) == opt_view(old(self).address) ==> *final(self) == *old(self),
            opt_view(discovered) != opt_view(old(self).address) ==> *final(self) == (
            AirPodsSession {
                status: found(discovered),
                address: discovered,
                connected: false,
                ..*old(self)
            }),
    {
        let unchanged = match (&discovered, &self.address) {
            (Some(a), Some(b)) => same(a.as_str(), b.as_str()),
            (None, None) => true,
            _ => false,
        };
        if !unchanged {
            self.connected = false;
            self.status = AirPodsStatus {
                connected: discovered.is_some(),
                ready: false,
                address: discovered.clone(),
                left_percent: None,
                right_percent: None,
                average_percent: None,
                listening_mode: None,
                message: None,
            };
            self.address = discovered;
        }
    }

    /// Whether to connect now: to earbuds that were discovered and are not
    /// connected to, and not sooner than the interval after the last attempt.
    pub fn next_step(&mut self, now: u64) -> (r: AirPodsStep)
        ensures
            (old(self).address is Some && !old(self).connected && attempt_due(
                old(self).last_attempt,
                now,
            )) ==> r == AirPodsStep::Connect(old(self).address->0) && *final(self) == (
            AirPodsSession { last_attempt: Some(now), ..*old(self) }),
            !(old(self).address is Some && !old(self).connected && attempt_due(
                old(self).last_attempt,
                now,
            )) ==> r is Wait && *final(self) == *old(self),
    {
        let due = match self.last_attempt {
            None => true,
            Some(at) => now >= at && now - at >= RETRY_INTERVAL,
        };
        if !self.connected && due {
            if let Some(address) = self.address.clone() {
                self.last_attempt = Some(now);
                return AirPodsStep::Connect(address);
            }
        }
        AirPodsStep::Wait
    }

    /// Takes note of how an attempt to connect ended.
    pub fn connection_finished(&mut self, outcome: Result<(), String>)
        ensures
            match outcome {
                Ok(_) => *final(self) == (AirPodsSession {
                    connected: true,
                    status: AirPodsStatus { ready: true, message: None, ..old(self).status },
                    ..*old(self)
                }),
                Err(message) => *final(self) == (AirPodsSession {
                    status: AirPodsStatus { ready: false, message: Some(message), ..old(self).status },
                    ..*old(self)
                }),
            },
    {
        match outcome {
            Ok(_) => {
                self.connected = true;
                self.status.ready = true;
                self.status.message = None;
            },
            Err(message) => {
                self.status.set_error(message);
            },
        }
    }

    /// Takes over what the connected earbuds report.
    pub fn apply_snapshot(&mut self, reports: &Vec<BatteryReport>, mode_byte: Option<u8>)
        ensures
            old(self).connected ==> *final(self) == (AirPodsSession {
                status: reported(old(self).status, reports@, mode_byte),
                ..*old(self)
            }),
            !old(self).connected ==> *final(self) == *old(self),
    {
        if self.connected {
            self.status.apply_snapshot(reports, mode_byte);
        }
    }

    /// Starts a command: the mode is shown at once, and the one before is handed
    /// back for the case that the command fails. Without a connection it is
    /// refused.
    pub fn begin_command(&mut self, command: AirPodsCommand) -> (r: CommandStep)
        ensures
            old(self).connected ==> match command {
                AirPodsCommand::SetListeningMode(mode) => {
                    &&& r == CommandStep::Send { mode, previous: old(self).status.listening_mode }
                    &&& *final(self) == (AirPodsSession {
                        status: AirPodsStatus {
                            listening_mode: Some(mode),
                            message: None,
                            ..old(self).status
                        },
                        ..*old(self)
                    })
                },
            },
            !old(self).connected ==> {
                &&& r is Refused
                &&& final(self).status.message is Some
                &&& final(self).status.message->0@ == "AirPodsを準備中です"@
                &&& *final(self) == (AirPodsSession {
                    status: AirPodsStatus {
                        ready: false,
                        message: final(self).status.message,
                        ..old(self).status
                    },
                    ..*old(self)
                })
            },
    {
        if !self.connected {
            self.status.set_error(owned("AirPodsを準備中です"));
            return CommandStep::Refused;
        }
        match command {
            AirPodsCommand::SetListeningMode(mode) => {
                let previous = self.status.listening_mode;
                self.status.listening_mode = Some(mode);
                self.status.message = None;
                CommandStep::Send { mode, previous }
            },
        }
    }

    /// Takes a command back that failed.
    pub fn command_failed(&mut self, previous: Option<AirPodsListeningMode>, error: &str)
        ensures
            final(self).status.message is Some,
            final(self).status.message->0@ == "モードを変更できませんでした: "@ + error@,
            *final(self) == (AirPodsSession {
                status: AirPodsStatus {
                    listening_mode: previous,
                    message: final(self).status.message,
                    ..old(self).status
                },
                ..*old(self)
            }),
    {
        let mut message = owned("モードを変更できませんでした: ");
        message.append(error);
        self.status.listening_mode = previous;
        self.status.message = Some(message);
    }
}

/// The mean lies between the two charges.
pub proof fn law_average_between(left: u8, right: u8)
    ensures
        match average(Some(left), Some(right)) {
            Some(a) => (left <= a <= right || right <= a <= left),
            None => false,
        },
{
}

/// The charges shown are percentages, whatever the earbuds report.
pub proof fn law_charge_is_percentage(reports: Seq<BatteryReport>, part: BatteryPart)
    ensures
        match charge(reports, part) {
            Some(c) => c <= 100,
            None => true,
        },
    decreases reports.len(),
{
    if reports.len() > 0 {
        law_charge_is_percentage(reports.drop_last(), part);
    }
}

/// The charge of a part is what the last report of it says while it is connected, up to
/// a hundred; without such a report it is not known.
pub proof fn law_charge_of_part(reports: Seq<BatteryReport>, part: BatteryPart, at: int)
    requires
        -1 <= at < reports.len(),
        forall|j: int|
            at < j < reports.len() ==> (#[trigger] reports[j]).part != part
                || reports[j].disconnected,
        at >= 0 ==> reports[at].part == part && !reports[at].disconnected,
    ensures
        at < 0 ==> charge(reports, part) is None,
        at >= 0 ==> (charge(reports, part) matches Some(c) && (reports[at].level <= 100 ==> c
            == reports[at].level) && (reports[at].level > 100 ==> c == 100)),
    decreases reports.len(),
{
    if reports.len() > 0 && at < reports.len() - 1 {
        let n = reports.len() - 1;
        assert(reports[n].part != part || reports[n].disconnected);
        law_charge_of_part(reports.drop_last(), part, at);
    }
}

/// The mean is half of the sum, rounded down; with one charge it is that one.
pub proof fn law_average(left: Option<u8>, right: Option<u8>)
    ensures
        left is Some && right is Some ==> (average(left, right) matches Some(a) && 2 * a <= left->0
            + right->0 < 2 * a + 2),
        left is None ==> average(left, right) == right,
        right is None ==> average(left, right) == left,
{
}

/// A report sets the charges of the two earbuds, each from its own reports, and their
/// mean; the mode changes only where a known one is told, and nothing else changes.
pub proof fn law_report(s: AirPodsStatus, reports: Seq<BatteryReport>, mode_byte: Option<u8>)
    ensures
        ({
            let r = reported(s, reports, mode_byte);
            &&& r.left_percent == charge(reports, BatteryPart::Left)
            &&& r.right_percent == charge(reports, BatteryPart::Right)
            &&& r.average_percent == average(r.left_percent, r.right_percent)
            &&& mode_byte is None || mode_byte->0 < 2 || mode_byte->0 > 4 ==> r.listening_mode
                == s.listening_mode
            &&& mode_byte == Some(2u8) ==> r.listening_mode == Some(
                AirPodsListeningMode::NoiseCancellation,
            )
            &&& mode_byte == Some(3u8) ==> r.listening_mode == Some(
                AirPodsListeningMode::Transparency,
            )
            &&& mode_byte == Some(4u8) ==> r.listening_mode == Some(AirPodsListeningMode::Adaptive)
            &&& r.connected == s.connected
            &&& r.ready == s.ready
            &&& r.address == s.address
            &&& r.message == s.message
        }),
{
}

/// A connection is tried at once, and then again ten seconds after the last attempt at the
/// soonest.
pub proof fn law_attempts_wait(last: u64, now: u64)
    ensures
        attempt_due(None, now),
        attempt_due(Some(last), now) <==> now - last >= 10_000_000_000,
{
}

} // verus!
