//! The device control center in the terminal: what keys and clicks do, and the
//! rows of its pages.

use vstd::prelude::*;
use vstd::string::*;

use crate::bytes::{copy_bytes, lossy, lossy_text};
use crate::device_control_center::{bluetooth_device_action, device_action};
use crate::display_settings::moved_layout;
use crate::hyprland::display::{DisplayLayout, Monitor, OutputWallpaper};
use crate::modules::airpods::AirPodsStatus;
use crate::modules::system_controls::{
    BluetoothDevice, ControlAction, ControlSnapshot, WifiNetwork, WifiSecurity,
};
use crate::routes::{DeviceControlCenterPage, DeviceControlCenterRoute};
use crate::text::{
    concat, decimal, decimal_int, decimal_int_text, decimal_text, opt_view, owned, same, views,
};

verus! {

/// A key of the terminal.
#[derive(Clone, Copy, Debug, PartialEq, Eq, Structural)]
pub enum TuiKey {
    Char(char),
    Escape,
    Left,
    Right,
    Up,
    Down,
    Tab,
    BackTab,
    Enter,
    Other,
}

/// A part of the terminal.
#[derive(Clone, Copy, Debug, PartialEq, Eq, Structural)]
pub struct Area {
    pub x: u16,
    pub y: u16,
    pub width: u16,
    pub height: u16,
}

/// The device control center in the terminal.
pub struct TerminalControlCenter {
    pub page: DeviceControlCenterPage,
    pub focus: usize,
    pub snapshot: ControlSnapshot,
    pub layout: Option<DisplayLayout>,
    pub selected_monitor: usize,
    pub message: Option<String>,
    pub mouse_rows: Area,
}

/// What is to be done.
#[derive(Debug)]
pub enum TuiStep {
    Nothing,
    /// End.
    Quit,
    /// Look for what the page shows.
    Discover,
    /// Do something with the machine.
    Act(ControlAction),
    /// Apply the layout.
    ApplyLayout,
    /// Read the layout again.
    ReloadLayout,
}

/// What a key asks for.
#[derive(Clone, Copy, Debug, PartialEq, Eq, Structural)]
pub enum KeyMeaning {
    Quit,
    Page(DeviceControlCenterPage),
    Move,
    FocusNext,
    FocusPrevious,
    Activate,
    Reload,
    Nothing,
}

/// What a key asks for. On the page of displays the arrows move the monitor once
/// the focus has left the first row; elsewhere they move the focus.
pub open spec fn meaning(
    key: TuiKey,
    control: bool,
    page: DeviceControlCenterPage,
    focus: nat,
) -> KeyMeaning {
    let arrow = key == TuiKey::Left || key == TuiKey::Right || key == TuiKey::Up || key
        == TuiKey::Down;
    if key == TuiKey::Char('q') || key == TuiKey::Escape || (key == TuiKey::Char('c') && control) {
        KeyMeaning::Quit
    } else if key == TuiKey::Char('1') {
        KeyMeaning::Page(DeviceControlCenterPage::Network)
    } else if key == TuiKey::Char('2') {
        KeyMeaning::Page(DeviceControlCenterPage::Bluetooth)
    } else if key == TuiKey::Char('3') {
        KeyMeaning::Page(DeviceControlCenterPage::Display)
    } else if arrow && page == DeviceControlCenterPage::Display && focus > 0 {
        KeyMeaning::Move
    } else if key == TuiKey::Tab || key == TuiKey::Down || key == TuiKey::Char('j') {
        KeyMeaning::FocusNext
    } else if key == TuiKey::BackTab || key == TuiKey::Up || key == TuiKey::Char('k') {
        KeyMeaning::FocusPrevious
    } else if key == TuiKey::Enter || key == TuiKey::Char(' ') {
        KeyMeaning::Activate
    } else if key == TuiKey::Char('r') && page == DeviceControlCenterPage::Display {
        KeyMeaning::Reload
    } else {
        KeyMeaning::Nothing
    }
}

/// What a key asks for.
pub fn key_meaning(key: TuiKey, control: bool, page: DeviceControlCenterPage, focus: usize) -> (r:
    KeyMeaning)
    ensures
        r == meaning(key, control, page, focus as nat),
{
    let arrow = key == TuiKey::Left || key == TuiKey::Right || key == TuiKey::Up || key
        == TuiKey::Down;
    if key == TuiKey::Char('q') || key == TuiKey::Escape || (key == TuiKey::Char('c') && control) {
        KeyMeaning::Quit
    } else if key == TuiKey::Char('1') {
        KeyMeaning::Page(DeviceControlCenterPage::Network)
    } else if key == TuiKey::Char('2') {
        KeyMeaning::Page(DeviceControlCenterPage::Bluetooth)
    } else if key == TuiKey::Char('3') {
        KeyMeaning::Page(DeviceControlCenterPage::Display)
    } else if arrow && page == DeviceControlCenterPage::Display && focus > 0 {
        KeyMeaning::Move
    } else if key == TuiKey::Tab || key == TuiKey::Down || key == TuiKey::Char('j') {
        KeyMeaning::FocusNext
    } else if key == TuiKey::BackTab || key == TuiKey::Up || key == TuiKey::Char('k') {
        KeyMeaning::FocusPrevious
    } else if key == TuiKey::Enter || key == TuiKey::Char(' ') {
        KeyMeaning::Activate
    } else if key == TuiKey::Char('r') && page == DeviceControlCenterPage::Display {
        KeyMeaning::Reload
    } else {
        KeyMeaning::Nothing
    }
}

/// How far a key moves a monitor: a little with control, far with shift.
pub open spec fn step_length(control: bool, shift: bool) -> int {
    if control {
        1
    } else if shift {
        100
    } else {
        10
    }
}

/// Where a key moves something to.
pub open spec fn stepped(key: TuiKey, step: int, x: int, y: int) -> (int, int) {
    match key {
        TuiKey::Left => (x - step, y),
        TuiKey::Right => (x + step, y),
        TuiKey::Up => (x, y - step),
        _ => (x, y + step),
    }
}

/// Whether a number is a coordinate.
pub open spec fn is_coordinate(n: int) -> bool {
    i32::MIN <= n <= i32::MAX
}

/// The page of a tab at a column.
pub open spec fn tab_at(column: u16) -> DeviceControlCenterPage {
    if column <= 19 {
        DeviceControlCenterPage::Network
    } else if column <= 39 {
        DeviceControlCenterPage::Bluetooth
    } else {
        DeviceControlCenterPage::Display
    }
}

/// Whether a place is within an area.
pub open spec fn within(area: Area, column: u16, row: u16) -> bool {
    &&& area.x <= column < end_of(area.x, area.width)
    &&& area.y <= row < end_of(area.y, area.height)
}

/// Where what begins somewhere and has a length ends, within the terminal's
/// numbers.
pub open spec fn end_of(start: u16, length: u16) -> int {
    if start + length > u16::MAX {
        u16::MAX as int
    } else {
        start + length
    }
}

/// Where what begins somewhere and has a length ends.
fn end_at(start: u16, length: u16) -> (r: u16)
    ensures
        r == end_of(start, length),
{
    if length > u16::MAX - start {
        u16::MAX
    } else {
        start + length
    }
}

/// What choosing the row in the focus does.
pub open spec fn activated(
    before: TerminalControlCenter,
    after: TerminalControlCenter,
    r: TuiStep,
) -> bool {
    match before.page {
        DeviceControlCenterPage::Network => if before.focus == 0 {
            r == TuiStep::Act(ControlAction::ToggleWifi) && after == before
        } else if before.focus - 1 < before.snapshot.wifi_networks@.len() {
            connects(before, after, r, before.snapshot.wifi_networks@[before.focus - 1])
        } else {
            r is Nothing && after == before
        },
        DeviceControlCenterPage::Bluetooth => {
            &&& after == before
            &&& if before.focus == 0 {
                r == TuiStep::Act(ControlAction::ToggleBluetooth)
            } else if before.focus - 1 < before.snapshot.bluetooth_devices@.len() {
                r == TuiStep::Act(
                    device_action(before.snapshot.bluetooth_devices@[before.focus - 1]),
                )
            } else {
                r is Nothing
            }
        },
        DeviceControlCenterPage::Display => if before.focus == 0 {
            r is ApplyLayout && after == before
        } else {
            &&& r is Nothing
            &&& after == (TerminalControlCenter {
                selected_monitor: (before.focus - 1) as usize,
                ..before
            })
        },
    }
}

/// What connecting to a network does: one that needs a password is not connected
/// to, and that is said.
pub open spec fn connects(
    before: TerminalControlCenter,
    after: TerminalControlCenter,
    r: TuiStep,
    network: WifiNetwork,
) -> bool {
    if network.security == WifiSecurity::Personal && !network.saved {
        &&& r is Nothing
        &&& opt_view(after.message) == Some(
            network.label@
                + " はパスワードが必要です。TUIのパスワード入力は次の更新で追加されます。"@,
        )
        &&& after == (TerminalControlCenter { message: after.message, ..before })
    } else {
        &&& after == before
        &&& r matches TuiStep::Act(ControlAction::ConnectWifi { ssid, password }) && ssid@
            == network.ssid@ && password is None
    }
}

/// The control center with another page, from its first row.
pub open spec fn on_page(
    c: TerminalControlCenter,
    page: DeviceControlCenterPage,
) -> TerminalControlCenter {
    TerminalControlCenter { page, focus: 0, ..c }
}

impl TerminalControlCenter {
    /// A control center that shows a route.
    pub fn new(route: DeviceControlCenterRoute, layout: Option<DisplayLayout>) -> (r: Self)
        ensures
            r.page == route.page,
            r.focus == 0,
            crate::modules::system_controls::nothing_known(r.snapshot),
            r.layout == layout,
            r.selected_monitor == 0,
            opt_view(r.message) == match route.ssid {
                Some(ssid) => Some("指定されたネットワーク: "@ + lossy(ssid@)),
                None => None,
            },
            r.mouse_rows == (Area { x: 0, y: 0, width: 0, height: 0 }),
    {
        TerminalControlCenter {
            page: route.page,
            focus: 0,
            snapshot: ControlSnapshot::default(),
            layout,
            selected_monitor: 0,
            message: match &route.ssid {
                Some(ssid) => Some(
                    concat("指定されたネットワーク: ", lossy_text(ssid).as_str()),
                ),
                None => None,
            },
            mouse_rows: Area { x: 0, y: 0, width: 0, height: 0 },
        }
    }

    /// Shows a page from its first row.
    pub fn set_page(&mut self, page: DeviceControlCenterPage)
        ensures
            *final(self) == on_page(*old(self), page),
    {
        self.page = page;
        self.focus = 0;
    }

    /// What a key does.
    pub fn key(&mut self, key: TuiKey, control: bool, shift: bool) -> (r: TuiStep)
        ensures
            match meaning(key, control, old(self).page, old(self).focus as nat) {
                KeyMeaning::Quit => r is Quit && *final(self) == *old(self),
                KeyMeaning::Page(page) => r is Discover && *final(self) == on_page(
                    *old(self),
                    page,
                ),
                KeyMeaning::Move => r is Nothing && monitor_stepped(
                    *old(self),
                    *final(self),
                    key,
                    control,
                    shift,
                ),
                KeyMeaning::FocusNext => r is Nothing && *final(self) == (TerminalControlCenter {
                    focus: if old(self).focus == usize::MAX {
                        usize::MAX
                    } else {
                        (old(self).focus + 1) as usize
                    },
                    ..*old(self)
                }),
                KeyMeaning::FocusPrevious => r is Nothing && *final(self) == (
                TerminalControlCenter {
                    focus: if old(self).focus == 0 {
                        0
                    } else {
                        (old(self).focus - 1) as usize
                    },
                    ..*old(self)
                }),
                KeyMeaning::Activate => activated(*old(self), *final(self), r),
                KeyMeaning::Reload => r is ReloadLayout && *final(self) == *old(self),
                KeyMeaning::Nothing => r is Nothing && *final(self) == *old(self),
            },
    {
        match key_meaning(key, control, self.page, self.focus) {
            KeyMeaning::Quit => TuiStep::Quit,
            KeyMeaning::Page(page) => {
                self.set_page(page);
                TuiStep::Discover
            },
            KeyMeaning::Move => {
                self.move_monitor(key, control, shift);
                TuiStep::Nothing
            },
            KeyMeaning::FocusNext => {
                if self.focus < usize::MAX {
                    self.focus = self.focus + 1;
                }
                TuiStep::Nothing
            },
            KeyMeaning::FocusPrevious => {
                if self.focus > 0 {
                    self.focus = self.focus - 1;
                }
                TuiStep::Nothing
            },
            KeyMeaning::Activate => self.activate(),
            KeyMeaning::Reload => TuiStep::ReloadLayout,
            KeyMeaning::Nothing => TuiStep::Nothing,
        }
    }

    /// What a click does: on the row of the tabs it shows a page, and on a row of
    /// the page it chooses that row.
    pub fn mouse(&mut self, column: u16, row: u16) -> (r: TuiStep)
        ensures
            row == 1 ==> r is Discover && *final(self) == on_page(*old(self), tab_at(column)),
            row != 1 && within(old(self).mouse_rows, column, row) ==> activated(
                TerminalControlCenter {
                    focus: (row - old(self).mouse_rows.y) as usize,
                    ..*old(self)
                },
                *final(self),
                r,
            ),
            row != 1 && !within(old(self).mouse_rows, column, row) ==> r is Nothing && *final(self)
                == *old(self),
    {
        if row == 1 {
            self.set_page(
                if column <= 19 {
                    DeviceControlCenterPage::Network
                } else if column <= 39 {
                    DeviceControlCenterPage::Bluetooth
                } else {
                    DeviceControlCenterPage::Display
                },
            );
            return TuiStep::Discover;
        }
        let area = self.mouse_rows;
        let right: u16 = end_at(area.x, area.width);
        let bottom: u16 = end_at(area.y, area.height);
        if area.x <= column && column < right && area.y <= row && row < bottom {
            self.focus = (row - area.y) as usize;
            return self.activate();
        }
        TuiStep::Nothing
    }

    /// Chooses the row in the focus.
    pub fn activate(&mut self) -> (r: TuiStep)
        ensures
            activated(*old(self), *final(self), r),
    {
        match self.page {
            DeviceControlCenterPage::Network => {
                if self.focus == 0 {
                    return TuiStep::Act(ControlAction::ToggleWifi);
                }
                let at = self.focus - 1;
                if at >= self.snapshot.wifi_networks.len() {
                    return TuiStep::Nothing;
                }
                let network = &self.snapshot.wifi_networks[at];
                if network.security == WifiSecurity::Personal && !network.saved {
                    let message = concat(
                        network.label.as_str(),
                        " はパスワードが必要です。TUIのパスワード入力は次の更新で追加されます。",
                    );
                    self.message = Some(message);
                    TuiStep::Nothing
                } else {
                    TuiStep::Act(
                        ControlAction::ConnectWifi {
                            ssid: copy_bytes(&network.ssid),
                            password: None,
                        },
                    )
                }
            },
            DeviceControlCenterPage::Bluetooth => {
                if self.focus == 0 {
                    return TuiStep::Act(ControlAction::ToggleBluetooth);
                }
                let at = self.focus - 1;
                if at >= self.snapshot.bluetooth_devices.len() {
                    return TuiStep::Nothing;
                }
                TuiStep::Act(bluetooth_device_action(&self.snapshot.bluetooth_devices[at]))
            },
            DeviceControlCenterPage::Display => {
                if self.focus == 0 {
                    TuiStep::ApplyLayout
                } else {
                    self.selected_monitor = self.focus - 1;
                    TuiStep::Nothing
                }
            },
        }
    }

    /// Moves the selected monitor by a key.
    fn move_monitor(&mut self, key: TuiKey, control: bool, shift: bool)
        ensures
            monitor_stepped(*old(self), *final(self), key, control, shift),
    {
        let at = self.selected_monitor;
        let layout = self.layout.take();
        if let Some(mut layout) = layout {
            if at < layout.monitors.len() {
                let step: i64 = if control {
                    1
                } else if shift {
                    100
                } else {
                    10
                };
                let mut x: i64 = layout.monitors[at].x as i64;
                let mut y: i64 = layout.monitors[at].y as i64;
                match key {
                    TuiKey::Left => {
                        x = x - step;
                    },
                    TuiKey::Right => {
                        x = x + step;
                    },
                    TuiKey::Up => {
                        y = y - step;
                    },
                    _ => {
                        y = y + step;
                    },
                }
                if i32::MIN as i64 <= x && x <= i32::MAX as i64 && i32::MIN as i64 <= y && y
                    <= i32::MAX as i64 {
                    let name = layout.monitors[at].name.clone();
                    layout.move_monitor(name.as_str(), x as i32, y as i32);
                }
            }
            self.layout = Some(layout);
        }
    }

    /// Shows how applying the layout ended, or that there is none.
    pub fn layout_applied(&mut self, outcome: Option<Result<(), String>>)
        ensures
            opt_view(final(self).message) == Some(
                match outcome {
                    Some(Ok(_)) => "ディスプレイ設定を適用しました"@,
                    Some(Err(e)) => "適用できません: "@ + e@,
                    None => "モニター情報を取得できません"@,
                },
            ),
            *final(self) == (TerminalControlCenter {
                message: final(self).message,
                ..*old(self)
            }),
    {
        self.message = Some(
            match outcome {
                Some(Ok(_)) => owned("ディスプレイ設定を適用しました"),
                Some(Err(error)) => concat("適用できません: ", error.as_str()),
                None => owned("モニター情報を取得できません"),
            },
        );
    }
}

/// The control center after its monitor was moved by a key: against whatever is
/// near; one that is not there, or would leave the coordinates, stays.
pub open spec fn monitor_stepped(
    before: TerminalControlCenter,
    after: TerminalControlCenter,
    key: TuiKey,
    control: bool,
    shift: bool,
) -> bool {
    match before.layout {
        None => after == before,
        Some(layout) => {
            let at = before.selected_monitor as int;
            if at >= layout.monitors@.len() {
                after == before
            } else {
                let m = layout.monitors@[at];
                let to = stepped(key, step_length(control, shift), m.x as int, m.y as int);
                if is_coordinate(to.0) && is_coordinate(to.1) {
                    &&& after.layout is Some
                    &&& moved_layout(after.layout->0, layout, m.name@, to.0, to.1)
                    &&& after == (TerminalControlCenter { layout: after.layout, ..before })
                } else {
                    after == before
                }
            }
        },
    }
}

/// A switch as a row.
pub open spec fn switch_row(on: bool, title: Seq<char>) -> Seq<char> {
    "["@ + (if on {
        "on"@
    } else {
        "off"@
    }) + "] "@ + title
}

/// A switch as a row.
fn switch_text(on: bool, title: &str) -> (r: String)
    ensures
        r@ == switch_row(on, title@),
{
    let mut out = owned("[");
    out.append(
        if on {
            "on"
        } else {
            "off"
        },
    );
    out.append("] ");
    out.append(title);
    out
}

/// A network as a row.
pub open spec fn network_row(n: WifiNetwork) -> Seq<char> {
    n.label@ + "  "@ + decimal(n.strength as nat) + "%"@ + (if n.connected {
        "  connected"@
    } else {
        ""@
    })
}

/// The rows of the page of networks: the switch, and the networks.
pub open spec fn network_page(s: ControlSnapshot) -> Seq<Seq<char>> {
    seq![switch_row(s.wifi.enabled, "Wi-Fi"@)] + s.wifi_networks@.map_values(
        |n: WifiNetwork| network_row(n),
    )
}

/// The rows of the page of networks.
pub fn network_rows(snapshot: &ControlSnapshot) -> (r: Vec<String>)
    ensures
        views(r@) == network_page(*snapshot),
{
    let networks = &snapshot.wifi_networks;
    let mut rows: Vec<String> = Vec::new();
    rows.push(switch_text(snapshot.wifi.enabled, "Wi-Fi"));
    let ghost all = network_page(*snapshot);
    let mut i: usize = 0;
    proof {
        assert(views(rows@) =~= all.take(1));
    }
    while i < networks.len()
        invariant
            i <= networks.len(),
            networks@ == snapshot.wifi_networks@,
            all == network_page(*snapshot),
            views(rows@) == all.take(i + 1),
        decreases networks.len() - i,
    {
        let network = &networks[i];
        let mut row = concat(network.label.as_str(), "  ");
        row.append(decimal_text(network.strength as u64).as_str());
        row.append("%");
        row.append(
            if network.connected {
                "  connected"
            } else {
                ""
            },
        );
        let ghost before = rows@;
        rows.push(row);
        proof {
            assert(row@ == network_row(networks@[i as int]));
            assert(all[i + 1] == row@);
            assert(views(rows@) =~= views(before).push(row@));
            assert(all.take(i + 2) =~= all.take(i + 1).push(all[i + 1]));
        }
        i += 1;
    }
    proof {
        assert(all.take(i + 1) =~= all);
    }
    rows
}

/// A device as a row.
pub open spec fn device_row(d: BluetoothDevice) -> Seq<char> {
    d.label@ + "  "@ + (if d.connected {
        "connected (Enter: disconnect)"@
    } else if d.paired {
        "paired (Enter: connect)"@
    } else {
        "Enter: pair"@
    })
}

/// The earbuds as a row.
pub open spec fn airpods_row(s: AirPodsStatus) -> Seq<char> {
    "AirPods: L "@ + decimal(
        match s.left_percent {
            Some(p) => p as nat,
            None => 0,
        },
    ) + "% / R "@ + decimal(
        match s.right_percent {
            Some(p) => p as nat,
            None => 0,
        },
    ) + "%"@
}

/// The rows of the page of Bluetooth: the switch, the devices, and the earbuds
/// where they are connected.
pub open spec fn bluetooth_page(s: ControlSnapshot) -> Seq<Seq<char>> {
    let rows = seq![switch_row(s.bluetooth.enabled, "Bluetooth"@)]
        + s.bluetooth_devices@.map_values(|d: BluetoothDevice| device_row(d));
    if s.airpods.connected {
        rows.push(airpods_row(s.airpods))
    } else {
        rows
    }
}

/// The rows of the page of Bluetooth.
pub fn bluetooth_rows(snapshot: &ControlSnapshot) -> (r: Vec<String>)
    ensures
        views(r@) == bluetooth_page(*snapshot),
{
    let devices = &snapshot.bluetooth_devices;
    let mut rows: Vec<String> = Vec::new();
    rows.push(switch_text(snapshot.bluetooth.enabled, "Bluetooth"));
    let ghost all = seq![switch_row(snapshot.bluetooth.enabled, "Bluetooth"@)]
        + devices@.map_values(|d: BluetoothDevice| device_row(d));
    let mut i: usize = 0;
    proof {
        assert(views(rows@) =~= all.take(1));
    }
    while i < devices.len()
        invariant
            i <= devices.len(),
            all == seq![switch_row(snapshot.bluetooth.enabled, "Bluetooth"@)]
                + devices@.map_values(|d: BluetoothDevice| device_row(d)),
            views(rows@) == all.take(i + 1),
        decreases devices.len() - i,
    {
        let device = &devices[i];
        let mut row = concat(device.label.as_str(), "  ");
        row.append(
            if device.connected {
                "connected (Enter: disconnect)"
            } else if device.paired {
                "paired (Enter: connect)"
            } else {
                "Enter: pair"
            },
        );
        let ghost before = rows@;
        rows.push(row);
        proof {
            assert(row@ == device_row(devices@[i as int]));
            assert(all[i + 1] == row@);
            assert(views(rows@) =~= views(before).push(row@));
            assert(all.take(i + 2) =~= all.take(i + 1).push(all[i + 1]));
        }
        i += 1;
    }
    proof {
        assert(all.take(i + 1) =~= all);
    }
    if snapshot.airpods.connected {
        let left: u8 = match snapshot.airpods.left_percent {
            Some(percent) => percent,
            None => 0,
        };
        let right: u8 = match snapshot.airpods.right_percent {
            Some(percent) => percent,
            None => 0,
        };
        let mut row = concat("AirPods: L ", decimal_text(left as u64).as_str());
        row.append("% / R ");
        row.append(decimal_text(right as u64).as_str());
        row.append("%");
        let ghost before = rows@;
        rows.push(row);
        proof {
            assert(views(rows@) =~= views(before).push(row@));
        }
    }
    rows
}

/// A monitor as a row.
pub open spec fn monitor_row(m: Monitor, main: Seq<char>) -> Seq<char> {
    m.name@ + ": "@ + decimal_int(m.width as int) + "×"@ + decimal_int(m.height as int) + " @ "@
        + decimal_int(m.x as int) + ","@ + decimal_int(m.y as int) + (if m.name@ == main {
        " ★"@
    } else {
        ""@
    })
}

/// The rows of the page of displays: what applies the layout, and the monitors.
pub open spec fn display_page(layout: Option<DisplayLayout>) -> Seq<Seq<char>> {
    match layout {
        Some(l) => seq!["Apply display layout"@] + l.monitors@.map_values(
            |m: Monitor| monitor_row(m, l.main@),
        ),
        None => seq!["No Hyprland monitor data"@],
    }
}

/// The rows of the page of displays.
pub fn display_rows(layout: &Option<DisplayLayout>) -> (r: Vec<String>)
    ensures
        views(r@) == display_page(*layout),
{
    let mut rows: Vec<String> = Vec::new();
    let layout = match layout {
        None => {
            rows.push(owned("No Hyprland monitor data"));
            proof {
                assert(views(rows@) =~= seq!["No Hyprland monitor data"@]);
            }
            return rows;
        },
        Some(layout) => layout,
    };
    let ghost all = display_page(Some(*layout));
    rows.push(owned("Apply display layout"));
    let mut i: usize = 0;
    proof {
        assert(views(rows@) =~= all.take(1));
    }
    while i < layout.monitors.len()
        invariant
            i <= layout.monitors.len(),
            all == display_page(Some(*layout)),
            views(rows@) == all.take(i + 1),
        decreases layout.monitors.len() - i,
    {
        let monitor = &layout.monitors[i];
        let mut row = concat(monitor.name.as_str(), ": ");
        row.append(decimal_int_text(monitor.width as i64).as_str());
        row.append("×");
        row.append(decimal_int_text(monitor.height as i64).as_str());
        row.append(" @ ");
        row.append(decimal_int_text(monitor.x as i64).as_str());
        row.append(",");
        row.append(decimal_int_text(monitor.y as i64).as_str());
        row.append(
            if same(monitor.name.as_str(), layout.main.as_str()) {
                " ★"
            } else {
                ""
            },
        );
        let ghost before = rows@;
        rows.push(row);
        proof {
            assert(row@ == monitor_row(layout.monitors@[i as int], layout.main@));
            assert(all[i + 1] == row@);
            assert(views(rows@) =~= views(before).push(row@));
            assert(all.take(i + 2) =~= all.take(i + 1).push(all[i + 1]));
        }
        i += 1;
    }
    proof {
        assert(all.take(i + 1) =~= all);
    }
    rows
}

/// The part of a list that its rows take, within its frame.
pub fn list_rows(area: &Area) -> (r: Area)
    requires
        area.x < u16::MAX,
        area.y < u16::MAX - 1,
    ensures
        r.x == area.x + 1,
        r.y == area.y + 2,
        r.width == (if area.width >= 2 {
            area.width - 2
        } else {
            0
        }),
        r.height == (if area.height >= 2 {
            area.height - 2
        } else {
            0
        }),
{
    Area {
        x: area.x + 1,
        y: area.y + 2,
        width: if area.width >= 2 {
            area.width - 2
        } else {
            0
        },
        height: if area.height >= 2 {
            area.height - 2
        } else {
            0
        },
    }
}

/// The wallpaper that is previewed: the shared one, or else that of the first
/// output.
pub fn preview_source(shared: Option<String>, outputs: &Vec<OutputWallpaper>) -> (r: Option<String>)
    ensures
        opt_view(r) == match shared {
            Some(path) => Some(path@),
            None => if outputs@.len() > 0 {
                Some(outputs@[0].path@)
            } else {
                None
            },
        },
{
    match shared {
        Some(path) => Some(path),
        None => if outputs.len() > 0 {
            Some(outputs[0].path.clone())
        } else {
            None
        },
    }
}

/// The line at the bottom: what the keys do, and what there is to say.
pub fn help_line(message: &Option<String>) -> (r: String)
    ensures
        r@ == "1-3: tab  ↑↓/j/k: select  Enter: action  q: close"@ + match message {
            Some(m) => "  |  "@ + m@,
            None => ""@,
        },
{
    let mut out = owned("1-3: tab  ↑↓/j/k: select  Enter: action  q: close");
    let tail = match message {
        Some(message) => concat("  |  ", message.as_str()),
        None => owned(""),
    };
    out.append(tail.as_str());
    out
}

/// A key and the one against it lead to where one was.
pub proof fn law_steps_there_and_back(step: int, x: int, y: int)
    ensures
        ({
            let right = stepped(TuiKey::Right, step, x, y);
            let down = stepped(TuiKey::Down, step, x, y);
            &&& stepped(TuiKey::Left, step, right.0, right.1) == (x, y)
            &&& stepped(TuiKey::Up, step, down.0, down.1) == (x, y)
        }),
{
}

/// The keys mean the same on every page, but for the arrows, which move a monitor once
/// the focus is on one, and the key that reads the monitors anew.
pub proof fn law_keys(control: bool, page: DeviceControlCenterPage, focus: nat)
    ensures
        meaning(TuiKey::Char('q'), control, page, focus) is Quit,
        meaning(TuiKey::Escape, control, page, focus) is Quit,
        meaning(TuiKey::Char('c'), true, page, focus) is Quit,
        !(meaning(TuiKey::Char('c'), false, page, focus) is Quit),
        meaning(TuiKey::Char('1'), control, page, focus) == KeyMeaning::Page(
            DeviceControlCenterPage::Network,
        ),
        meaning(TuiKey::Char('2'), control, page, focus) == KeyMeaning::Page(
            DeviceControlCenterPage::Bluetooth,
        ),
        meaning(TuiKey::Char('3'), control, page, focus) == KeyMeaning::Page(
            DeviceControlCenterPage::Display,
        ),
        meaning(TuiKey::Tab, control, page, focus) is FocusNext,
        meaning(TuiKey::Char('j'), control, page, focus) is FocusNext,
        meaning(TuiKey::BackTab, control, page, focus) is FocusPrevious,
        meaning(TuiKey::Char('k'), control, page, focus) is FocusPrevious,
        meaning(TuiKey::Enter, control, page, focus) is Activate,
        meaning(TuiKey::Char(' '), control, page, focus) is Activate,
        page == DeviceControlCenterPage::Display <==> meaning(
            TuiKey::Char('r'),
            control,
            page,
            focus,
        ) is Reload,
        page == DeviceControlCenterPage::Display && focus > 0 ==> {
            &&& meaning(TuiKey::Left, control, page, focus) is Move
            &&& meaning(TuiKey::Right, control, page, focus) is Move
            &&& meaning(TuiKey::Up, control, page, focus) is Move
            &&& meaning(TuiKey::Down, control, page, focus) is Move
        },
        page != DeviceControlCenterPage::Display || focus == 0 ==> {
            &&& meaning(TuiKey::Down, control, page, focus) is FocusNext
            &&& meaning(TuiKey::Up, control, page, focus) is FocusPrevious
            &&& meaning(TuiKey::Left, control, page, focus) is Nothing
            &&& meaning(TuiKey::Right, control, page, focus) is Nothing
        },
{
}

/// An arrow leads in its direction, by the length of a step, and to neither side: ten
/// pixels, one with control, and a hundred with shift.
pub proof fn law_steps_of_arrows(control: bool, shift: bool, x: int, y: int)
    ensures
        ({
            let n = step_length(control, shift);
            &&& control ==> n == 1
            &&& !control && shift ==> n == 100
            &&& !control && !shift ==> n == 10
            &&& stepped(TuiKey::Left, n, x, y) == (x - n, y)
            &&& stepped(TuiKey::Right, n, x, y) == (x + n, y)
            &&& stepped(TuiKey::Up, n, x, y) == (x, y - n)
            &&& stepped(TuiKey::Down, n, x, y) == (x, y + n)
        }),
{
}

/// A place is within an area where it is none of the edges short of it: from its first
/// column and row up to, and without, where it ends.
pub proof fn law_within_area(area: Area, column: u16, row: u16)
    requires
        area.x + area.width <= u16::MAX,
        area.y + area.height <= u16::MAX,
    ensures
        within(area, column, row) <==> 0 <= column - area.x < area.width && 0 <= row - area.y
            < area.height,
{
}

/// The rows of a page stand for what they show: the first for the switch, and the one
/// behind each number for the network or device of that number.
pub proof fn law_rows_of_pages(s: ControlSnapshot, i: int)
    ensures
        network_page(s).len() == s.wifi_networks@.len() + 1,
        network_page(s)[0] == switch_row(s.wifi.enabled, "Wi-Fi"@),
        bluetooth_page(s)[0] == switch_row(s.bluetooth.enabled, "Bluetooth"@),
        bluetooth_page(s).len() == s.bluetooth_devices@.len() + (if s.airpods.connected {
            2int
        } else {
            1int
        }),
        0 <= i < s.wifi_networks@.len() ==> s.wifi_networks@[i].label@.is_prefix_of(
            network_page(s)[i + 1],
        ),
        0 <= i < s.bluetooth_devices@.len() ==> s.bluetooth_devices@[i].label@.is_prefix_of(
            bluetooth_page(s)[i + 1],
        ),
        0 <= i < s.wifi_networks@.len() && s.wifi_networks@[i].connected
            ==> "  connected"@.is_suffix_of(network_page(s)[i + 1]),
{
    if 0 <= i < s.wifi_networks@.len() {
        let l = s.wifi_networks@[i].label@;
        let r = network_page(s)[i + 1];
        assert(r == network_row(s.wifi_networks@[i]));
        assert(l =~= r.subrange(0, l.len() as int));
        if s.wifi_networks@[i].connected {
            let t = "  connected"@;
            assert(t =~= r.subrange(r.len() - t.len(), r.len() as int));
        }
    }
    if 0 <= i < s.bluetooth_devices@.len() {
        let l = s.bluetooth_devices@[i].label@;
        let r = bluetooth_page(s)[i + 1];
        assert(r == device_row(s.bluetooth_devices@[i]));
        assert(l =~= r.subrange(0, l.len() as int));
    }
}

/// Choosing a row acts on what the row shows: on the switch, or on the network or device
/// of that row. A secured network that is new is not connected to.
pub proof fn law_chosen_row(before: TerminalControlCenter, after: TerminalControlCenter, r: TuiStep)
    requires
        activated(before, after, r),
    ensures
        before.page is Network && before.focus == 0 ==> r == TuiStep::Act(ControlAction::ToggleWifi),
        before.page is Bluetooth && before.focus == 0 ==> r == TuiStep::Act(
            ControlAction::ToggleBluetooth,
        ),
        before.page is Display && before.focus == 0 ==> r is ApplyLayout,
        before.page is Network && 0 < before.focus <= before.snapshot.wifi_networks@.len() ==> {
            let n = before.snapshot.wifi_networks@[before.focus - 1];
            if n.security is Personal && !n.saved {
                r is Nothing && after.message is Some
            } else {
                r matches TuiStep::Act(ControlAction::ConnectWifi { ssid, password }) && ssid@
                    == n.ssid@
            }
        },
        before.page is Bluetooth && 0 < before.focus <= before.snapshot.bluetooth_devices@.len()
            ==> r == TuiStep::Act(
            device_action(before.snapshot.bluetooth_devices@[before.focus - 1]),
        ),
        after.snapshot == before.snapshot && after.page == before.page && after.focus
            == before.focus,
{
}

/// The tabs stand side by side, twenty columns each for the first two.
pub proof fn law_tabs(column: u16)
    ensures
        tab_at(column) is Network <==> column < 20,
        tab_at(column) is Bluetooth <==> 20 <= column < 40,
        tab_at(column) is Display <==> column >= 40,
{
}

/// A key moves the selected monitor by its step, against whatever is near, and nothing
/// but the layout changes; where it would leave the coordinates it stays.
pub proof fn law_monitor_is_moved(
    before: TerminalControlCenter,
    after: TerminalControlCenter,
    key: TuiKey,
    control: bool,
    shift: bool,
)
    requires
        monitor_stepped(before, after, key, control, shift),
    ensures
        after.page == before.page && after.focus == before.focus && after.snapshot
            == before.snapshot && after.selected_monitor == before.selected_monitor,
        before.layout is None ==> after == before,
        before.layout matches Some(layout) ==> {
            let at = before.selected_monitor as int;
            &&& at >= layout.monitors@.len() ==> after == before
            &&& at < layout.monitors@.len() ==> {
                let m = layout.monitors@[at];
                let n: int = if control {
                    1
                } else if shift {
                    100
                } else {
                    10
                };
                let x = m.x + (if key is Right {
                    n
                } else if key is Left {
                    -n
                } else {
                    0
                });
                let y = m.y + (if key is Up {
                    -n
                } else if key is Left || key is Right {
                    0
                } else {
                    n
                });
                i32::MIN <= x <= i32::MAX && i32::MIN <= y <= i32::MAX ==> after.layout is Some
                    && moved_layout(after.layout->0, layout, m.name@, x, y)
            }
        },
{
}

/// Another page begins at its first row.
pub proof fn law_other_page(c: TerminalControlCenter, page: DeviceControlCenterPage)
    ensures
        on_page(c, page).page == page,
        on_page(c, page).focus == 0,
        on_page(c, page).snapshot == c.snapshot && on_page(c, page).layout == c.layout,
{
}

/// Each monitor has a row that begins with its name; the main one alone is marked.
pub proof fn law_rows_of_monitors(layout: DisplayLayout, i: int)
    requires
        0 <= i < layout.monitors@.len(),
    ensures
        display_page(Some(layout)).len() == layout.monitors@.len() + 1,
        layout.monitors@[i].name@.is_prefix_of(display_page(Some(layout))[i + 1]),
        layout.monitors@[i].name@ == layout.main@ ==> " ★"@.is_suffix_of(
            display_page(Some(layout))[i + 1],
        ),
        layout.monitors@[i].name@ != layout.main@ ==> decimal_int(
            layout.monitors@[i].y as int,
        ).is_suffix_of(display_page(Some(layout))[i + 1]),
        display_page(None).len() == 1,
{
    let m = layout.monitors@[i];
    let r = display_page(Some(layout))[i + 1];
    reveal_strlit("");
    assert(r == monitor_row(m, layout.main@));
    assert(m.name@ =~= r.subrange(0, m.name@.len() as int));
    if m.name@ == layout.main@ {
        let s = " ★"@;
        assert(s =~= r.subrange(r.len() - s.len(), r.len() as int));
    } else {
        let y = decimal_int(m.y as int);
        assert(""@.len() == 0);
        assert(y =~= r.subrange(r.len() - y.len(), r.len() as int));
    }
}

} // verus!
