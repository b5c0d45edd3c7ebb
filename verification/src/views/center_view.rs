//! What the device control center shows: its pages and its dialogs.

use vstd::prelude::*;
use vstd::string::*;

use crate::bytes::{copy_bytes, is_bytes, opt_bytes};
use crate::device_control_center::{
    bluetooth_group, compact_known_panel_height, confirm_label, default_route_badge,
    device_is_known, device_status, device_status_label, field_number, idle_and_saved,
    idle_networks, instruction, is_ipv4_field, operation, operation_of, pairing_instruction, requires_input, shown_value,
    BluetoothOperation, BluetoothPairingDialog, DeviceControlCenter, InputField, Modal,
    NetworkDetails,
};
use crate::display_settings::{
    monitor_label, own_wallpaper, position_label, resolution_label, wallpaper_label,
    wallpaper_label_of, DisplaySettings,
};
use crate::hyprland::display::{any_overlap, named, Monitor};
use crate::modules::airpods::{AirPodsListeningMode, AirPodsStatus};
use crate::modules::system_controls::{
    network_views, ActiveNetwork, BluetoothDevice, BluetoothPairingPrompt, ControlSnapshot,
    WifiNetwork, WifiNetworkView,
};
use crate::seqs::find_first;
use crate::text::{concat, decimal, decimal_int, decimal_text, opt_view, owned, same};

verus! {

/// A connected network as a row, with the default routes that go through it.
pub struct ActiveRow {
    pub label: String,
    pub badge: Option<&'static str>,
}

/// The default routes that go through a network.
pub open spec fn badge_of(n: ActiveNetwork) -> Option<Seq<char>> {
    if n.default_ipv4 && n.default_ipv6 {
        Some("✓ IPv4 / IPv6"@)
    } else if n.default_ipv4 {
        Some("✓ IPv4"@)
    } else if n.default_ipv6 {
        Some("✓ IPv6"@)
    } else {
        None
    }
}

/// Whether a row is that of a connected network.
pub open spec fn active_row_of(r: ActiveRow, n: ActiveNetwork) -> bool {
    &&& r.label@ == n.label@
    &&& match r.badge {
        Some(badge) => badge_of(n) == Some(badge@),
        None => badge_of(n) is None,
    }
}

/// A network that is not connected as a row.
pub struct NetworkRow {
    pub ssid: Vec<u8>,
    pub label: String,
    pub selected: bool,
}

/// Whether a row is that of a network.
pub open spec fn network_row_of(r: NetworkRow, n: WifiNetworkView, selected: Option<Seq<u8>>) -> bool {
    &&& r.ssid@ == n.ssid
    &&& r.label@ == n.label
    &&& r.selected == (selected == Some(n.ssid))
}

/// The page of networks.
pub struct NetworkPage {
    pub wifi_on: bool,
    pub active: Vec<ActiveRow>,
    pub saved: Vec<NetworkRow>,
    pub other: Vec<NetworkRow>,
}

/// Whether rows are those of the networks that are not connected, in order.
pub open spec fn rows_of_networks(
    rows: Seq<NetworkRow>,
    networks: Seq<WifiNetworkView>,
    selected: Option<Seq<u8>>,
) -> bool {
    &&& rows.len() == networks.len()
    &&& forall|i: int|
        0 <= i < rows.len() ==> network_row_of(#[trigger] rows[i], networks[i], selected)
}

/// The rows of some networks.
fn network_rows(networks: &Vec<WifiNetwork>, selected: &Option<Vec<u8>>) -> (r: Vec<NetworkRow>)
    ensures
        rows_of_networks(r@, network_views(networks@), opt_bytes(*selected)),
{
    let ghost all = network_views(networks@);
    let mut rows: Vec<NetworkRow> = Vec::new();
    let mut i: usize = 0;
    while i < networks.len()
        invariant
            i <= networks.len(),
            all == network_views(networks@),
            rows@.len() == i,
            forall|j: int|
                0 <= j < i ==> network_row_of(#[trigger] rows@[j], all[j], opt_bytes(*selected)),
        decreases networks.len() - i,
    {
        let network = &networks[i];
        proof {
            assert(all[i as int] == networks@[i as int]@);
        }
        rows.push(
            NetworkRow {
                ssid: copy_bytes(&network.ssid),
                label: network.label.clone(),
                selected: is_bytes(selected, &network.ssid),
            },
        );
        i += 1;
    }
    rows
}

/// The page of networks: the switch, those that are connected and those that were
/// once, and the others.
pub fn network_page(center: &DeviceControlCenter) -> (r: NetworkPage)
    ensures
        r.wifi_on == center.snapshot.wifi.enabled,
        r.active@.len() == center.snapshot.active_networks@.len(),
        forall|i: int|
            0 <= i < r.active@.len() ==> active_row_of(
                #[trigger] r.active@[i],
                center.snapshot.active_networks@[i],
            ),
        rows_of_networks(
            r.saved@,
            network_views(center.snapshot.wifi_networks@).filter(idle_and_saved(true)),
            opt_bytes(center.selected_ssid),
        ),
        rows_of_networks(
            r.other@,
            network_views(center.snapshot.wifi_networks@).filter(idle_and_saved(false)),
            opt_bytes(center.selected_ssid),
        ),
{
    let networks = &center.snapshot.active_networks;
    let mut active: Vec<ActiveRow> = Vec::new();
    let mut i: usize = 0;
    while i < networks.len()
        invariant
            i <= networks.len(),
            networks@ == center.snapshot.active_networks@,
            active@.len() == i,
            forall|j: int| 0 <= j < i ==> active_row_of(#[trigger] active@[j], networks@[j]),
        decreases networks.len() - i,
    {
        active.push(
            ActiveRow {
                label: networks[i].label.clone(),
                badge: default_route_badge(&networks[i]),
            },
        );
        i += 1;
    }
    let saved = idle_networks(&center.snapshot.wifi_networks, true);
    let other = idle_networks(&center.snapshot.wifi_networks, false);
    NetworkPage {
        wifi_on: center.snapshot.wifi.enabled,
        active,
        saved: network_rows(&saved, &center.selected_ssid),
        other: network_rows(&other, &center.selected_ssid),
    }
}

/// A field of an address as a row.
#[derive(Clone, Copy)]
pub struct IpRow {
    pub label: &'static str,
    pub field: InputField,
    pub enabled: bool,
}

/// The label and the field of each row of an address.
pub open spec fn ip_fields(ipv6: bool) -> Seq<(Seq<char>, InputField)> {
    if ipv6 {
        seq![
            ("アドレス"@, InputField::Ipv6Address),
            ("サブネットプレフィックスの長さ"@, InputField::Ipv6Prefix),
            ("ゲートウェイ"@, InputField::Ipv6Gateway),
            ("優先DNS"@, InputField::Ipv6PrimaryDns),
            ("代替DNS"@, InputField::Ipv6SecondaryDns),
        ]
    } else {
        seq![
            ("アドレス"@, InputField::Ipv4Address),
            ("サブネットマスク"@, InputField::Ipv4Subnet),
            ("ゲートウェイ"@, InputField::Ipv4Gateway),
            ("優先DNS"@, InputField::Ipv4PrimaryDns),
            ("代替DNS"@, InputField::Ipv4SecondaryDns),
        ]
    }
}

/// The rows of an address, which can be typed into unless it is automatic.
pub fn ip_rows(ipv6: bool, automatic: bool) -> (r: Vec<IpRow>)
    ensures
        r@.map_values(|row: IpRow| (row.label@, row.field)) == ip_fields(ipv6),
        forall|i: int| 0 <= i < r@.len() ==> (#[trigger] r@[i]).enabled == !automatic,
{
    let enabled = !automatic;
    let rows: Vec<IpRow> = if ipv6 {
        vec![
            IpRow { label: "アドレス", field: InputField::Ipv6Address, enabled },
            IpRow { label: "サブネットプレフィックスの長さ", field: InputField::Ipv6Prefix, enabled },
            IpRow { label: "ゲートウェイ", field: InputField::Ipv6Gateway, enabled },
            IpRow { label: "優先DNS", field: InputField::Ipv6PrimaryDns, enabled },
            IpRow { label: "代替DNS", field: InputField::Ipv6SecondaryDns, enabled },
        ]
    } else {
        vec![
            IpRow { label: "アドレス", field: InputField::Ipv4Address, enabled },
            IpRow { label: "サブネットマスク", field: InputField::Ipv4Subnet, enabled },
            IpRow { label: "ゲートウェイ", field: InputField::Ipv4Gateway, enabled },
            IpRow { label: "優先DNS", field: InputField::Ipv4PrimaryDns, enabled },
            IpRow { label: "代替DNS", field: InputField::Ipv4SecondaryDns, enabled },
        ]
    };
    proof {
        assert(rows@.map_values(|row: IpRow| (row.label@, row.field)) =~= ip_fields(ipv6));
    }
    rows
}

/// A device as a row.
pub struct DeviceRow {
    pub path: String,
    pub label: String,
    pub status: String,
    pub connected: bool,
    pub busy: bool,
}

/// Whether a row is that of a device.
pub open spec fn device_row_of(
    r: DeviceRow,
    d: BluetoothDevice,
    operations: Seq<BluetoothOperation>,
) -> bool {
    let under_way = operation(operations, d.path@);
    &&& r.path@ == d.path@
    &&& r.label@ == d.label@
    &&& r.status@ == device_status(d, under_way) + match d.rssi {
        Some(rssi) => " "@ + decimal_int(rssi as int) + " dBm"@,
        None => ""@,
    }
    &&& r.connected == d.connected
    &&& r.busy == (under_way is Some)
}

/// Whether rows are those of some devices, in order.
pub open spec fn rows_of_devices(
    rows: Seq<DeviceRow>,
    devices: Seq<BluetoothDevice>,
    operations: Seq<BluetoothOperation>,
) -> bool {
    &&& rows.len() == devices.len()
    &&& forall|i: int|
        0 <= i < rows.len() ==> device_row_of(#[trigger] rows[i], devices[i], operations)
}

/// The rows of some devices.
fn device_rows(devices: &Vec<BluetoothDevice>, operations: &Vec<BluetoothOperation>) -> (r: Vec<
    DeviceRow,
>)
    ensures
        rows_of_devices(r@, devices@, operations@),
{
    let mut rows: Vec<DeviceRow> = Vec::new();
    let mut i: usize = 0;
    while i < devices.len()
        invariant
            i <= devices.len(),
            rows@.len() == i,
            forall|j: int|
                0 <= j < i ==> device_row_of(#[trigger] rows@[j], devices@[j], operations@),
        decreases devices.len() - i,
    {
        let device = &devices[i];
        let under_way = operation_of(operations, device.path.as_str());
        rows.push(
            DeviceRow {
                path: device.path.clone(),
                label: device.label.clone(),
                status: device_status_label(device, under_way),
                connected: device.connected,
                busy: under_way.is_some(),
            },
        );
        i += 1;
    }
    rows
}

/// The devices of the page of Bluetooth.
pub struct BluetoothPanels {
    /// Whether the earbuds have a card.
    pub airpods: bool,
    pub known: Vec<DeviceRow>,
    pub other: Vec<DeviceRow>,
    /// How high the list of known devices is, where none is connected.
    pub known_height: Option<u32>,
    pub known_note: Option<&'static str>,
    pub other_note: Option<&'static str>,
}

/// The page of Bluetooth.
pub struct BluetoothPage {
    pub on: bool,
    pub available: bool,
    pub message: Option<String>,
    pub note: Option<&'static str>,
    pub panels: Option<BluetoothPanels>,
}

/// The text of something that may be said.
pub open spec fn said(note: Option<&'static str>) -> Option<Seq<char>> {
    match note {
        Some(text) => Some(text@),
        None => None,
    }
}

/// Whether some device is connected.
pub open spec fn any_connected(devices: Seq<BluetoothDevice>) -> bool {
    exists|i: int| 0 <= i < devices.len() && (#[trigger] devices[i]).connected
}

/// Whether panels are those of what is known: the devices that were paired or are
/// connected, and the others.
pub open spec fn panels_of(
    p: BluetoothPanels,
    s: ControlSnapshot,
    operations: Seq<BluetoothOperation>,
) -> bool {
    let known = s.bluetooth_devices@.filter(device_is_known(true));
    let other = s.bluetooth_devices@.filter(device_is_known(false));
    &&& p.airpods == s.airpods.connected
    &&& rows_of_devices(p.known@, known, operations)
    &&& rows_of_devices(p.other@, other, operations)
    &&& p.known_height == if any_connected(known) {
        None::<u32>
    } else {
        Some(
            (96 + (if known.len() > 3 {
                3
            } else {
                known.len() as int
            }) * 52) as u32,
        )
    }
    &&& said(p.known_note) == if known.len() == 0 {
        Some("なし"@)
    } else {
        None
    }
    &&& said(p.other_note) == if other.len() == 0 {
        Some("周辺のデバイスを検索中…"@)
    } else {
        None
    }
}

/// Whether some device of a list is connected.
fn has_connected(devices: &Vec<BluetoothDevice>) -> (r: bool)
    ensures
        r == any_connected(devices@),
{
    let mut i: usize = 0;
    while i < devices.len()
        invariant
            i <= devices.len(),
            forall|j: int| 0 <= j < i ==> !(#[trigger] devices@[j]).connected,
        decreases devices.len() - i,
    {
        if devices[i].connected {
            return true;
        }
        i += 1;
    }
    false
}

/// The page of Bluetooth: its devices where it is on, and otherwise why there are
/// none.
pub fn bluetooth_page(center: &DeviceControlCenter) -> (r: BluetoothPage)
    ensures
        r.on == center.snapshot.bluetooth.enabled,
        r.available == center.snapshot.bluetooth.available,
        opt_view(r.message) == opt_view(center.bluetooth_message),
        said(r.note) == if !center.snapshot.bluetooth.available {
            Some("Bluetoothは利用できません"@)
        } else if !center.snapshot.bluetooth.enabled {
            Some("Bluetoothはオフです"@)
        } else {
            None
        },
        match r.panels {
            Some(panels) => {
                &&& center.snapshot.bluetooth.available && center.snapshot.bluetooth.enabled
                &&& panels_of(panels, center.snapshot, center.bluetooth_operations@)
            },
            None => !(center.snapshot.bluetooth.available && center.snapshot.bluetooth.enabled),
        },
{
    let snapshot = &center.snapshot;
    let available = snapshot.bluetooth.available;
    let on = snapshot.bluetooth.enabled;
    let note: Option<&'static str> = if !available {
        Some("Bluetoothは利用できません")
    } else if !on {
        Some("Bluetoothはオフです")
    } else {
        None
    };
    let panels = if available && on {
        let known = bluetooth_group(&snapshot.bluetooth_devices, true);
        let other = bluetooth_group(&snapshot.bluetooth_devices, false);
        Some(
            BluetoothPanels {
                airpods: snapshot.airpods.connected,
                known: device_rows(&known, &center.bluetooth_operations),
                other: device_rows(&other, &center.bluetooth_operations),
                known_height: if has_connected(&known) {
                    None
                } else {
                    Some(compact_known_panel_height(known.len()))
                },
                known_note: if known.len() == 0 {
                    Some("なし")
                } else {
                    None
                },
                other_note: if other.len() == 0 {
                    Some("周辺のデバイスを検索中…")
                } else {
                    None
                },
            },
        )
    } else {
        None
    };
    BluetoothPage { on, available, message: center.bluetooth_message.clone(), note, panels }
}

/// A button that chooses a listening mode.
#[derive(Clone, Copy)]
pub struct ModeButton {
    pub id: &'static str,
    pub label: &'static str,
    pub glyph: &'static str,
    pub mode: AirPodsListeningMode,
    pub selected: bool,
}

/// The identity, the label, the glyph and the mode of each button.
pub open spec fn mode_choices() -> Seq<(Seq<char>, Seq<char>, Seq<char>, AirPodsListeningMode)> {
    seq![
        (
            "transparency"@,
            "外音取り込み"@,
            "\u{f07c5}"@,
            AirPodsListeningMode::Transparency,
        ),
        ("adaptive"@, "アダプティブ"@, "\u{f2a2}"@, AirPodsListeningMode::Adaptive),
        (
            "noise-cancellation"@,
            "ノイズキャンセリング"@,
            "\u{f0a45}"@,
            AirPodsListeningMode::NoiseCancellation,
        ),
    ]
}

/// The buttons that choose a listening mode; the one in use is selected.
pub fn mode_buttons(mode: Option<AirPodsListeningMode>) -> (r: Vec<ModeButton>)
    ensures
        r@.map_values(|b: ModeButton| (b.id@, b.label@, b.glyph@, b.mode)) == mode_choices(),
        forall|i: int|
            0 <= i < r@.len() ==> (#[trigger] r@[i]).selected == (mode == Some(r@[i].mode)),
{
    let transparency = mode == Some(AirPodsListeningMode::Transparency);
    let adaptive = mode == Some(AirPodsListeningMode::Adaptive);
    let cancellation = mode == Some(AirPodsListeningMode::NoiseCancellation);
    let buttons: Vec<ModeButton> = vec![
        ModeButton {
            id: "transparency",
            label: "外音取り込み",
            glyph: "\u{f07c5}",
            mode: AirPodsListeningMode::Transparency,
            selected: transparency,
        },
        ModeButton {
            id: "adaptive",
            label: "アダプティブ",
            glyph: "\u{f2a2}",
            mode: AirPodsListeningMode::Adaptive,
            selected: adaptive,
        },
        ModeButton {
            id: "noise-cancellation",
            label: "ノイズキャンセリング",
            glyph: "\u{f0a45}",
            mode: AirPodsListeningMode::NoiseCancellation,
            selected: cancellation,
        },
    ];
    proof {
        assert(buttons@.map_values(|b: ModeButton| (b.id@, b.label@, b.glyph@, b.mode))
            =~= mode_choices());
    }
    buttons
}

/// What the earbuds have to say: their message, or that they are not ready.
pub open spec fn earbuds_note(s: AirPodsStatus) -> Option<Seq<char>> {
    match s.message {
        Some(message) => Some(message@),
        None => if s.ready {
            None
        } else {
            Some("AirPodsを準備中…"@)
        },
    }
}

/// What the earbuds have to say.
pub fn airpods_note(status: &AirPodsStatus) -> (r: Option<String>)
    ensures
        opt_view(r) == earbuds_note(*status),
{
    match &status.message {
        Some(message) => Some(message.clone()),
        None => {
            if status.ready {
                None
            } else {
                Some(owned("AirPodsを準備中…"))
            }
        },
    }
}

/// An earbud and its charge.
pub open spec fn earbud(side: Seq<char>, percent: Option<u8>) -> Seq<char> {
    side + "  "@ + match percent {
        Some(p) => decimal(p as nat) + "%"@,
        None => "—%"@,
    }
}

/// An earbud and its charge.
fn earbud_text(side: &str, percent: Option<u8>) -> (r: String)
    ensures
        r@ == earbud(side@, percent),
{
    let charge = match percent {
        Some(percent) => concat(decimal_text(percent as u64).as_str(), "%"),
        None => owned("—%"),
    };
    let mut out = concat(side, "  ");
    out.append(charge.as_str());
    out
}

/// The card of the earbuds.
pub struct AirPodsCard {
    pub left: String,
    pub right: String,
    pub ready: bool,
    pub buttons: Vec<ModeButton>,
    pub note: Option<String>,
}

/// The card of the earbuds.
pub fn airpods_card(status: &AirPodsStatus) -> (r: AirPodsCard)
    ensures
        r.left@ == earbud("L"@, status.left_percent),
        r.right@ == earbud("R"@, status.right_percent),
        r.ready == status.ready,
        r.buttons@.map_values(|b: ModeButton| (b.id@, b.label@, b.glyph@, b.mode))
            == mode_choices(),
        forall|i: int|
            0 <= i < r.buttons@.len() ==> (#[trigger] r.buttons@[i]).selected == (
            status.listening_mode == Some(r.buttons@[i].mode)),
        opt_view(r.note) == earbuds_note(*status),
{
    AirPodsCard {
        left: earbud_text("L", status.left_percent),
        right: earbud_text("R", status.right_percent),
        ready: status.ready,
        buttons: mode_buttons(status.listening_mode),
        note: airpods_note(status),
    }
}

/// A monitor in the preview of the displays.
pub struct MonitorTile {
    pub label: String,
    pub position: String,
    pub selected: bool,
    pub main: bool,
}

/// Whether a tile is that of a monitor.
pub open spec fn tile_of(
    r: MonitorTile,
    m: Monitor,
    main: Seq<char>,
    selected: Option<Seq<char>>,
) -> bool {
    &&& r.label@ == if m.name@ == main {
        m.name@ + " ★"@
    } else {
        m.name@
    }
    &&& r.position@ == decimal_int(m.x as int) + " × "@ + decimal_int(m.y as int)
    &&& r.selected == (selected == Some(m.name@))
    &&& r.main == (m.name@ == main)
}

/// The monitor that is selected.
pub struct SelectedMonitor {
    pub name: String,
    pub resolution: String,
    pub position: String,
    pub main: bool,
    pub wallpaper: String,
}

/// Whether that is what is shown of a monitor.
pub open spec fn selected_of(r: SelectedMonitor, m: Monitor, s: DisplaySettings, main: Seq<char>) -> bool {
    &&& r.name@ == m.name@
    &&& r.resolution@ == m.name@ + "  "@ + decimal_int(m.width as int) + "×"@ + decimal_int(
        m.height as int,
    )
    &&& r.position@ == "位置: "@ + (decimal_int(m.x as int) + " × "@ + decimal_int(m.y as int))
    &&& r.main == (m.name@ == main)
    &&& r.wallpaper@ == wallpaper_label_of(own_wallpaper(s.wallpapers@, m.name@))
}

/// The page of displays.
pub enum DisplayPage {
    /// There is nothing to show, and why.
    Missing(String),
    Shown {
        tiles: Vec<MonitorTile>,
        selected: Option<SelectedMonitor>,
        overlap: Option<&'static str>,
        message: Option<String>,
        can_apply: bool,
        apply_label: &'static str,
    },
}

/// The tiles of some monitors.
fn monitor_tiles(monitors: &Vec<Monitor>, main: &str, selected: &Option<String>) -> (r: Vec<
    MonitorTile,
>)
    ensures
        r@.len() == monitors@.len(),
        forall|i: int|
            0 <= i < r@.len() ==> tile_of(
                #[trigger] r@[i],
                monitors@[i],
                main@,
                opt_view(*selected),
            ),
{
    let mut tiles: Vec<MonitorTile> = Vec::new();
    let mut i: usize = 0;
    while i < monitors.len()
        invariant
            i <= monitors.len(),
            tiles@.len() == i,
            forall|j: int|
                0 <= j < i ==> tile_of(
                    #[trigger] tiles@[j],
                    monitors@[j],
                    main@,
                    opt_view(*selected),
                ),
        decreases monitors.len() - i,
    {
        let monitor = &monitors[i];
        let chosen = match selected {
            Some(name) => same(name.as_str(), monitor.name.as_str()),
            None => false,
        };
        tiles.push(
            MonitorTile {
                label: monitor_label(monitor, main),
                position: position_label(monitor),
                selected: chosen,
                main: same(monitor.name.as_str(), main),
            },
        );
        i += 1;
    }
    tiles
}

/// The page of displays: the monitors, the selected one, and whether the layout
/// can be applied.
pub fn display_page(settings: &DisplaySettings) -> (r: DisplayPage)
    ensures
        match (settings.layout, r) {
            (None, DisplayPage::Missing(text)) => text@ == match settings.message {
                Some(message) => message@,
                None => "モニター情報を取得できません。Hyprland上で実行してください。"@,
            },
            (
                Some(layout),
                DisplayPage::Shown { tiles, selected, overlap, message, can_apply, apply_label },
            ) => {
                let chosen = match settings.selected {
                    Some(name) => find_first(layout.monitors@, named(name@)),
                    None => None,
                };
                &&& tiles@.len() == layout.monitors@.len()
                &&& forall|i: int|
                    0 <= i < tiles@.len() ==> tile_of(
                        #[trigger] tiles@[i],
                        layout.monitors@[i],
                        layout.main@,
                        opt_view(settings.selected),
                    )
                &&& match chosen {
                    Some(m) => selected matches Some(shown) && selected_of(
                        shown,
                        m,
                        *settings,
                        layout.main@,
                    ),
                    None => selected is None,
                }
                &&& said(overlap) == if any_overlap(layout.monitors@) {
                    Some("モニターが重なっています。適用前に分離してください。"@)
                } else {
                    None
                }
                &&& opt_view(message) == opt_view(settings.message)
                &&& can_apply == (!any_overlap(layout.monitors@) && !settings.applying)
                &&& apply_label@ == if settings.applying {
                    "適用中…"@
                } else {
                    "適用"@
                }
            },
            _ => false,
        },
{
    match &settings.layout {
        None => DisplayPage::Missing(
            match &settings.message {
                Some(message) => message.clone(),
                None => owned("モニター情報を取得できません。Hyprland上で実行してください。"),
            },
        ),
        Some(layout) => {
            let tiles = monitor_tiles(
                &layout.monitors,
                layout.main.as_str(),
                &settings.selected,
            );
            let selected = match &settings.selected {
                Some(name) => match layout.monitor(name.as_str()) {
                    Some(monitor) => Some(
                        SelectedMonitor {
                            name: monitor.name.clone(),
                            resolution: resolution_label(monitor),
                            position: concat("位置: ", position_label(monitor).as_str()),
                            main: same(monitor.name.as_str(), layout.main.as_str()),
                            wallpaper: wallpaper_label(
                                &settings.wallpapers,
                                monitor.name.as_str(),
                            ),
                        },
                    ),
                    None => None,
                },
                None => None,
            };
            let overlaps = layout.overlaps();
            DisplayPage::Shown {
                tiles,
                selected,
                overlap: if overlaps {
                    Some("モニターが重なっています。適用前に分離してください。")
                } else {
                    None
                },
                message: settings.message.clone(),
                can_apply: !overlaps && !settings.applying,
                apply_label: if settings.applying {
                    "適用中…"
                } else {
                    "適用"
                },
            }
        },
    }
}

/// The dialog of a pairing.
pub struct PairingView {
    pub device: String,
    pub instruction: String,
    /// What was typed, where something is to be typed.
    pub input: Option<String>,
    pub can_cancel: bool,
    pub confirm: &'static str,
}

/// The dialog of a pairing: what is only displayed cannot be cancelled.
pub fn pairing_view(dialog: &BluetoothPairingDialog) -> (r: PairingView)
    ensures
        r.device@ == dialog.device_label@,
        r.instruction@ == instruction(dialog.prompt),
        opt_view(r.input) == if dialog.prompt is PinCode || dialog.prompt is Passkey {
            Some(dialog.pin_code@)
        } else {
            None
        },
        r.can_cancel == !(dialog.prompt is DisplayPinCode || dialog.prompt is DisplayPasskey),
        r.confirm@ == confirm_label(dialog.prompt),
{
    let (text, confirm) = pairing_instruction(&dialog.prompt);
    PairingView {
        device: dialog.device_label.clone(),
        instruction: text,
        input: if requires_input(&dialog.prompt) {
            Some(dialog.pin_code.clone())
        } else {
            None
        },
        can_cancel: match &dialog.prompt {
            BluetoothPairingPrompt::DisplayPinCode { .. } => false,
            BluetoothPairingPrompt::DisplayPasskey { .. } => false,
            _ => true,
        },
        confirm,
    }
}

/// The dialog with the details of a network.
pub struct DetailsView {
    pub label: String,
    pub speed: String,
    pub can_save: bool,
    pub save_label: &'static str,
    pub ipv4: Vec<IpRow>,
    pub ipv6: Vec<IpRow>,
    pub message: Option<String>,
}

/// The dialog with the details of a network, whose speed is written already where
/// it is known.
pub fn details_view(details: &NetworkDetails, speed: Option<&str>) -> (r: DetailsView)
    ensures
        r.label@ == details.network.label@,
        r.speed@ == "リンクスピード: "@ + match speed {
            Some(text) => text@,
            None => "利用不可"@,
        },
        r.can_save == !details.saving,
        r.save_label@ == if details.saving {
            "…"@
        } else {
            "✓"@
        },
        r.ipv4@.map_values(|row: IpRow| (row.label@, row.field)) == ip_fields(false),
        forall|i: int|
            0 <= i < r.ipv4@.len() ==> (#[trigger] r.ipv4@[i]).enabled
                == !details.settings.ipv4.automatic,
        r.ipv6@.map_values(|row: IpRow| (row.label@, row.field)) == ip_fields(true),
        forall|i: int|
            0 <= i < r.ipv6@.len() ==> (#[trigger] r.ipv6@[i]).enabled
                == !details.settings.ipv6.automatic,
        opt_view(r.message) == opt_view(details.message),
{
    DetailsView {
        label: details.network.label.clone(),
        speed: concat(
            "リンクスピード: ",
            match speed {
                Some(text) => text,
                None => "利用不可",
            },
        ),
        can_save: !details.saving,
        save_label: if details.saving {
            "…"
        } else {
            "✓"
        },
        ipv4: ip_rows(false, details.settings.ipv4.automatic),
        ipv6: ip_rows(true, details.settings.ipv6.automatic),
        message: details.message.clone(),
    }
}

/// A dialog before the pages.
pub enum ModalView {
    /// A password is asked for.
    Password {
        network: String,
        input: String,
        focused: bool,
        message: Option<String>,
        connect_label: &'static str,
    },
    /// Saving the settings of a network is confirmed.
    ConfirmNetworkSettings,
}

/// The dialog before the pages, where there is one: a password is masked, and
/// asked for where it is empty.
pub fn modal_view(center: &DeviceControlCenter) -> (r: Option<ModalView>)
    ensures
        match (center.modal, r) {
            (None, None) => true,
            (Some(Modal::ConfirmNetworkSettings), Some(ModalView::ConfirmNetworkSettings)) => true,
            (
                Some(Modal::Password { network, password, message, connecting }),
                Some(
                    ModalView::Password {
                        network: label,
                        input,
                        focused,
                        message: said_so,
                        connect_label,
                    },
                ),
            ) => {
                &&& label@ == network.label@
                &&& input@ == if password@.len() == 0 {
                    "パスワード"@
                } else {
                    shown_value(*center, InputField::Password)
                }
                &&& focused == (center.active_input == Some(InputField::Password))
                &&& opt_view(said_so) == opt_view(message)
                &&& connect_label@ == if connecting {
                    "接続中…"@
                } else {
                    "接続"@
                }
            },
            _ => false,
        },
{
    proof {
        reveal_strlit("");
        if let Some(Modal::Password { password, .. }) = &center.modal {
            if password@.len() == 0 {
                assert(password@ =~= ""@);
            }
        }
    }
    match &center.modal {
        None => None,
        Some(Modal::ConfirmNetworkSettings) => Some(ModalView::ConfirmNetworkSettings),
        Some(Modal::Password { network, password, message, connecting }) => Some(
            ModalView::Password {
                network: network.label.clone(),
                input: if same(password.as_str(), "") {
                    owned("パスワード")
                } else {
                    center.input_value(InputField::Password)
                },
                focused: center.active_input == Some(InputField::Password),
                message: message.clone(),
                connect_label: if *connecting {
                    "接続中…"
                } else {
                    "接続"
                },
            },
        ),
    }
}

/// A connected network is marked with the default routes that go through it, and with
/// no others.
pub proof fn law_marks_of_connected_network(r: ActiveRow, n: ActiveNetwork)
    requires
        active_row_of(r, n),
    ensures
        r.label@ == n.label@,
        r.badge is None <==> !n.default_ipv4 && !n.default_ipv6,
        n.default_ipv4 && n.default_ipv6 ==> (r.badge->0)@ == "✓ IPv4 / IPv6"@,
        n.default_ipv4 && !n.default_ipv6 ==> (r.badge->0)@ == "✓ IPv4"@,
        !n.default_ipv4 && n.default_ipv6 ==> (r.badge->0)@ == "✓ IPv6"@,
{
}

/// The rows of networks stand for them in order, and the selected one alone is marked.
pub proof fn law_rows_of_networks(
    rows: Seq<NetworkRow>,
    networks: Seq<WifiNetworkView>,
    selected: Option<Seq<u8>>,
    i: int,
)
    requires
        rows_of_networks(rows, networks, selected),
        0 <= i < networks.len(),
    ensures
        rows.len() == networks.len(),
        rows[i].ssid@ == networks[i].ssid,
        rows[i].label@ == networks[i].label,
        rows[i].selected <==> selected is Some && selected->0 == networks[i].ssid,
{
    assert(network_row_of(rows[i], networks[i], selected));
}

/// The rows of devices stand for them in order; one is busy while something is done with
/// it, and only then.
pub proof fn law_rows_of_devices(
    rows: Seq<DeviceRow>,
    devices: Seq<BluetoothDevice>,
    operations: Seq<BluetoothOperation>,
    i: int,
)
    requires
        rows_of_devices(rows, devices, operations),
        0 <= i < devices.len(),
    ensures
        rows.len() == devices.len(),
        rows[i].path@ == devices[i].path@,
        rows[i].label@ == devices[i].label@,
        rows[i].connected == devices[i].connected,
        rows[i].busy <==> operation(operations, devices[i].path@) is Some,
        device_status(devices[i], operation(operations, devices[i].path@)).is_prefix_of(
            rows[i].status@,
        ),
{
    assert(device_row_of(rows[i], devices[i], operations));
    let d = device_status(devices[i], operation(operations, devices[i].path@));
    assert(d =~= rows[i].status@.subrange(0, d.len() as int));
}

/// The panels show every device once: what was paired or is connected in the first, and
/// the rest in the second; a panel without devices says so.
pub proof fn law_panels_show_devices(
    p: BluetoothPanels,
    s: ControlSnapshot,
    operations: Seq<BluetoothOperation>,
)
    requires
        panels_of(p, s, operations),
    ensures
        p.airpods == s.airpods.connected,
        p.known@.len() == s.bluetooth_devices@.filter(device_is_known(true)).len(),
        p.other@.len() == s.bluetooth_devices@.filter(device_is_known(false)).len(),
        p.known_note is Some <==> p.known@.len() == 0,
        p.other_note is Some <==> p.other@.len() == 0,
        p.known_height is None <==> any_connected(
            s.bluetooth_devices@.filter(device_is_known(true)),
        ),
        p.known_height matches Some(h) ==> 96 <= h <= 252,
{
}

/// A monitor is drawn with its name, and a star where it is the main one, and with where
/// it lies; the selected one alone is marked.
pub proof fn law_tile_of_monitor(
    r: MonitorTile,
    m: Monitor,
    main: Seq<char>,
    selected: Option<Seq<char>>,
)
    requires
        tile_of(r, m, main, selected),
    ensures
        r.main <==> m.name@ == main,
        r.main ==> r.label@ == m.name@ + " ★"@,
        !r.main ==> r.label@ == m.name@,
        r.selected <==> selected is Some && selected->0 == m.name@,
        r.position@ == decimal_int(m.x as int) + " × "@ + decimal_int(m.y as int),
{
}

/// What is shown of the selected monitor is that monitor's: its name, its size, where it
/// lies, and its wallpaper.
pub proof fn law_selected_monitor(
    r: SelectedMonitor,
    m: Monitor,
    s: DisplaySettings,
    main: Seq<char>,
)
    requires
        selected_of(r, m, s, main),
    ensures
        r.name@ == m.name@,
        m.name@.is_prefix_of(r.resolution@),
        decimal_int(m.height as int).is_suffix_of(r.resolution@),
        decimal_int(m.y as int).is_suffix_of(r.position@),
        r.main <==> m.name@ == main,
        r.wallpaper@ == wallpaper_label_of(own_wallpaper(s.wallpapers@, m.name@)),
{
    let t = r.resolution@;
    let n = m.name@;
    let h = decimal_int(m.height as int);
    assert(n =~= t.subrange(0, n.len() as int));
    assert(h =~= t.subrange(t.len() - h.len(), t.len() as int));
    let q = r.position@;
    let y = decimal_int(m.y as int);
    assert(y =~= q.subrange(q.len() - y.len(), q.len() as int));
}

/// The earbuds say what went wrong, else that they are not ready, and else nothing; of
/// each the charge is told where it is known.
pub proof fn law_what_earbuds_say(s: AirPodsStatus, side: Seq<char>, percent: u8)
    ensures
        s.message matches Some(m) ==> earbuds_note(s) == Some(m@),
        s.message is None && s.ready ==> earbuds_note(s) is None,
        s.message is None && !s.ready ==> earbuds_note(s) is Some,
        earbud(side, Some(percent)) == side + "  "@ + (decimal(percent as nat) + "%"@),
        earbud(side, None) == side + "  "@ + "—%"@,
{
}

/// The rows of an address are those of its version of the protocol, in the order of its
/// parts.
pub proof fn law_rows_of_address(ipv6: bool, i: int)
    ensures
        ip_fields(ipv6).len() == 5,
        0 <= i < 5 ==> is_ipv4_field(ip_fields(ipv6)[i].1) == !ipv6,
        0 <= i < 5 ==> field_number(ip_fields(ipv6)[i].1) == (if ipv6 {
            7 + i
        } else {
            2 + i
        }),
{
}

/// Each listening mode can be chosen, and by one button only.
pub proof fn law_every_mode_can_be_chosen(mode: AirPodsListeningMode)
    ensures
        exists|i: int| 0 <= i < mode_choices().len() && (#[trigger] mode_choices()[i]).3 == mode,
        forall|i: int, j: int|
            0 <= i < j < mode_choices().len() ==> (#[trigger] mode_choices()[i]).3 != (
            #[trigger] mode_choices()[j]).3,
{
    let c = mode_choices();
    assert(c[0].3 == AirPodsListeningMode::Transparency);
    assert(c[1].3 == AirPodsListeningMode::Adaptive);
    assert(c[2].3 == AirPodsListeningMode::NoiseCancellation);
}

} // verus!
