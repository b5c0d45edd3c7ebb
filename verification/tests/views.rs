use bah::calendar::{month_of, LocalTime};
use bah::clipboard::{ClipboardEntry, ClipboardPayload};
use bah::device_control_center::{BluetoothPairingDialog, DeviceControlCenter, InputField};
use bah::display_settings::DisplaySettings;
use bah::hyprland::display::{DisplayLayout, Monitor};
use bah::hyprland::types::{WindowWorkspace, Workspace, WorkspaceSnapshot, WorkspaceWindow};
use bah::modules::airpods::{AirPodsListeningMode, AirPodsStatus};
use bah::modules::notifications::{Notification, NotificationAction, Urgency};
use bah::modules::system_controls::{
    ActiveNetwork, BluetoothDevice, BluetoothEvent, BluetoothPairingPrompt, ControlSnapshot,
    NetworkKind, NetworkRoute, NetworkSettings, WifiNetwork, WifiSecurity,
};
use bah::modules::workspaces::Workspaces;
use bah::network_popover::{window_size, NetworkPopover};
use bah::notification_tray::{NotificationTray, SliderKind};
use bah::routes::DeviceControlCenterRoute;
use bah::views::bar_view::{bar_items, menu_rows, workspace_items, BarItem, MenuRow};
use bah::views::center_view::{
    airpods_card, bluetooth_page, details_view, display_page, ip_rows, modal_view, network_page,
    pairing_view, DisplayPage, ModalView,
};
use bah::views::popover_view::{airpods_view, popover_rows, PopoverRow};
use bah::views::tray_view::{
    calendar_view, card_view, entry_content, notification_list, slider_row, switches,
    weekday_labels, EntryContent,
};

fn network(label: &str, saved: bool) -> WifiNetwork {
    WifiNetwork {
        ssid: label.as_bytes().to_vec(),
        label: label.to_string(),
        strength: 80,
        connected: false,
        saved,
        security: WifiSecurity::Personal,
    }
}

fn window(address: &str) -> WorkspaceWindow {
    WorkspaceWindow {
        address: address.into(),
        app_id: "term".into(),
        initial_app_id: String::new(),
        title: "Shell".into(),
        initial_title: String::new(),
        mapped: true,
        hidden: false,
        pinned: false,
        focus_history_id: 0,
        workspace: WindowWorkspace { id: 1 },
        display_name: "Terminal".into(),
        icon: None,
    }
}

fn monitor(name: &str, x: i32) -> Monitor {
    Monitor {
        name: name.into(),
        description: String::new(),
        width: 100,
        height: 50,
        refresh_rate: "60.00".into(),
        x,
        y: 0,
        scale: "1.0000".into(),
        transform: 0,
        focused: false,
        disabled: false,
        logical_width: 100,
        logical_height: 50,
    }
}

fn notification(summary: &str, body: &str, count: u32) -> Notification {
    Notification {
        id: 3,
        app_name: "mail".into(),
        summary: summary.into(),
        body: body.into(),
        app_icon: String::new(),
        category: String::new(),
        desktop_entry: String::new(),
        actions: vec![NotificationAction {
            key: "open".into(),
            label: "Open".into(),
        }],
        urgency: Urgency::Normal,
        progress: Some(40),
        stack_tag: String::new(),
        transient: false,
        duplicate_count: count,
        history_ignore: false,
        skip_popup: false,
        override_pause_level: 30,
        expires_at: None,
    }
}

fn center(snapshot: ControlSnapshot) -> DeviceControlCenter {
    DeviceControlCenter::new(snapshot, DeviceControlCenterRoute::default())
}

#[test]
fn the_bar_shows_what_is_connected() {
    let mut snapshot = ControlSnapshot::default();
    snapshot.cpu.available = true;
    snapshot.cpu.percent = 7;
    let items = bar_items(&snapshot, "12:00", 0);
    assert_eq!(items.len(), 7);
    assert!(matches!(&items[0], BarItem::Cpu(label) if label == "7%"));
    assert!(matches!(&items[1], BarItem::Memory(label) if label == "—%"));
    assert!(matches!(&items[6], BarItem::Tray(None)));
    snapshot.airpods.connected = true;
    snapshot.bluetooth.available = true;
    snapshot.bluetooth.enabled = true;
    snapshot.bluetooth.connected = true;
    let items = bar_items(&snapshot, "12:00", 120);
    assert_eq!(items.len(), 9);
    assert!(matches!(items[3], BarItem::Bluetooth));
    assert!(matches!(items[4], BarItem::AirPods));
    assert!(matches!(&items[7], BarItem::Clock(text) if text == "12:00"));
    assert!(matches!(&items[8], BarItem::Tray(Some(label)) if label == "99+"));
}

#[test]
fn menus_name_and_close_windows() {
    let rows = menu_rows(&vec![window("0x1"), window("0x2")]);
    assert_eq!(rows.len(), 6);
    assert!(matches!(&rows[3], MenuRow::Name { label, .. } if label == "Terminal"));
    assert!(matches!(&rows[4], MenuRow::Close { address } if address == "0x2"));
    assert!(matches!(rows[5], MenuRow::Separator));
}

#[test]
fn the_active_workspace_shows_its_window() {
    let snapshot = WorkspaceSnapshot {
        workspaces: vec![1, 2]
            .into_iter()
            .map(|id| Workspace {
                id,
                name: format!("w{id}"),
                monitor: None,
                windows: 1,
                active: id == 2,
                focused: id == 2,
                urgent: false,
            })
            .collect(),
        workspace_windows: vec![],
        monitors: vec![],
        active_window_address: None,
        active_window_title: Some("Shell".into()),
        active_window_icon: Some("/term.png".into()),
        jump_list_actions: vec![],
    };
    let items = workspace_items(&Workspaces::new(snapshot));
    assert_eq!(items[0].label, Some("w1".to_string()));
    assert_eq!(items[0].title, None);
    assert_eq!(items[1].label, None);
    assert_eq!(items[1].icon, Some("/term.png".to_string()));
    assert_eq!(items[1].title, Some("Shell".to_string()));
}

#[test]
fn networks_are_listed_by_use() {
    let mut snapshot = ControlSnapshot::default();
    snapshot.wifi.enabled = true;
    snapshot.wifi_networks = vec![network("a", true), network("b", false)];
    snapshot.active_networks = vec![ActiveNetwork {
        label: "cable".into(),
        kind: NetworkKind::Wired,
        interface: "eth0".into(),
        default_ipv4: true,
        default_ipv6: false,
        connection_uuid: None,
        speed_mbps: None,
        settings: NetworkSettings::default(),
    }];
    let mut center = center(snapshot);
    center.selected_ssid = Some(b"b".to_vec());
    let page = network_page(&center);
    assert!(page.wifi_on);
    assert_eq!(page.active[0].badge, Some("✓ IPv4"));
    assert_eq!(page.saved.len(), 1);
    assert!(!page.saved[0].selected);
    assert_eq!(page.other[0].label, "b");
    assert!(page.other[0].selected);
}

#[test]
fn addresses_are_typed_unless_automatic() {
    let rows = ip_rows(true, true);
    assert_eq!(rows.len(), 5);
    assert_eq!(rows[1].label, "サブネットプレフィックスの長さ");
    assert_eq!(rows[1].field, InputField::Ipv6Prefix);
    assert!(!rows[1].enabled);
    assert!(ip_rows(false, false)[0].enabled);
}

#[test]
fn bluetooth_devices_are_listed_where_it_is_on() {
    let mut snapshot = ControlSnapshot::default();
    let page = bluetooth_page(&center(ControlSnapshot::default()));
    assert_eq!(page.note, Some("Bluetoothは利用できません"));
    assert!(page.panels.is_none());
    snapshot.bluetooth.available = true;
    snapshot.bluetooth.enabled = true;
    snapshot.bluetooth_devices = vec![BluetoothDevice {
        path: "/d".into(),
        label: "Headset".into(),
        connected: false,
        paired: true,
        rssi: Some(-40),
    }];
    let mut center = center(snapshot);
    let panels = bluetooth_page(&center).panels.expect("it is on");
    assert_eq!(
        panels.known[0].status,
        "ペアリング済み（クリックで接続） -40 dBm"
    );
    assert_eq!(panels.known_height, Some(148));
    assert_eq!(panels.other_note, Some("周辺のデバイスを検索中…"));
    center.apply_bluetooth_event(BluetoothEvent::OperationStarted {
        device_path: "/d".into(),
        pairing: false,
    });
    let panels = bluetooth_page(&center).panels.expect("it is on");
    assert!(panels.known[0].busy);
    assert_eq!(panels.known[0].status, "処理中… -40 dBm");
}

#[test]
fn earbuds_show_charge_and_mode() {
    let mut status = AirPodsStatus::default();
    let card = airpods_card(&status);
    assert_eq!(card.left, "L  —%");
    assert_eq!(card.note, Some("AirPodsを準備中…".to_string()));
    status.left_percent = Some(80);
    status.ready = true;
    status.listening_mode = Some(AirPodsListeningMode::Adaptive);
    let card = airpods_card(&status);
    assert_eq!(card.left, "L  80%");
    assert_eq!(card.note, None);
    assert!(card.buttons[1].selected && !card.buttons[0].selected);
    let view = airpods_view(&status);
    assert_eq!(view.charges, "80% / —%");
    assert_eq!(view.buttons[2].id, "noise-cancellation");
}

#[test]
fn displays_are_shown_or_missed() {
    let missing = display_page(&DisplaySettings::new(None, vec![]));
    assert!(matches!(missing, DisplayPage::Missing(_)));
    let layout = DisplayLayout::from_monitors(vec![monitor("A", 0), monitor("B", 50)]);
    let mut settings = DisplaySettings::new(Some(layout), vec![]);
    settings.selected = Some("B".into());
    match display_page(&settings) {
        DisplayPage::Shown {
            tiles,
            selected,
            overlap,
            can_apply,
            apply_label,
            ..
        } => {
            assert_eq!(tiles[0].label, "A ★");
            assert!(tiles[1].selected && !tiles[1].main);
            assert_eq!(selected.unwrap().position, "位置: 50 × 0");
            assert!(overlap.is_some());
            assert!(!can_apply);
            assert_eq!(apply_label, "適用");
        }
        DisplayPage::Missing(_) => panic!("there is a layout"),
    }
}

#[test]
fn pairing_is_explained() {
    let dialog = BluetoothPairingDialog {
        device_path: "/d".into(),
        device_label: "Keyboard".into(),
        prompt: BluetoothPairingPrompt::DisplayPasskey { passkey: 7 },
        pin_code: String::new(),
    };
    let view = pairing_view(&dialog);
    assert_eq!(
        view.instruction,
        "デバイス側に次のコードが表示されます: 000007"
    );
    assert!(!view.can_cancel);
    assert_eq!(view.input, None);
    assert_eq!(view.confirm, "閉じる");
}

#[test]
fn details_and_passwords_have_dialogs() {
    let mut center = center(ControlSnapshot::default());
    assert!(modal_view(&center).is_none());
    center.select_network(network("home", false));
    match modal_view(&center) {
        Some(ModalView::Password {
            network,
            input,
            connect_label,
            ..
        }) => {
            assert_eq!(network, "home");
            assert_eq!(input, "パスワード");
            assert_eq!(connect_label, "接続");
        }
        _ => panic!("a password is needed"),
    }
    center.type_key(InputField::Password, "x");
    assert!(matches!(
        modal_view(&center),
        Some(ModalView::Password { input, .. }) if input == "•"
    ));
    center.open_details(ActiveNetwork {
        label: "cable".into(),
        kind: NetworkKind::Wired,
        interface: "eth0".into(),
        default_ipv4: true,
        default_ipv6: false,
        connection_uuid: Some("u".into()),
        speed_mbps: None,
        settings: NetworkSettings::default(),
    });
    let details = details_view(center.details.as_ref().unwrap(), None);
    assert_eq!(details.speed, "リンクスピード: 利用不可");
    assert!(details.can_save);
    assert_eq!(details.ipv4.len(), 5);
}

#[test]
fn the_popover_lists_networks_with_their_errors() {
    let mut snapshot = ControlSnapshot::default();
    snapshot.wired_active = true;
    snapshot.wifi.available = true;
    snapshot.wifi.enabled = true;
    snapshot.wifi_networks = vec![network("a", true), network("b", true)];
    let mut popover = NetworkPopover::new(snapshot);
    popover.connection_request_failed(b"a".to_vec());
    let rows = popover_rows(&popover);
    assert!(matches!(rows[0], PopoverRow::Wired));
    assert!(matches!(rows[2], PopoverRow::WifiSwitch(true)));
    assert!(matches!(&rows[5], PopoverRow::Network { label, .. } if label == "a"));
    assert!(matches!(&rows[6], PopoverRow::Error { ssid, .. } if ssid == b"a"));
    assert!(matches!(&rows[7], PopoverRow::Network { label, .. } if label == "b"));
    assert!(matches!(rows[8], PopoverRow::More));
    assert_eq!(rows.len(), 9);
    let size = window_size(&popover.controls, &popover.errors);
    assert_eq!(size.height, 93 + 41 + 86 + 34 + (rows.len() as u128 - 1) * 2);
}

#[test]
fn the_popover_says_why_there_are_no_networks() {
    let rows = popover_rows(&NetworkPopover::new(ControlSnapshot::default()));
    assert_eq!(rows.len(), 4);
    assert!(matches!(rows[2], PopoverRow::Note("Wi-Fiは利用できません")));
}

#[test]
fn the_tray_shows_switches_and_sliders() {
    let mut controls = ControlSnapshot::default();
    controls.primary_network = Some(NetworkRoute {
        kind: NetworkKind::Wired,
        interface: "eth0".into(),
    });
    controls.brightness.available = true;
    controls.brightness.percent = 130;
    let (wifi, bluetooth) = switches(&controls);
    assert_eq!(wifi.title, "有線接続");
    assert_eq!(bluetooth.title, "Bluetooth");
    let mut tray = NotificationTray::new(controls, month_of(2026, 1).unwrap(), false);
    let row = slider_row(&tray, SliderKind::Brightness);
    assert_eq!(row.percent, 100);
    assert_eq!(row.knob, None);
    assert_eq!(row.note, None);
    tray.begin_slider_drag(SliderKind::Brightness, 30, 0);
    assert_eq!(
        slider_row(&tray, SliderKind::Brightness).knob,
        Some("30%".to_string())
    );
    assert_eq!(
        slider_row(&tray, SliderKind::AudioInput).note,
        Some("利用不可")
    );
}

#[test]
fn notifications_are_listed_and_popped_up() {
    let list = notification_list(&vec![notification("New", "", 1)]);
    assert_eq!(list.title, "Notifications (1)");
    assert_eq!(list.rows[0].body, None);
    assert_eq!(list.rows[0].app_name, Some("mail".to_string()));
    assert_eq!(notification_list(&vec![]).note, Some("No notifications"));
    let card = card_view(&notification("New", "Body", 3));
    assert_eq!(card.repeated, Some("×3".to_string()));
    assert_eq!(card.body, Some("Body".to_string()));
    assert_eq!(card.progress, Some(40));
    assert_eq!(card.glyph, "\u{f0f3}");
    assert_eq!(card.actions[0].label, "Open");
}

#[test]
fn the_calendar_marks_today() {
    let today = LocalTime {
        year: 2026,
        month: 8,
        day: 31,
        hour: 0,
        minute: 0,
        second: 0,
    };
    let view = calendar_view(&month_of(2026, 8).unwrap(), &today);
    assert_eq!(view.title, "2026年8月");
    assert_eq!(view.cells[6].label, Some("1".to_string()));
    assert!(view.cells[36].today);
    assert!(!view.cells[35].today);
    assert_eq!(view.cells[0].label, None);
    assert_eq!(weekday_labels()[0], "日");
}

#[test]
fn clipboard_entries_are_shown_by_text_image_or_size() {
    let mut entry = ClipboardEntry {
        id: "x".into(),
        created_at: 0,
        payloads: vec![ClipboardPayload {
            mime_type: "text/plain".into(),
            file_name: "0".into(),
            size: 4,
        }],
        total_size: 4,
    };
    assert!(matches!(
        entry_content(&entry, Some(&b" a  b".to_vec()), false),
        EntryContent::Text(text) if text == "a b"
    ));
    assert!(matches!(
        entry_content(&entry, None, false),
        EntryContent::Text(text) if text == "<unable to read text>"
    ));
    entry.payloads[0].mime_type = "image/png".into();
    assert!(matches!(entry_content(&entry, None, true), EntryContent::Image));
    assert!(matches!(
        entry_content(&entry, None, false),
        EntryContent::Description(text) if text == "image/png  4 bytes"
    ));
}
