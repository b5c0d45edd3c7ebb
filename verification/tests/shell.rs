use bah::airpods_popover::{charges_label, AirPodsPopover};
use bah::bar::{
    applied_by_bar, battery_icon, bluetooth_icon_visible, bluetooth_usage_tooltip, clipboard_step,
    cpu_usage_tooltip, memory_usage_tooltip, network_icon, notification_badge_label, percent_label,
    popup_needed, status_tooltip_text, status_tooltip_window_size, switcher_step, text_columns,
    volume_icon, volume_usage_tooltip, BarState, ClipboardStep, StatusIcon, SwitcherStep,
    STATUS_ICON_REFERENCE_VISIBLE_HEIGHT, STATUS_ICON_UNITS_PER_EM,
};
use bah::clipboard_panel::{preview_text, size_label, stable_id, text_preview, ClipboardPanel};
use bah::device_control_center::{
    bluetooth_device_action, bluetooth_group, default_route_badge, device_status_label, discovery,
    idle_networks, pairing_instruction, requires_input, DeviceControlCenter, InputField, KeyStep,
    Modal,
};
use bah::display_settings::{
    monitor_label, position_label, preview_bounds, resolution_label, wallpaper_label,
    DisplaySettings,
};
use bah::hyprland::display::{DisplayLayout, Monitor, OutputWallpaper};
use bah::hyprland::events::IpcUpdate;
use bah::hyprland::types::{WindowWorkspace, Workspace, WorkspaceSnapshot, WorkspaceWindow};
use bah::modules::airpods::AirPodsListeningMode;
use bah::modules::notifications::{NotificationEvent, Urgency};
use bah::modules::system_controls::{
    ActiveNetwork, AudioEndpoint, BatteryStatus, BluetoothDevice, BluetoothEvent,
    BluetoothPairingPrompt, BluetoothPairingResponse, ControlAction, ControlSnapshot, CpuCoreKind,
    CpuCoreUsage, CpuStatus, LevelStatus, MemoryStatus, NetworkKind, NetworkRoute, NetworkSettings,
    NetworkSettingsEvent, ToggleStatus, WifiConnectionEvent, WifiNetwork, WifiSecurity,
};
use bah::modules::workspaces::{active_workspace_id, Workspaces};
use bah::network_popover::{visible_network_groups, window_size, NetworkPopover, PopoverStep};
use bah::notification_popup::{height_for, urgency_colour};
use bah::notification_tray::{
    mute_icon, network_switch, NotificationTray, SlidePhase, SliderKind, SLIDER_SEND_INTERVAL,
};
use bah::calendar::month_of;
use bah::routes::{
    ClipboardCommand, DeviceControlCenterPage, DeviceControlCenterRoute, SwitcherCommand,
};
use bah::theme::BahTheme;
use bah::tui_device_control_center::{
    bluetooth_rows, display_rows, help_line, list_rows, network_rows, Area, TerminalControlCenter,
    TuiKey, TuiStep,
};
use bah::wallpaper::is_wallpaper_file;

fn network_status(signal_strength: Option<u8>) -> ToggleStatus {
    ToggleStatus {
        available: true,
        enabled: true,
        connected: false,
        wired: false,
        signal_strength,
        interface: None,
        download_kbps: None,
        upload_kbps: None,
        label: String::new(),
    }
}

fn battery_status(available: bool, percent: u8, charging: bool) -> BatteryStatus {
    BatteryStatus {
        available,
        percent,
        charging,
        state: String::new(),
        health: String::new(),
    }
}

fn assert_icon_height(icon: StatusIcon, visible_height: u32) {
    assert_eq!(
        icon.visible_height, visible_height,
        "height of {}",
        icon.glyph,
    );
}

fn network(label: &str, saved: bool) -> WifiNetwork {
    WifiNetwork {
        ssid: label.as_bytes().to_vec(),
        label: label.to_string(),
        strength: 80,
        connected: false,
        saved,
        security: WifiSecurity::Open,
    }
}

fn active_network(default_ipv4: bool, default_ipv6: bool) -> ActiveNetwork {
    ActiveNetwork {
        label: "network".to_string(),
        kind: NetworkKind::Wired,
        interface: "eth0".to_string(),
        default_ipv4,
        default_ipv6,
        connection_uuid: None,
        speed_mbps: None,
        settings: NetworkSettings::default(),
    }
}

fn device(path: &str, connected: bool, paired: bool) -> BluetoothDevice {
    BluetoothDevice {
        path: path.into(),
        label: "Headset".into(),
        connected,
        paired,
        rssi: None,
    }
}

fn monitor(name: &str, x: i32, y: i32) -> Monitor {
    Monitor {
        name: name.into(),
        description: String::new(),
        width: 100,
        height: 50,
        refresh_rate: "60.00".into(),
        x,
        y,
        scale: "1.0000".into(),
        transform: 0,
        focused: false,
        disabled: false,
        logical_width: 100,
        logical_height: 50,
    }
}

fn window(address: &str, workspace: i32) -> WorkspaceWindow {
    WorkspaceWindow {
        address: address.into(),
        app_id: "term".into(),
        initial_app_id: String::new(),
        title: "Terminal".into(),
        initial_title: String::new(),
        mapped: true,
        hidden: false,
        pinned: false,
        focus_history_id: 0,
        workspace: WindowWorkspace { id: workspace },
        display_name: "Terminal".into(),
        icon: None,
    }
}

fn snapshot_on(active: i32) -> WorkspaceSnapshot {
    WorkspaceSnapshot {
        workspaces: vec![1, 2]
            .into_iter()
            .map(|id| Workspace {
                id,
                name: id.to_string(),
                monitor: None,
                windows: 1,
                active: id == active,
                focused: id == active,
                urgent: false,
            })
            .collect(),
        workspace_windows: vec![window("0x1", 1), window("0x2", 2)],
        monitors: vec![],
        active_window_address: None,
        active_window_title: None,
        active_window_icon: None,
        jump_list_actions: vec![],
    }
}

#[test]
fn notification_badge_caps_large_counts() {
    assert_eq!(notification_badge_label(1), "1");
    assert_eq!(notification_badge_label(99), "99");
    assert_eq!(notification_badge_label(100), "99+");
}

#[test]
fn network_icon_uses_the_selected_default_route() {
    let status = network_status(Some(100));
    let ethernet = NetworkRoute {
        kind: NetworkKind::Wired,
        interface: "eth0".to_string(),
    };
    let wifi = NetworkRoute {
        kind: NetworkKind::Wifi,
        interface: "wlan0".to_string(),
    };

    assert_eq!(network_icon(&status, Some(&ethernet)).glyph, "\u{f0200}");
    assert_eq!(network_icon(&status, Some(&wifi)).glyph, "\u{f0928}");
    assert_eq!(network_icon(&status, None).glyph, "\u{f092c}");
}

#[test]
fn status_icon_states_normalize_to_the_battery_reference_height() {
    for (available, percent, muted, height) in [
        (false, 0, false, 600),
        (true, 50, true, 508),
        (true, 1, false, STATUS_ICON_REFERENCE_VISIBLE_HEIGHT),
        (true, 34, false, 712),
        (true, 67, false, 584),
    ] {
        let status = LevelStatus {
            available,
            percent,
            muted,
        };
        assert_icon_height(volume_icon(status), height);
    }

    let wifi = NetworkRoute {
        kind: NetworkKind::Wifi,
        interface: "wlan0".to_string(),
    };
    let ethernet = NetworkRoute {
        kind: NetworkKind::Wired,
        interface: "eth0".to_string(),
    };
    let mut unavailable = network_status(None);
    unavailable.available = false;
    let mut disabled = network_status(None);
    disabled.enabled = false;
    for (icon, height) in [
        (network_icon(&unavailable, Some(&wifi)), 488),
        (network_icon(&network_status(None), None), 488),
        (network_icon(&disabled, Some(&wifi)), 488),
        (network_icon(&network_status(None), Some(&ethernet)), 572),
        (network_icon(&network_status(Some(25)), Some(&wifi)), 476),
        (network_icon(&network_status(Some(50)), Some(&wifi)), 476),
        (network_icon(&network_status(Some(75)), Some(&wifi)), 476),
        (network_icon(&network_status(Some(100)), Some(&wifi)), 476),
    ] {
        assert_icon_height(icon, height);
    }

    for (percent, charging) in [
        (0, 928),
        (11, 570),
        (21, 570),
        (31, 570),
        (41, 570),
        (51, 570),
        (61, 570),
        (71, 928),
        (81, 544),
        (91, 570),
    ] {
        assert_icon_height(battery_icon(&battery_status(true, percent, true)), charging);
        assert_icon_height(battery_icon(&battery_status(true, percent, false)), 928);
    }
    assert_icon_height(battery_icon(&battery_status(false, 0, false)), 928);
    assert_eq!(STATUS_ICON_REFERENCE_VISIBLE_HEIGHT, 928);
    assert_eq!(STATUS_ICON_UNITS_PER_EM, 1000);
}

#[test]
fn bluetooth_icon_requires_an_active_connection() {
    let mut status = network_status(None);
    assert!(!bluetooth_icon_visible(&status));

    status.connected = true;
    assert!(bluetooth_icon_visible(&status));

    status.enabled = false;
    assert!(!bluetooth_icon_visible(&status));
}

#[test]
fn memory_tooltip_includes_usage_and_total_in_gigabytes() {
    assert_eq!(
        memory_usage_tooltip(MemoryStatus {
            available: true,
            percent: 19,
            used_kib: 1_572_864,
            total_kib: 8_388_608,
        }),
        "Memory使用率: 19%\n1.5 GB/8.0 GB"
    );
}

#[test]
fn cpu_tooltip_lists_each_logical_core_without_an_overall_heading() {
    assert_eq!(
        cpu_usage_tooltip(&CpuStatus {
            available: true,
            percent: 53,
            core_usages: vec![
                CpuCoreUsage {
                    index: 0,
                    kind: Some(CpuCoreKind::Performance),
                    percent_tenths: 673,
                },
                CpuCoreUsage {
                    index: 1,
                    kind: Some(CpuCoreKind::Efficiency),
                    percent_tenths: 500,
                },
            ],
        }),
        "CPU0(P): 67.3%\nCPU1(E): 50.0%"
    );
}

#[test]
fn tooltips_tell_what_there_is() {
    let snapshot = ControlSnapshot::default();
    assert_eq!(
        status_tooltip_text(&snapshot, "bluetooth"),
        bluetooth_usage_tooltip(&snapshot.bluetooth)
    );
    assert_eq!(status_tooltip_text(&snapshot, "weather"), "利用不可");
    let level = LevelStatus {
        available: true,
        percent: 42,
        muted: false,
    };
    assert!(volume_usage_tooltip(level).contains("42%"));
    assert_eq!(percent_label(true, 7), "7%");
    assert_eq!(text_columns("aあ"), 3);
    assert!(
        status_tooltip_window_size("a\nb").height > status_tooltip_window_size("a").height
    );
}

#[test]
fn only_one_menu_is_shown() {
    let mut bar = BarState::new();
    assert!(!bar.show_workspace_menu(1));
    bar.apply_ipc_update(IpcUpdate::Workspaces(snapshot_on(1)), 8);
    assert!(bar.show_workspace_menu(2));
    assert_eq!(bar.workspace_menu.as_ref().unwrap()[0].address, "0x2");
    assert!(!bar.show_jump_list());
    bar.hide_jump_list();
    assert!(bar.workspace_menu.is_none() && bar.jump_menu.is_none());
}

#[test]
fn tooltips_wait_for_the_pointer_to_stay() {
    let mut bar = BarState::new();
    let first = bar
        .set_status_tooltip_hovered("status-cpu", true)
        .expect("a delay begins");
    bar.set_status_tooltip_hovered("status-cpu", false);
    assert!(!bar.tooltip_due("status-cpu", first));
    let second = bar
        .set_status_tooltip_hovered("status-cpu", true)
        .expect("a delay begins");
    assert!(bar.tooltip_due("status-cpu", second));
}

#[test]
fn one_screenshot_is_taken_at_a_time() {
    let mut bar = BarState::new();
    assert!(bar.begin_screenshot());
    assert!(!bar.begin_screenshot());
    bar.end_screenshot();
    assert!(bar.begin_screenshot());
}

#[test]
fn commands_become_steps() {
    assert!(matches!(
        switcher_step(SwitcherCommand::CycleReverse),
        SwitcherStep::Open(Some(-1)) | SwitcherStep::Cycle(-1)
    ));
    assert!(matches!(
        switcher_step(SwitcherCommand::Commit),
        SwitcherStep::Commit
    ));
    assert!(matches!(
        clipboard_step(ClipboardCommand::Toggle, true),
        ClipboardStep::Close
    ));
    assert!(matches!(
        clipboard_step(ClipboardCommand::Toggle, false),
        ClipboardStep::Open
    ));
    assert!(applied_by_bar(&NotificationEvent::Close(1)));
    assert!(applied_by_bar(&NotificationEvent::Refresh));
    assert!(popup_needed(false, true, 1));
    assert!(!popup_needed(true, true, 1));
}

#[test]
fn workspaces_slide_when_the_active_one_changes() {
    let mut workspaces = Workspaces::new(snapshot_on(1));
    assert_eq!(workspaces.active_workspace_id, Some(1));
    assert!(!workspaces.replace(snapshot_on(1), 8));
    assert!(workspaces.replace(snapshot_on(2), 8));
    assert_eq!(workspaces.active_workspace_id, Some(2));
    assert_eq!(workspaces.windows_for_workspace(2).len(), 1);
    assert_eq!(workspaces.switcher_state().windows.len(), 2);
    assert_eq!(active_workspace_id(&vec![]), None);
}

#[test]
fn popover_size_grows_for_error_content() {
    let mut snapshot = ControlSnapshot::default();
    snapshot.wifi.available = true;
    snapshot.wifi.enabled = true;
    snapshot.wifi_networks.push(network("wifi", false));
    let normal = window_size(&snapshot, &[]);
    let with_error = window_size(
        &snapshot,
        &[(b"wifi".to_vec(), "接続できませんでした".to_string())],
    );
    assert!(with_error.height > normal.height);
    assert!(with_error.width >= normal.width);
}

#[test]
fn visible_networks_are_limited_to_five_per_group() {
    let mut snapshot = ControlSnapshot::default();
    snapshot.wifi.available = true;
    snapshot.wifi.enabled = true;
    snapshot
        .wifi_networks
        .extend((0..6).map(|index| network(&format!("saved-{index}"), true)));
    snapshot
        .wifi_networks
        .extend((0..6).map(|index| network(&format!("other-{index}"), false)));

    let (saved, other) = visible_network_groups(&snapshot);

    assert_eq!(saved.len(), 5);
    assert_eq!(other.len(), 5);
    assert_eq!(saved[0].label, "saved-0");
    assert_eq!(other[0].label, "other-0");
    assert_eq!(saved[4].label, "saved-4");
    assert_eq!(other[4].label, "other-4");
}

#[test]
fn popover_size_includes_titles_and_separator_for_two_groups() {
    let mut single_group = ControlSnapshot::default();
    single_group.wifi.available = true;
    single_group.wifi.enabled = true;
    single_group.wifi_networks = vec![network("saved-1", true), network("saved-2", true)];

    let mut two_groups = ControlSnapshot::default();
    two_groups.wifi.available = true;
    two_groups.wifi.enabled = true;
    two_groups.wifi_networks = vec![network("saved", true), network("other", false)];

    assert!(window_size(&two_groups, &[]).height > window_size(&single_group, &[]).height);
}

#[test]
fn networks_are_connected_to_or_asked_for() {
    let mut popover = NetworkPopover::new(ControlSnapshot::default());
    assert!(matches!(
        popover.select_network(&network("open", false)),
        PopoverStep::Connect(ssid) if ssid == b"open".to_vec()
    ));
    popover.apply_wifi_event(WifiConnectionEvent::Failed {
        ssid: b"open".to_vec(),
        message: "no".into(),
    });
    assert_eq!(popover.errors.len(), 1);
    assert_eq!(popover.connecting, None);
    popover.clear_error(&b"open".to_vec());
    assert!(popover.errors.is_empty());
    let mut closed = network("closed", false);
    closed.security = WifiSecurity::Personal;
    assert!(matches!(
        popover.select_network(&closed),
        PopoverStep::OpenControlCenter(_)
    ));
    assert!(!popover.can_toggle_wifi());
}

#[test]
fn popups_grow_with_their_notifications() {
    assert!(height_for(2) > height_for(1));
    let theme = BahTheme::new(false, false, false);
    assert_ne!(
        urgency_colour(&theme, Urgency::Critical),
        urgency_colour(&theme, Urgency::Low)
    );
}

#[test]
fn the_tray_slides_in_and_out() {
    let month = month_of(2026, 1).unwrap();
    let mut tray = NotificationTray::new(ControlSnapshot::default(), month, false);
    tray.show(10, false);
    assert!(matches!(tray.slide_phase(12, 100), SlidePhase::Sliding(2)));
    assert!(matches!(tray.slide_phase(200, 100), SlidePhase::Finished));
    assert!(matches!(tray.slide_phase(201, 100), SlidePhase::Still));
    tray.show_previous_calendar_month();
    assert_eq!((tray.calendar_month.year, tray.calendar_month.month), (2025, 12));
    tray.show_next_calendar_month();
    assert_eq!((tray.calendar_month.year, tray.calendar_month.month), (2026, 1));
}

#[test]
fn a_dragged_slider_keeps_its_place() {
    let month = month_of(2026, 1).unwrap();
    let mut controls = ControlSnapshot::default();
    controls.brightness.available = true;
    let mut tray = NotificationTray::new(controls, month, false);
    assert!(matches!(
        tray.begin_slider_drag(SliderKind::Brightness, 30, 0),
        Some(ControlAction::SetBrightness(30))
    ));
    assert!(tray.update_slider(31, false, 1).is_none());
    assert_eq!(tray.slider_percent(SliderKind::Brightness), 31);
    let mut late = ControlSnapshot::default();
    late.brightness.available = true;
    late.brightness.percent = 5;
    tray.set_controls(late);
    assert_eq!(tray.slider_percent(SliderKind::Brightness), 31);
    assert!(matches!(
        tray.update_slider(32, false, SLIDER_SEND_INTERVAL),
        Some(ControlAction::SetBrightness(32))
    ));
    assert!(matches!(
        tray.end_slider_drag(33, SLIDER_SEND_INTERVAL + 1),
        Some(ControlAction::SetBrightness(33))
    ));
    assert!(tray.update_slider(40, true, 0).is_none());
}

#[test]
fn glyphs_show_what_is_muted() {
    assert_eq!(mute_icon(AudioEndpoint::Output, true), "\u{f6a9}");
    assert_eq!(mute_icon(AudioEndpoint::Input, true), "\u{f131}");
    assert_eq!(mute_icon(AudioEndpoint::Output, false), "\u{f028}");
    assert_eq!(mute_icon(AudioEndpoint::Input, false), "\u{f130}");
    assert_ne!(
        network_switch(Some(NetworkKind::Wired)),
        network_switch(Some(NetworkKind::Wifi))
    );
}

#[test]
fn a_chosen_mode_outlives_stale_reports() {
    let mut controls = ControlSnapshot::default();
    controls.airpods.connected = true;
    controls.airpods.ready = true;
    controls.airpods.listening_mode = Some(AirPodsListeningMode::Adaptive);
    let mut stale = ControlSnapshot::default();
    stale.airpods.connected = true;
    stale.airpods.ready = true;
    stale.airpods.listening_mode = Some(AirPodsListeningMode::Adaptive);
    let mut popover = AirPodsPopover::new(controls);
    assert!(popover.set_mode(AirPodsListeningMode::Transparency));
    popover.set_controls(stale);
    assert_eq!(
        popover.controls.airpods.listening_mode,
        Some(AirPodsListeningMode::Transparency)
    );
    popover.mode_request_failed();
    assert_eq!(
        popover.controls.airpods.listening_mode,
        Some(AirPodsListeningMode::Adaptive)
    );
    assert!(charges_label(Some(80), None).contains("80"));
}

#[test]
fn the_clipboard_panel_selects_within_its_entries() {
    let mut panel = ClipboardPanel::new();
    panel.open(Some("0x1".into()));
    assert!(panel.is_open());
    panel.select_next(2);
    assert_eq!(panel.chosen(2), Some(1));
    panel.select_previous(2);
    assert_eq!(panel.chosen(2), Some(0));
    assert_eq!(panel.chosen(0), None);
    panel.close();
    assert!(!panel.is_open());
}

#[test]
fn clipboard_entries_are_previewed() {
    assert_eq!(text_preview(&vec![b'a', 0xff]), preview_text("a\u{fffd}"));
    assert!(size_label("image/png", 12).contains("12"));
    assert_ne!(stable_id("a"), stable_id("b"));
}

#[test]
fn route_badges_only_mark_default_routes() {
    assert_eq!(default_route_badge(&active_network(false, false)), None);
    assert_eq!(
        default_route_badge(&active_network(true, false)),
        Some("✓ IPv4")
    );
    assert_eq!(
        default_route_badge(&active_network(false, true)),
        Some("✓ IPv6")
    );
    assert_eq!(
        default_route_badge(&active_network(true, true)),
        Some("✓ IPv4 / IPv6")
    );
}

#[test]
fn wallpaper_picker_only_shows_supported_media_files() {
    assert!(is_wallpaper_file("wallpaper.PNG"));
    assert!(is_wallpaper_file("movie.mkv"));
    assert!(!is_wallpaper_file("notes.txt"));
}

#[test]
fn a_password_is_asked_for_and_typed() {
    let mut center = DeviceControlCenter::new(
        ControlSnapshot::default(),
        DeviceControlCenterRoute::default(),
    );
    let mut closed = network("closed", false);
    closed.security = WifiSecurity::Personal;
    assert!(center.select_network(closed).is_none());
    assert!(matches!(center.modal, Some(Modal::Password { .. })));
    center.focus_input(InputField::Password);
    assert!(matches!(
        center.input_key_down("a"),
        KeyStep::Type(InputField::Password)
    ));
    center.type_key(InputField::Password, "a");
    center.type_key(InputField::Password, "b");
    center.type_key(InputField::Password, "backspace");
    assert_eq!(center.input_value(InputField::Password), "•");
    let request = center.connect_password_network();
    if let Some(request) = request {
        assert_eq!(request.password, Some("a".to_string()));
    }
    center.apply_connection_event(WifiConnectionEvent::Succeeded {
        ssid: b"closed".to_vec(),
    });
    assert!(center.modal.is_none());
}

#[test]
fn open_networks_are_connected_to() {
    let mut center = DeviceControlCenter::new(
        ControlSnapshot::default(),
        DeviceControlCenterRoute::default(),
    );
    let request = center
        .select_network(network("open", false))
        .expect("a request");
    assert_eq!(request.ssid, b"open".to_vec());
    assert_eq!(request.password, None);
}

#[test]
fn pairing_is_prompted_for_and_answered() {
    let mut center = DeviceControlCenter::new(
        ControlSnapshot::default(),
        DeviceControlCenterRoute::default(),
    );
    center.apply_bluetooth_event(BluetoothEvent::OperationStarted {
        device_path: "/d".into(),
        pairing: true,
    });
    assert_eq!(center.bluetooth_operations.len(), 1);
    center.apply_bluetooth_event(BluetoothEvent::PairingPrompt {
        device_path: "/d".into(),
        prompt: BluetoothPairingPrompt::Confirmation { passkey: 42 },
    });
    assert!(matches!(
        center.respond_bluetooth_pairing(true),
        Some(BluetoothPairingResponse::Confirm { accepted: true, .. })
    ));
    center.apply_bluetooth_event(BluetoothEvent::Failed {
        device_path: "/d".into(),
        message: "no".into(),
    });
    assert!(center.bluetooth_operations.is_empty());
    assert!(center.bluetooth_message.is_some());
    assert!(requires_input(&BluetoothPairingPrompt::PinCode));
    assert!(!requires_input(&BluetoothPairingPrompt::Authorization));
    let confirmation = BluetoothPairingPrompt::Confirmation { passkey: 42 };
    assert!(pairing_instruction(&confirmation).0.contains("000042"));
}

#[test]
fn devices_are_connected_paired_or_left() {
    assert!(matches!(
        bluetooth_device_action(&device("/d", true, true)),
        ControlAction::DisconnectBluetooth { .. }
    ));
    assert!(matches!(
        bluetooth_device_action(&device("/d", false, true)),
        ControlAction::ConnectBluetooth { .. }
    ));
    assert!(matches!(
        bluetooth_device_action(&device("/d", false, false)),
        ControlAction::PairBluetooth { .. }
    ));
    let devices = vec![device("/a", false, true), device("/b", false, false)];
    assert_eq!(bluetooth_group(&devices, true).len(), 1);
    assert_eq!(bluetooth_group(&devices, false)[0].path, "/b");
    assert_ne!(
        device_status_label(&devices[0], None),
        device_status_label(&devices[0], Some(true))
    );
    assert_eq!(discovery(DeviceControlCenterPage::Network), (true, false));
    assert_eq!(discovery(DeviceControlCenterPage::Display), (false, false));
    let networks = vec![network("saved", true), network("other", false)];
    assert_eq!(idle_networks(&networks, true).len(), 1);
}

#[test]
fn network_settings_are_confirmed_before_they_are_saved() {
    let mut center = DeviceControlCenter::new(
        ControlSnapshot::default(),
        DeviceControlCenterRoute::default(),
    );
    let mut active = active_network(true, false);
    active.connection_uuid = Some("uuid".into());
    center.open_details(active);
    center.set_manual(false, true);
    center.type_key(InputField::Ipv4Address, "1");
    assert_eq!(center.input_value(InputField::Ipv4Address), "1");
    center.request_save_network_settings();
    assert!(matches!(center.modal, Some(Modal::ConfirmNetworkSettings)));
    let (uuid, settings) = center.save_network_settings().expect("a request");
    assert_eq!(uuid, "uuid");
    assert_eq!(settings.ipv4.address, "1");
    assert!(!settings.ipv4.automatic);
    center.apply_network_settings_event(NetworkSettingsEvent::Applied {
        connection_uuid: "uuid".into(),
    });
    center.close_details();
    assert!(center.details.is_none());
}

#[test]
fn displays_are_dragged_and_applied() {
    let layout = DisplayLayout::from_monitors(vec![monitor("A", 0, 0), monitor("B", 300, 0)]);
    let mut settings = DisplaySettings::new(Some(layout), vec![]);
    assert!(settings.begin_drag("B"));
    assert!(settings.move_drag(-195, 0));
    assert_eq!(
        settings.layout.as_ref().unwrap().monitor("B").unwrap().x,
        100
    );
    settings.end_drag();
    settings.set_wallpaper("A", "/a.png".into());
    assert_eq!(settings.wallpapers.len(), 1);
    assert!(settings.begin_apply());
    assert!(!settings.begin_apply());
    settings.finish_apply(Ok(Ok(())));
    assert!(!settings.applying);
    let bounds = preview_bounds(settings.layout.as_ref().unwrap());
    assert_eq!((bounds.left, bounds.right), (0, 200));
}

#[test]
fn displays_are_labelled() {
    let a = monitor("A", 3, -4);
    assert_ne!(monitor_label(&a, "A"), monitor_label(&a, "B"));
    assert!(position_label(&a).contains("-4"));
    assert!(resolution_label(&a).contains("100"));
    let wallpapers = vec![OutputWallpaper {
        output: "A".into(),
        path: "/pictures/a.png".into(),
    }];
    assert!(wallpaper_label(&wallpapers, "A").contains("a.png"));
    assert_ne!(
        wallpaper_label(&wallpapers, "A"),
        wallpaper_label(&wallpapers, "B")
    );
}

#[test]
fn the_terminal_shows_and_moves_displays() {
    let layout = DisplayLayout::from_monitors(vec![monitor("A", 0, 0), monitor("B", 300, 0)]);
    let mut center =
        TerminalControlCenter::new(DeviceControlCenterRoute::default(), Some(layout));
    assert!(matches!(
        center.key(TuiKey::Char('3'), false, false),
        TuiStep::Discover
    ));
    assert!(matches!(
        center.key(TuiKey::Down, false, false),
        TuiStep::Nothing
    ));
    center.key(TuiKey::Tab, false, false);
    assert_eq!(center.focus, 2);
    center.key(TuiKey::Enter, false, false);
    assert_eq!(center.selected_monitor, 1);
    center.key(TuiKey::Right, false, true);
    assert_eq!(
        center.layout.as_ref().unwrap().monitor("B").unwrap().x,
        400
    );
    assert_eq!(
        display_rows(&center.layout),
        vec![
            "Apply display layout",
            "A: 100×50 @ 0,0 ★",
            "B: 100×50 @ 400,0"
        ]
    );
    assert_eq!(display_rows(&None), vec!["No Hyprland monitor data"]);
    assert!(matches!(
        center.key(TuiKey::Char('q'), false, false),
        TuiStep::Quit
    ));
}

#[test]
fn the_terminal_connects_and_explains() {
    let route = DeviceControlCenterRoute {
        page: DeviceControlCenterPage::Network,
        ssid: Some(b"wifi".to_vec()),
    };
    let mut center = TerminalControlCenter::new(route, None);
    assert_eq!(
        center.message,
        Some("指定されたネットワーク: wifi".to_string())
    );
    let mut closed = network("closed", false);
    closed.security = WifiSecurity::Personal;
    center.snapshot.wifi_networks = vec![network("open", false), closed];
    center.mouse_rows = list_rows(&Area {
        x: 0,
        y: 3,
        width: 40,
        height: 10,
    });
    assert!(matches!(
        center.mouse(2, 6),
        TuiStep::Act(ControlAction::ConnectWifi { ssid, password: None })
            if ssid == b"open".to_vec()
    ));
    assert!(matches!(center.mouse(2, 7), TuiStep::Nothing));
    assert!(center.message.as_ref().unwrap().starts_with("closed は"));
    assert!(matches!(
        center.mouse(2, 5),
        TuiStep::Act(ControlAction::ToggleWifi)
    ));
    assert!(matches!(center.mouse(25, 1), TuiStep::Discover));
    assert_eq!(center.page, DeviceControlCenterPage::Bluetooth);
    assert!(matches!(
        center.activate(),
        TuiStep::Act(ControlAction::ToggleBluetooth)
    ));
    assert_eq!(
        network_rows(&center.snapshot)[1],
        "open  80%"
    );
    assert_eq!(bluetooth_rows(&center.snapshot), vec!["[off] Bluetooth"]);
    center.layout_applied(Some(Err("overlap".into())));
    assert_eq!(
        help_line(&center.message),
        "1-3: tab  ↑↓/j/k: select  Enter: action  q: close  |  適用できません: overlap"
    );
}
