use std::io::Cursor;

use bah::bar::BarState;
use bah::calendar::month_of;
use bah::clipboard_panel::image_preview;
use bah::config::{check_config, ConfigError, NotificationConfig};
use bah::device_control_center::{BluetoothPairingDialog, DeviceControlCenter, InputField};
use bah::display_settings::DisplaySettings;
use bah::hyprland::display::{DisplayLayout, Monitor, OutputWallpaper};
use bah::hyprland::icons::theme_icon_directories;
use bah::hyprland::types::{WindowWorkspace, WorkspaceWindow};
use bah::modules::airpods::{AirPodsListeningMode, AirPodsSession};
use bah::modules::system_controls::{
    refresh_due, ActiveNetwork, AudioEndpoint, BluetoothDevice, BluetoothEvent,
    BluetoothPairingPrompt, ControlAction, ControlSnapshot, NetworkKind, NetworkSettings,
};
use bah::notification_tray::NotificationTray;
use bah::routes::DeviceControlCenterRoute;
use bah::screenshot::{crop_picture, encode_png, encoding_result, Picture};
use bah::tui_device_control_center::preview_source;
use image::{DynamicImage, ImageFormat, Rgba, RgbaImage};

fn center(snapshot: ControlSnapshot) -> DeviceControlCenter {
    DeviceControlCenter::new(snapshot, DeviceControlCenterRoute::default())
}

fn picture() -> Picture {
    let mut image = RgbaImage::new(3, 2);
    for (x, y, pixel) in image.enumerate_pixels_mut() {
        *pixel = Rgba([x as u8, y as u8, 9, 255]);
    }
    Picture {
        width: 3,
        height: 2,
        pixels: image.into_raw(),
    }
}

#[test]
fn pictures_are_cropped_within_their_edges() {
    let part = crop_picture(picture(), 1, 1, 9, 9).unwrap();
    assert_eq!((part.width, part.height), (2, 1));
    assert_eq!(part.pixels, vec![1, 1, 9, 255, 2, 1, 9, 255]);
    assert_eq!(
        crop_picture(picture(), 3, 0, 9, 9),
        Err("selected area is outside the captured desktop".to_string())
    );
}

#[test]
fn clipboard_pictures_are_decoded() {
    let mut bytes = Vec::new();
    let mut image = RgbaImage::new(2, 1);
    image.put_pixel(1, 0, Rgba([1, 2, 3, 4]));
    image
        .write_to(&mut Cursor::new(&mut bytes), ImageFormat::Png)
        .unwrap();
    let decoded = image_preview(&bytes).expect("a picture");
    assert_eq!((decoded.width, decoded.height), (2, 1));
    assert_eq!(decoded.pixels, vec![0, 0, 0, 0, 1, 2, 3, 4]);
    assert_eq!(image_preview(&b"no picture".to_vec()), None);
}

#[test]
fn configurations_are_checked() {
    assert_eq!(check_config(true, true, 100), Ok(()));
    assert_eq!(check_config(false, false, 0), Err(ConfigError::BarHeight));
    assert_eq!(check_config(true, false, 0), Err(ConfigError::PopupWidth));
    assert_eq!(check_config(true, true, 101), Err(ConfigError::PauseLevel));
    assert_eq!(
        ConfigError::PauseLevel.message(),
        "configuration notifications.pause_level must be between 0 and 100"
    );
    let config = NotificationConfig::default();
    assert_eq!(config.notification_limit, 20);
    assert_eq!(config.critical_timeout_seconds, 0);
}

#[test]
fn requests_that_are_not_sent_are_reported() {
    let mut snapshot = ControlSnapshot::default();
    snapshot.airpods.ready = true;
    let mut center = center(snapshot);
    assert!(center.set_airpods_mode(AirPodsListeningMode::Adaptive));
    assert_eq!(
        center.snapshot.airpods.listening_mode,
        Some(AirPodsListeningMode::Adaptive)
    );
    center.airpods_request_failed();
    assert_eq!(
        center.snapshot.airpods.message,
        Some("AirPodsへの操作要求を送信できませんでした".to_string())
    );
    center.bluetooth_request_failed();
    assert_eq!(
        center.bluetooth_message,
        Some("Bluetoothの操作要求を送信できませんでした".to_string())
    );
    center.pairing_response_failed();
    assert_eq!(
        center.bluetooth_message,
        Some("ペアリング応答を送信できませんでした".to_string())
    );
    center.open_details(ActiveNetwork {
        label: "cable".into(),
        kind: NetworkKind::Wired,
        interface: "eth0".into(),
        default_ipv4: true,
        default_ipv6: false,
        connection_uuid: Some("u".into()),
        speed_mbps: None,
        settings: NetworkSettings::default(),
    });
    center.save_request_failed();
    assert_eq!(
        center.details.as_ref().unwrap().message,
        Some("設定の保存要求を送信できませんでした".to_string())
    );
    center.request_save_network_settings();
    center.close_modal();
    assert!(center.modal.is_none());
}

#[test]
fn busy_devices_are_left_alone() {
    let device = BluetoothDevice {
        path: "/d".into(),
        label: "Headset".into(),
        connected: false,
        paired: false,
        rssi: None,
    };
    let mut center = center(ControlSnapshot::default());
    assert!(matches!(
        center.select_bluetooth_device(&device),
        Some(ControlAction::PairBluetooth { device_path }) if device_path == "/d"
    ));
    center.apply_bluetooth_event(BluetoothEvent::OperationStarted {
        device_path: "/d".into(),
        pairing: true,
    });
    assert!(center.select_bluetooth_device(&device).is_none());
    center.apply_bluetooth_event(BluetoothEvent::Succeeded {
        device_path: "/d".into(),
    });
    assert!(center.select_bluetooth_device(&device).is_some());
    center.set_snapshot(ControlSnapshot::default());
    assert!(center.snapshot.bluetooth_devices.is_empty());
}

#[test]
fn fields_have_numbers_of_their_own() {
    assert_ne!(
        InputField::Password.element_id(),
        InputField::BluetoothPin.element_id()
    );
    assert_ne!(
        InputField::Ipv4Address.element_id(),
        InputField::Ipv6Address.element_id()
    );
}

#[test]
fn a_monitor_becomes_the_main_one() {
    let monitor = |name: &str, x: i32| Monitor {
        name: name.into(),
        description: String::new(),
        width: 100,
        height: 50,
        refresh_rate: "60.00".into(),
        x,
        y: 0,
        scale: "1.0000".into(),
        transform: 0,
        focused: false,
        disabled: false,
        logical_width: 100,
        logical_height: 50,
    };
    let layout = DisplayLayout::from_monitors(vec![monitor("A", 0), monitor("B", 100)]);
    let mut settings = DisplaySettings::new(Some(layout), vec![]);
    assert!(!settings.set_main("C"));
    assert!(settings.set_main("B"));
    assert_eq!(settings.layout.as_ref().unwrap().main, "B");
    assert_eq!(settings.layout.as_ref().unwrap().monitors[0].x, -100);
    settings.set_wallpaper("B", "/b.png".into());
    settings.clear_wallpaper();
    assert!(settings.wallpapers.is_empty());
    assert_eq!(Monitor::oriented_size(100, 50, 1), (50, 100));
    assert_eq!(Monitor::oriented_size(100, 50, 2), (100, 50));
}

#[test]
fn windows_have_a_title() {
    let mut window = WorkspaceWindow {
        address: "0x1".into(),
        app_id: "term".into(),
        initial_app_id: String::new(),
        title: " ".into(),
        initial_title: "First".into(),
        mapped: true,
        hidden: false,
        pinned: false,
        focus_history_id: 0,
        workspace: WindowWorkspace { id: 1 },
        display_name: "Terminal".into(),
        icon: None,
    };
    assert_eq!(window.title_or_initial(), "First");
    assert!(window.is_switcher_candidate());
    window.title = "Shell".into();
    window.hidden = true;
    assert_eq!(window.title_or_initial(), "Shell");
    assert!(!window.is_switcher_candidate());
    assert!(!theme_icon_directories().is_empty());
}

#[test]
fn a_failed_command_is_taken_back() {
    let mut session = AirPodsSession::new();
    session.command_failed(Some(AirPodsListeningMode::Adaptive), "busy");
    assert_eq!(
        session.status.message,
        Some("モードを変更できませんでした: busy".to_string())
    );
    assert_eq!(
        session.status.listening_mode,
        Some(AirPodsListeningMode::Adaptive)
    );
}

#[test]
fn the_tray_hides_and_switches() {
    let mut controls = ControlSnapshot::default();
    controls.wifi.available = true;
    controls.audio_output.available = true;
    let mut tray = NotificationTray::new(controls, month_of(2026, 1).unwrap(), false);
    tray.show(0, true);
    assert!(tray.toggle_wifi());
    assert!(tray.controls.wifi.enabled);
    assert!(!tray.toggle_bluetooth());
    assert!(tray.toggle_mute(AudioEndpoint::Output));
    assert!(tray.controls.audio_output.muted);
    assert!(!tray.toggle_mute(AudioEndpoint::Input));
    tray.begin_render(5);
    assert!(tray.begin_hide(10, false));
    assert!(!tray.begin_hide(11, false));
    assert!(tray.hiding);
}

#[test]
fn the_bar_is_higher_with_a_menu() {
    let mut bar = BarState::new();
    let low = bar.jump_menu_height();
    bar.jump_menu = Some(vec![]);
    bar.launched_jump_list_action();
    assert!(bar.jump_menu.is_none());
    assert_eq!(bar.jump_menu_height(), low);
}

#[test]
fn encoded_picture_is_read_back() {
    let bytes = encode_png(picture()).expect("a picture that can be written");
    assert_eq!(&bytes[..8], b"\x89PNG\r\n\x1a\n");
    assert_eq!(image_preview(&bytes), Some(picture()));
}

#[test]
fn picture_without_pixels_is_not_encoded() {
    let empty = Picture {
        width: 0,
        height: 0,
        pixels: Vec::new(),
    };
    let message = "failed to encode screenshot PNG".to_string();
    assert_eq!(encode_png(empty), Err(message.clone()));
    assert_eq!(encoding_result(None), Err(message));
    assert_eq!(encoding_result(Some(vec![7])), Ok(vec![7]));
}

#[test]
fn pictures_of_every_usual_format_are_decoded() {
    let source = RgbaImage::from_raw(3, 2, picture().pixels).expect("enough bytes");
    let source = DynamicImage::ImageRgba8(source);
    for format in [
        ImageFormat::Png,
        ImageFormat::Gif,
        ImageFormat::WebP,
        ImageFormat::Bmp,
        ImageFormat::Tiff,
    ] {
        let mut bytes = Cursor::new(Vec::new());
        source.write_to(&mut bytes, format).expect("a picture");
        assert_eq!(image_preview(&bytes.into_inner()), Some(picture()));
    }

    let mut bytes = Cursor::new(Vec::new());
    source
        .write_to(&mut bytes, ImageFormat::Jpeg)
        .expect("a picture");
    let decoded = image_preview(&bytes.into_inner()).expect("a picture");
    assert_eq!((decoded.width, decoded.height), (3, 2));
    assert_eq!(decoded.pixels.len(), 24);
}

#[test]
fn first_wallpaper_is_previewed_without_a_shared_one() {
    let outputs = vec![
        OutputWallpaper {
            output: "DP-1".into(),
            path: "/one.png".into(),
        },
        OutputWallpaper {
            output: "DP-2".into(),
            path: "/two.png".into(),
        },
    ];
    let shared = Some("/shared.png".to_string());
    assert_eq!(preview_source(shared.clone(), &outputs), shared);
    assert_eq!(preview_source(None, &outputs), Some("/one.png".to_string()));
    assert_eq!(preview_source(None, &Vec::new()), None);
}

#[test]
fn system_is_looked_at_after_actions_and_every_second() {
    assert!(refresh_due(true, 0));
    assert!(!refresh_due(false, 999_999_999));
    assert!(refresh_due(false, 1_000_000_000));
}

#[test]
fn typing_a_code_keeps_the_rest_of_the_dialog() {
    let mut center = center(ControlSnapshot::default());
    center.bluetooth_pairing = Some(BluetoothPairingDialog {
        device_path: "/org/bluez/hci0/dev_1".into(),
        device_label: "Headset".into(),
        prompt: BluetoothPairingPrompt::PinCode,
        pin_code: "1".into(),
    });
    center.type_key(InputField::BluetoothPin, "2");
    let dialog = center.bluetooth_pairing.as_ref().expect("the dialog");
    assert_eq!(dialog.device_path, "/org/bluez/hci0/dev_1");
    assert_eq!(dialog.device_label, "Headset");
    assert!(matches!(dialog.prompt, BluetoothPairingPrompt::PinCode));
    assert_eq!(dialog.pin_code, "12");
}
