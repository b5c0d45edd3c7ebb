use bah::app::{
    display_id_for_output, display_with_identifier, log_file_path, runs_wallpaper,
    runtime_lock_path, validate_wgpu_backend, wallpaper_is_configured, wallpaper_namespace,
    wallpaper_outputs_ready, wallpaper_pid, Argument, RunMode, StartupOptions,
};
use bah::hyprland::display::OutputWallpaper;
use bah::routes::{
    decode_hex_ssid, encode_hex_ssid, is_capture_request, parse_route, route_payload, usage_error,
    ClipboardCommand, DeviceControlCenterPage, DeviceControlCenterRoute, SwitcherCommand, USAGE,
};

fn arguments(items: &[&str]) -> Vec<Argument> {
    items
        .iter()
        .map(|item| Argument::Text(item.to_string()))
        .collect()
}

fn mode(items: &[&str]) -> Result<RunMode, String> {
    RunMode::from_args(&arguments(items))
}

fn options(items: &[&str]) -> Result<StartupOptions, String> {
    StartupOptions::from_args(&arguments(items))
}

#[test]
fn wallpaper_startup_detects_common_and_output_specific_settings() {
    assert!(!wallpaper_is_configured(&None, &vec![]));
    assert!(wallpaper_is_configured(
        &Some("wallpaper.png".to_string()),
        &vec![]
    ));
    let wallpapers = vec![OutputWallpaper {
        output: "eDP-1".into(),
        path: "display.png".into(),
    }];
    assert!(wallpaper_is_configured(&None, &wallpapers));
}

#[test]
fn parses_supported_invocations() {
    assert_eq!(mode(&[]), Ok(RunMode::Bar));
    assert_eq!(mode(&["window", "config"]), Ok(RunMode::ConfigWindow));
    assert_eq!(
        mode(&["window", "device-control-center"]),
        Ok(RunMode::DeviceControlCenter(
            DeviceControlCenterRoute::default(),
        ))
    );
    assert!(mode(&["dcc", "display"]).is_err());
    assert_eq!(
        mode(&[
            "window",
            "device-control-center",
            "network",
            "--ssid-hex",
            "77696669",
        ]),
        Ok(RunMode::DeviceControlCenter(DeviceControlCenterRoute {
            page: DeviceControlCenterPage::Network,
            ssid: Some(b"wifi".to_vec()),
        }))
    );
    assert_eq!(
        mode(&["window", "device-control-center", "bluetooth"]),
        Ok(RunMode::DeviceControlCenter(DeviceControlCenterRoute {
            page: DeviceControlCenterPage::Bluetooth,
            ssid: None,
        }))
    );
    assert_eq!(
        mode(&["window", "device-control-center", "display"]),
        Ok(RunMode::DeviceControlCenter(DeviceControlCenterRoute {
            page: DeviceControlCenterPage::Display,
            ssid: None,
        }))
    );
    assert_eq!(mode(&["wallpaper"]), Ok(RunMode::Wallpaper));
    assert_eq!(
        mode(&["switcher", "cycle-reverse"]),
        Ok(RunMode::Switcher(SwitcherCommand::CycleReverse))
    );
    assert_eq!(
        mode(&["switcher", "commit"]),
        Ok(RunMode::Switcher(SwitcherCommand::Commit))
    );
    assert_eq!(
        mode(&["clipboard", "toggle"]),
        Ok(RunMode::Clipboard(ClipboardCommand::Toggle))
    );
    assert_eq!(
        mode(&["clipboard", "clear"]),
        Ok(RunMode::Clipboard(ClipboardCommand::Clear))
    );
    assert_eq!(
        mode(&["clipboard", "select"]),
        Ok(RunMode::Clipboard(ClipboardCommand::Select))
    );
    assert_eq!(mode(&["screenshot"]), Ok(RunMode::Screenshot));
    assert_eq!(
        mode(&["wallpaper", "set", "resrc/wallpaper.png"]),
        Ok(RunMode::WallpaperSet(Argument::Text(
            "resrc/wallpaper.png".into()
        )))
    );
    assert_eq!(mode(&["wallpaper", "unset"]), Ok(RunMode::WallpaperUnset));
    assert!(mode(&["window"]).is_err());
    assert!(mode(&["window", "other"]).is_err());
}

#[test]
fn parses_vulkan_driver_files_before_or_after_the_run_mode() {
    let path = "/run/opengl-driver/share/vulkan/icd.d/intel_icd.x86_64.json";
    assert_eq!(
        options(&["--vk-driver-files", path]),
        Ok(StartupOptions {
            mode: RunMode::Bar,
            memory_usage: false,
            wgpu_backend: None,
            vk_driver_files: Some(Argument::Text(path.into())),
        })
    );
    assert_eq!(
        options(&["window", "config", "--vk_driver_files", path]),
        Ok(StartupOptions {
            mode: RunMode::ConfigWindow,
            memory_usage: false,
            wgpu_backend: None,
            vk_driver_files: Some(Argument::Text(path.into())),
        })
    );
}

#[test]
fn parses_memory_logging_and_wgpu_backend_options() {
    assert_eq!(
        options(&["--memusg", "--wgpu_backend", "vulkan,gl"]),
        Ok(StartupOptions {
            mode: RunMode::Bar,
            memory_usage: true,
            wgpu_backend: Some("vulkan,gl".into()),
            vk_driver_files: None,
        })
    );
    assert!(options(&["--memusg", "--bah_memusg"]).is_err());
    assert!(options(&["--wgpu-backend"]).is_err());
    assert!(options(&["--wgpu-backend", "unknown"]).is_err());
    assert!(options(&["--wgpu-backend", "vulkan,"]).is_err());
}

#[test]
fn rejects_invalid_vulkan_driver_file_options() {
    assert!(options(&["--vk-driver-files"]).is_err());
    assert!(options(&["--vk-driver-files", ""]).is_err());
    assert!(options(&[
        "--vk-driver-files",
        "first.json",
        "--vk_driver_files",
        "second.json",
    ])
    .is_err());
}

#[test]
fn arguments_need_not_be_text() {
    let raw = Argument::Raw(vec![0xff]);
    assert!(validate_wgpu_backend(&raw).is_err());
    assert_eq!(
        RunMode::from_args(&vec![
            Argument::Text("wallpaper".into()),
            Argument::Text("set".into()),
            Argument::Raw(vec![0xff]),
        ]),
        Ok(RunMode::WallpaperSet(Argument::Raw(vec![0xff])))
    );
    assert!(raw.is("x") == false && Argument::Text("x".into()).is("x"));
}

#[test]
fn network_names_survive_being_written_and_read() {
    let ssid = vec![0, 127, 255];
    assert_eq!(encode_hex_ssid(&ssid), "007fff");
    assert_eq!(decode_hex_ssid("007fff"), Ok(ssid));
    assert!(decode_hex_ssid("0").is_err());
    assert!(decode_hex_ssid("0g").is_err());
    let route = DeviceControlCenterRoute {
        page: DeviceControlCenterPage::Network,
        ssid: Some(b"wifi".to_vec()),
    };
    assert_eq!(parse_route(&route_payload(&route)), Ok(route));
}

#[test]
fn commands_survive_being_written_and_read() {
    assert_eq!(
        ClipboardCommand::parse(ClipboardCommand::Previous.as_wire()),
        Some(ClipboardCommand::Previous)
    );
    assert_eq!(
        SwitcherCommand::parse(SwitcherCommand::SelectNext.as_wire()),
        Some(SwitcherCommand::SelectNext)
    );
    assert_eq!(ClipboardCommand::parse("sideways"), None);
    assert!(is_capture_request("capture"));
    assert!(!is_capture_request("other"));
    assert!(usage_error("wrong").contains("wrong") && usage_error("wrong").contains(USAGE));
}

#[test]
fn outputs_are_found_by_identifier() {
    let dp: Vec<u8> = vec![
        9, 231, 178, 152, 170, 208, 84, 109, 164, 222, 173, 203, 145, 6, 253, 125,
    ];
    let displays = vec![None, Some(vec![1, 2]), Some(dp.clone())];
    assert_eq!(display_with_identifier(&displays, &dp), Some(2));
    assert_eq!(display_id_for_output(&displays, "DP-1"), Some(2));
    assert_eq!(display_id_for_output(&displays, "DP-2"), None);
    assert!(wallpaper_outputs_ready(
        &displays,
        &vec![Some("DP-1".to_string()), None]
    ));
    assert!(!wallpaper_outputs_ready(
        &displays,
        &vec![Some("DP-2".to_string())]
    ));
}

#[test]
fn wallpapers_run_under_their_own_names() {
    assert_ne!(
        wallpaper_namespace(&None),
        wallpaper_namespace(&Some("DP-1".to_string()))
    );
    assert_eq!(wallpaper_pid(" 42\n"), Some(42));
    assert_eq!(wallpaper_pid("x"), None);
    assert!(runs_wallpaper(&b"/usr/bin/bah\0wallpaper\0".to_vec()));
    assert!(!runs_wallpaper(&b"/usr/bin/bah\0wallpapers\0".to_vec()));
}

#[test]
fn files_of_the_program_have_their_places() {
    assert_eq!(
        runtime_lock_path(Some("/run/user/1"), "/tmp", "bah.lock"),
        "/run/user/1/bah.lock"
    );
    assert_eq!(runtime_lock_path(None, "/tmp", "bah.lock"), "/tmp/bah.lock");
    assert_eq!(log_file_path(Some("/log"), None, None), "/log");
    assert!(log_file_path(None, Some("/state"), None).starts_with("/state/"));
}
