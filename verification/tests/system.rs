use std::collections::HashMap;

use bah::calendar::LocalTime;
use bah::memory_usage::{
    checked_sum, parse_kib_field, parse_memory_rollup, parse_resident_memory_kib,
    read_memory_usage_with, ErrorKind, MemoryError, MemoryRollup, MemoryUsage,
};
use bah::modules::airpods::{
    battery_average, AirPodsCommand, AirPodsListeningMode, AirPodsSession, AirPodsStatus,
    AirPodsStep, BatteryPart, BatteryReport, CommandStep, RETRY_INTERVAL,
};
use bah::modules::clock::Clock;
use bah::modules::cpu_usage::{
    classify_cpu_core_kinds, cpu_list_count, cpu_usage_percent, cpu_usage_percent_tenths,
    is_intel_cpu, parse_cpu_snapshot, parse_cpu_times, parse_memory_usage, CpuTimes,
    CpuUsageSampler,
};
use bah::modules::devices::{
    backlight_status, battery_status, bluetooth_label, bluetooth_status, brightness_value,
    parse_wpctl_volume, read_u32, read_u64, select_adapter, select_backlight, select_battery,
    wifi_status, AccessPoint, BacklightFacts, BluetoothAdapter, DeviceFacts, NetworkDevice,
    NetworkTrafficSampler, PowerSupply, DEVICE_ACTIVATED, DEVICE_ETHERNET, DEVICE_WIFI,
};
use bah::modules::system_controls::{
    control_request, AudioEndpoint, ControlAction, ControlRequest, ControlSnapshot, CpuCoreKind,
    CpuCoreUsage, CpuStatus, LevelStatus, MemoryStatus,
};

const ROLLUP: &str = "00400000-7fffffff ---p 00000000 00:00 0 [rollup]
Rss:                12000 kB
Pss:                 9000 kB
Shared_Clean:         900 kB
Shared_Dirty:         100 kB
Private_Clean:       3000 kB
Private_Dirty:       8000 kB
Anonymous:           7900 kB
Swap:                  20 kB
";

#[test]
fn parses_memory_rollup_and_sums_private_and_shared_memory() {
    assert_eq!(
        parse_memory_rollup(ROLLUP).unwrap(),
        MemoryRollup {
            rss_kib: 12_000,
            pss_kib: 9_000,
            private_kib: 11_000,
            shared_kib: 1_000,
            anonymous_kib: 7_900,
            swap_kib: 20,
        }
    );
}

#[test]
fn parses_rollup_fields_in_any_order() {
    let reversed = ROLLUP.lines().rev().collect::<Vec<_>>().join("\n");

    assert_eq!(parse_memory_rollup(&reversed).unwrap().rss_kib, 12_000);
}

#[test]
fn rejects_missing_or_malformed_rollup_fields() {
    assert!(parse_memory_rollup("Rss: 12000 kB\n").is_err());
    assert!(parse_memory_rollup(
        &ROLLUP.replace("Pss:                 9000", "Pss:                 many")
    )
    .is_err());
    assert!(parse_memory_rollup(&ROLLUP.replace(
        "Swap:                  20 kB",
        "Swap:                  20 bytes"
    ))
    .is_err());
}

fn failed(kind: ErrorKind, message: &str) -> MemoryError {
    MemoryError {
        kind,
        message: message.to_string(),
    }
}

#[test]
fn falls_back_to_status_when_rollup_is_unavailable() {
    let usage = read_memory_usage_with(
        || Err(failed(ErrorKind::PermissionDenied, "denied")),
        || Ok("Name:\tbah\nVmRSS:\t   7890 kB\n".to_string()),
    )
    .unwrap();

    assert_eq!(usage, MemoryUsage::ResidentOnly { rss_kib: 7_890 });
}

#[test]
fn falls_back_to_status_when_rollup_is_invalid() {
    let usage = read_memory_usage_with(
        || Ok("Rss: 12000 kB\n".to_string()),
        || Ok("Name:\tbah\nVmRSS:\t   7890 kB\n".to_string()),
    )
    .unwrap();

    assert_eq!(usage, MemoryUsage::ResidentOnly { rss_kib: 7_890 });
}

#[test]
fn reports_both_errors_when_rollup_and_status_are_unavailable() {
    let error = read_memory_usage_with(
        || Err(failed(ErrorKind::PermissionDenied, "denied")),
        || Err(failed(ErrorKind::NotFound, "missing")),
    )
    .unwrap_err();

    assert!(error.to_text().contains("smaps rollup unavailable"));
    assert!(error.to_text().contains("status fallback unavailable"));
}

#[test]
fn errors_of_both_sources_have_the_kind_of_the_second() {
    let error = read_memory_usage_with(
        || Err(failed(ErrorKind::PermissionDenied, "denied")),
        || Err(failed(ErrorKind::NotFound, "missing")),
    )
    .unwrap_err();
    assert_eq!(error.kind(), ErrorKind::NotFound);
    assert_eq!(
        error.to_text(),
        "smaps rollup unavailable (denied); status fallback unavailable (missing)"
    );

    let error = read_memory_usage_with(
        || Err(failed(ErrorKind::PermissionDenied, "denied")),
        || Ok(String::new()),
    )
    .unwrap_err();
    assert_eq!(error.kind(), ErrorKind::InvalidData);
    assert_eq!(
        error.to_text(),
        "smaps rollup unavailable (denied); \
         status fallback unavailable (VmRSS is missing from procfs)"
    );
}

#[test]
fn parses_resident_memory_from_procfs_status() {
    let status = "Name:\tbah\nVmSize:\t  123456 kB\nVmRSS:\t   7890 kB\n";

    assert_eq!(parse_resident_memory_kib(status).unwrap(), 7890);
}

#[test]
fn malformed_numbers_are_explained() {
    let error = parse_kib_field("Rss: many kB\n", "Rss").unwrap_err();
    assert_eq!(error.kind(), ErrorKind::InvalidData);
    assert!(error.to_text().contains("invalid digit found in string"));
    assert_ne!(error.to_text(), "many");
    assert_eq!(checked_sum("total", 2, 3), Ok(5));
    assert!(checked_sum("total", u64::MAX, 1).is_err());
}

#[test]
fn averages_two_earbuds_and_retains_a_single_available_value() {
    assert_eq!(battery_average(Some(86), Some(73)), Some(79));
    assert_eq!(battery_average(Some(86), None), Some(86));
    assert_eq!(battery_average(None, Some(73)), Some(73));
    assert_eq!(battery_average(None, None), None);
}

#[test]
fn listening_mode_ignores_off_and_unknown_protocol_values() {
    assert_eq!(
        AirPodsListeningMode::from_byte(0x02),
        Some(AirPodsListeningMode::NoiseCancellation)
    );
    assert_eq!(
        AirPodsListeningMode::from_byte(0x03),
        Some(AirPodsListeningMode::Transparency)
    );
    assert_eq!(
        AirPodsListeningMode::from_byte(0x04),
        Some(AirPodsListeningMode::Adaptive)
    );
    assert_eq!(AirPodsListeningMode::from_byte(0x01), None);
    assert_eq!(AirPodsListeningMode::from_byte(0xff), None);
}

#[test]
fn earbuds_report_their_charge() {
    let mut status = AirPodsStatus::default();
    status.apply_snapshot(
        &vec![
            BatteryReport {
                part: BatteryPart::Left,
                level: 80,
                disconnected: false,
            },
            BatteryReport {
                part: BatteryPart::Right,
                level: 61,
                disconnected: false,
            },
        ],
        Some(3),
    );
    assert_eq!(status.left_percent, Some(80));
    assert_eq!(status.right_percent, Some(61));
    assert_eq!(status.average_percent, Some(70));
    assert_eq!(
        status.listening_mode,
        Some(AirPodsListeningMode::Transparency)
    );
}

#[test]
fn earbuds_are_connected_again_after_a_while() {
    let mut session = AirPodsSession::new();
    assert!(matches!(session.next_step(0), AirPodsStep::Wait));
    session.discovered(Some("AA".into()));
    assert!(matches!(session.next_step(1), AirPodsStep::Connect(address) if address == "AA"));
    session.connection_finished(Err("refused".into()));
    assert!(matches!(session.next_step(2), AirPodsStep::Wait));
    assert!(matches!(
        session.next_step(1 + RETRY_INTERVAL),
        AirPodsStep::Connect(_)
    ));
    session.connection_finished(Ok(()));
    assert!(matches!(
        session.begin_command(AirPodsCommand::SetListeningMode(
            AirPodsListeningMode::Adaptive
        )),
        CommandStep::Send {
            mode: AirPodsListeningMode::Adaptive,
            ..
        }
    ));
}

#[test]
fn calculates_cpu_usage_from_consecutive_proc_stat_samples() {
    let mut sampler = CpuUsageSampler::default();
    assert_eq!(
        sampler.sample_snapshot(
            parse_cpu_snapshot(
                "cpu  100 0 0 700 0 0 0 0\n\
                 cpu0 50 0 0 300 0 0 0 0\n\
                 cpu1 50 0 0 400 0 0 0 0\n",
            )
            .unwrap(),
        ),
        CpuStatus {
            available: true,
            percent: 0,
            core_usages: vec![],
        }
    );
    assert_eq!(
        sampler.sample_snapshot(
            parse_cpu_snapshot(
                "cpu  160 0 0 740 0 0 0 0\n\
                 cpu0 90 0 0 320 0 0 0 0\n\
                 cpu1 70 0 0 420 0 0 0 0\n",
            )
            .unwrap(),
        ),
        CpuStatus {
            available: true,
            percent: 60,
            core_usages: vec![
                CpuCoreUsage {
                    index: 0,
                    kind: None,
                    percent_tenths: 667,
                },
                CpuCoreUsage {
                    index: 1,
                    kind: None,
                    percent_tenths: 500,
                },
            ],
        }
    );
}

#[test]
fn parses_cpu_time_fields_without_counting_guest_time_twice() {
    assert_eq!(
        parse_cpu_times("cpu  10 20 30 40 50 60 70 80 90 100\n"),
        Some(CpuTimes {
            total: 360,
            idle: 90,
        })
    );
}

#[test]
fn classifies_mixed_intel_thread_topology_as_p_and_e_cores() {
    assert_eq!(
        classify_cpu_core_kinds(&[(0, 2), (1, 2), (2, 1), (3, 1)]),
        HashMap::from([
            (0, CpuCoreKind::Performance),
            (1, CpuCoreKind::Performance),
            (2, CpuCoreKind::Efficiency),
            (3, CpuCoreKind::Efficiency),
        ])
    );
    assert!(classify_cpu_core_kinds(&[(0, 2), (1, 2)]).is_empty());
}

#[test]
fn counts_ranges_in_cpu_sibling_lists() {
    assert_eq!(cpu_list_count("0-3,8,10-11\n"), Some(7));
}

#[test]
fn calculates_memory_usage_from_mem_available() {
    assert_eq!(
        parse_memory_usage("MemTotal:       1000 kB\nMemAvailable:    365 kB\n"),
        Some(MemoryStatus {
            available: true,
            percent: 64,
            used_kib: 635,
            total_kib: 1000,
        })
    );
}

#[test]
fn readings_that_did_not_change_are_idle() {
    let times = CpuTimes {
        total: 10,
        idle: 4,
    };
    assert_eq!(cpu_usage_percent(times, times), 0);
    assert_eq!(cpu_usage_percent_tenths(times, times), 0);
    assert!(!CpuUsageSampler::default().sample(None).available);
    assert!(is_intel_cpu("vendor_id\t: GenuineIntel\n"));
    assert!(!is_intel_cpu("vendor_id\t: AuthenticAMD\n"));
}

/// The share of each word that is a number, as a percentage.
fn percents(output: &str) -> Vec<Option<u8>> {
    output
        .split_whitespace()
        .map(|word| {
            word.parse::<f32>()
                .ok()
                .map(|value| (value * 100.0).round().clamp(0.0, 100.0) as u8)
        })
        .collect()
}

#[test]
fn parses_wpctl_volume_and_mute() {
    let muted = "Volume: 0.42 [MUTED]\n";
    assert_eq!(
        parse_wpctl_volume(muted, &percents(muted)),
        Some(LevelStatus {
            available: true,
            percent: 42,
            muted: true,
        })
    );
    let full = "Volume: 1.00\n";
    assert_eq!(
        parse_wpctl_volume(full, &percents(full)),
        Some(LevelStatus {
            available: true,
            percent: 100,
            muted: false,
        })
    );
}

#[test]
fn endpoint_maps_to_wireplumber_defaults() {
    assert_eq!(AudioEndpoint::Output.wpctl_id(), "@DEFAULT_AUDIO_SINK@");
    assert_eq!(AudioEndpoint::Input.wpctl_id(), "@DEFAULT_AUDIO_SOURCE@");
}

#[test]
fn bluetooth_label_uses_name_or_connected_count() {
    assert_eq!(bluetooth_label(false, &[]), "Off");
    assert_eq!(bluetooth_label(true, &[]), "未接続");
    assert_eq!(bluetooth_label(true, &["Headset".to_string()]), "Headset");
    assert_eq!(
        bluetooth_label(true, &["Headset".to_string(), "Keyboard".to_string()]),
        "2台接続"
    );
}

#[test]
fn the_active_network_device_is_shown() {
    let devices = vec![
        NetworkDevice {
            kind: DEVICE_WIFI,
            state: 30,
            interface: "wlan1".into(),
            access_point: None,
        },
        NetworkDevice {
            kind: DEVICE_WIFI,
            state: DEVICE_ACTIVATED,
            interface: "wlan0".into(),
            access_point: Some(AccessPoint {
                ssid: b"home".to_vec(),
                strength: Some(70),
            }),
        },
    ];
    let status = wifi_status(true, &devices);
    assert!(status.available && status.enabled);
    assert_eq!(status.label, "home");
    assert_eq!(status.signal_strength, Some(70));
    assert_eq!(status.interface, Some("wlan0".to_string()));
    let wired = vec![NetworkDevice {
        kind: DEVICE_ETHERNET,
        state: DEVICE_ACTIVATED,
        interface: "eth0".into(),
        access_point: None,
    }];
    assert!(wifi_status(true, &wired).wired);
    assert!(!wifi_status(false, &wired).wired);
}

#[test]
fn the_powered_adapter_is_chosen() {
    let adapters = vec![
        BluetoothAdapter {
            path: "/a".into(),
            powered: Some(false),
        },
        BluetoothAdapter {
            path: "/b".into(),
            powered: Some(true),
        },
    ];
    assert!(select_adapter(&adapters).is_some());
    assert_eq!(select_adapter(&vec![]), None);
    let devices = vec![DeviceFacts {
        connected: Some(true),
        alias: Some("Headset".into()),
        name: None,
    }];
    assert!(bluetooth_status(&vec![], &devices).is_none());
    assert!(bluetooth_status(&adapters, &devices).is_some());
}

#[test]
fn brightness_and_charge_are_percentages() {
    assert_eq!(backlight_status(50, 200).percent, 25);
    assert_eq!(brightness_value(200, 25), 50);
    assert_eq!(brightness_value(7, 0), 0);
    let battery = battery_status(140, Some("Charging"), None);
    assert_eq!(battery.percent, 100);
    assert!(battery.charging);
    assert_eq!(read_u32(" 42\n"), Some(42));
    assert_eq!(read_u64("x"), None);
}

#[test]
fn devices_are_chosen_by_kind() {
    let backlights = vec![
        BacklightFacts {
            name: "b".into(),
            kind: "raw".into(),
            max: 10,
        },
        BacklightFacts {
            name: "a".into(),
            kind: "firmware".into(),
            max: 10,
        },
    ];
    assert!(select_backlight(&backlights).is_some());
    assert_eq!(select_backlight(&vec![]), None);
    let supplies = vec![
        PowerSupply {
            name: "AC".into(),
            kind: "Mains".into(),
        },
        PowerSupply {
            name: "BAT0".into(),
            kind: "Battery".into(),
        },
    ];
    assert_eq!(select_battery(&supplies), Some(1));
}

#[test]
fn traffic_is_what_came_since_the_last_sample() {
    let mut sampler = NetworkTrafficSampler::new();
    assert!(sampler.sample(Some("eth0"), Some((100, 10)), 5).is_none());
    let delta = sampler
        .sample(Some("eth0"), Some((160, 12)), 9)
        .expect("a second sample");
    assert_eq!(delta.download, 60);
    assert_eq!(delta.upload, 2);
    assert_eq!(delta.nanoseconds, 4);
    assert!(sampler.sample(None, None, 10).is_none());
}

#[test]
fn actions_change_what_is_shown_at_once() {
    let mut snapshot = ControlSnapshot::default();
    snapshot.wifi.available = true;
    snapshot.apply_action(&ControlAction::SetVolume(AudioEndpoint::Output, 130));
    assert_eq!(snapshot.audio_output.percent, 100);
    let before = snapshot.wifi.enabled;
    snapshot.apply_action(&ControlAction::ToggleWifi);
    assert_ne!(snapshot.wifi.enabled, before);
    snapshot.apply_action(&ControlAction::ToggleWifi);
    assert_eq!(snapshot.wifi.enabled, before);
}

#[test]
fn actions_become_requests() {
    let snapshot = ControlSnapshot::default();
    assert!(matches!(
        control_request(&snapshot, &ControlAction::ToggleWifi),
        ControlRequest::SetWifi(true)
    ));
    match control_request(&snapshot, &ControlAction::SetVolume(AudioEndpoint::Input, 40)) {
        ControlRequest::RunWpctl(arguments) => {
            assert!(arguments.contains(&"@DEFAULT_AUDIO_SOURCE@".to_string()));
            assert!(arguments.contains(&"40%".to_string()));
        }
        _ => panic!("a volume is set by a command"),
    }
}

#[test]
fn the_clock_shows_the_time() {
    let mut time = LocalTime {
        year: 2024,
        month: 2,
        day: 29,
        hour: 7,
        minute: 5,
        second: 9,
    };
    let mut clock = Clock::new(&time);
    let first = clock.value().to_string();
    assert!(first.contains("07:05"));
    time.minute = 6;
    clock.tick(&time);
    assert_ne!(clock.value(), first);
}
