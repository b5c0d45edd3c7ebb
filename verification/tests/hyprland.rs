use bah::hyprland::client::{
    close_window_command, float_window_commands, focus_workspace_command, HyprlandClient,
    SocketError, SocketPaths,
};
use bah::hyprland::display::{
    after_reload, check_layout, positions_match, render_layout_lua, snapped_position,
    updated_config, wallpaper_sources, AfterReload, DisplayLayout, LayoutError, Monitor,
    OutputWallpaper,
};
use bah::hyprland::events::{refreshes_workspaces, IpcUpdate};
use bah::hyprland::icons::{
    data_directories, desktop_entry_icon, desktop_entry_name, has_image_extension, AppIconResolver,
    IconRequest,
};
use bah::hyprland::jump_list::{
    actions_in_entry, application_ids, parse_exec, remove_field_codes, section, setting_value,
};
use bah::hyprland::types::{active_title, Workspace};
use bah::hyprland::worker::{
    workspace_snapshot, ActiveWindow, FloatSearch, FloatStep, WorkerEvent, WorkerState, WorkerStep,
    FLOAT_ATTEMPTS,
};

fn monitor(name: &str, x: i32, y: i32, width: i32, height: i32) -> Monitor {
    Monitor {
        name: name.into(),
        description: String::new(),
        width,
        height,
        refresh_rate: "60.00".into(),
        x,
        y,
        scale: "1.0000".into(),
        transform: 0,
        focused: false,
        disabled: false,
        logical_width: width,
        logical_height: height,
    }
}

fn workspace(id: i32, windows: u32) -> Workspace {
    Workspace {
        id,
        name: id.to_string(),
        monitor: None,
        windows,
        active: false,
        focused: false,
        urgent: false,
    }
}

fn active_window(title: &str) -> ActiveWindow {
    ActiveWindow {
        address: None,
        title: title.into(),
        icon: None,
        jump_list_actions: vec![],
    }
}

#[test]
fn changing_main_keeps_relative_positions() {
    let mut layout = DisplayLayout::from_monitors(vec![
        monitor("A", 0, 0, 100, 100),
        monitor("B", 100, 20, 100, 100),
    ]);
    assert!(layout.normalize_main("B"));
    assert_eq!(
        (
            layout.monitor("B").unwrap().x,
            layout.monitor("B").unwrap().y
        ),
        (0, 0)
    );
    assert_eq!(
        (
            layout.monitor("A").unwrap().x,
            layout.monitor("A").unwrap().y
        ),
        (-100, -20)
    );
}

#[test]
fn snapping_places_an_edge_against_another_monitor() {
    let mut layout = DisplayLayout::from_monitors(vec![
        monitor("A", 0, 0, 100, 100),
        monitor("B", 250, 0, 100, 100),
    ]);
    layout.move_monitor("B", 108, 0);
    assert_eq!(layout.monitor("B").unwrap().x, 100);
}

#[test]
fn main_monitor_remains_at_the_origin() {
    let mut layout = DisplayLayout::from_monitors(vec![
        monitor("A", 0, 0, 100, 100),
        monitor("B", 100, 0, 100, 100),
    ]);
    assert!(!layout.move_monitor("A", 80, 40));
    assert_eq!(
        (
            layout.monitor("A").unwrap().x,
            layout.monitor("A").unwrap().y
        ),
        (0, 0)
    );
}

#[test]
fn overlapping_monitors_are_rejected() {
    let layout = DisplayLayout::from_monitors(vec![
        monitor("A", 0, 0, 100, 100),
        monitor("B", 50, 0, 100, 100),
    ]);
    assert!(layout.overlaps());
}

#[test]
fn generated_lua_contains_positions_and_default_workspace() {
    let layout = DisplayLayout {
        monitors: vec![monitor("DP-1", 0, 0, 1920, 1080)],
        main: "DP-1".into(),
    };
    let lua = render_layout_lua(&layout);
    assert!(lua.contains("position = \"0x0\""));
    assert!(lua.contains("workspace = \"1\""));
}

#[test]
fn output_wallpaper_takes_precedence_over_the_shared_wallpaper() {
    let layout = DisplayLayout::from_monitors(vec![monitor("A", 0, 0, 100, 100)]);
    let wallpapers = vec![OutputWallpaper {
        output: "A".into(),
        path: "/tmp/bah-display-wallpaper-test.png".into(),
    }];
    let shared = Some("/tmp/bah-display-shared-wallpaper-test.png".to_string());
    let sources = wallpaper_sources(&layout, &wallpapers, &shared);
    assert_eq!(sources.len(), 1);
    assert_eq!(sources[0].output, "A");
    assert_eq!(sources[0].path, "/tmp/bah-display-wallpaper-test.png");
}

#[test]
fn outputs_fall_back_to_the_shared_wallpaper() {
    let layout = DisplayLayout::from_monitors(vec![monitor("A", 0, 0, 100, 100)]);
    let shared = Some("/shared.png".to_string());
    let sources = wallpaper_sources(&layout, &vec![], &shared);
    assert_eq!(sources[0].path, "/shared.png");
    assert!(wallpaper_sources(&layout, &vec![], &None).is_empty());
}

#[test]
fn generated_lua_quotes_names() {
    let layout = DisplayLayout {
        monitors: vec![monitor("a\"b", 5, -7, 10, 10)],
        main: "a\"b".into(),
    };
    let lua = render_layout_lua(&layout);
    assert!(lua.contains("output = \"a\\\"b\""));
    assert!(lua.contains("position = \"5x-7\""));
    assert!(lua.contains("mode = \"10x10@60.00\""));
    assert!(lua.contains("scale = 1.0000, transform = 0"));
}

#[test]
fn layouts_are_checked_before_they_are_applied() {
    let empty = DisplayLayout::default();
    assert_eq!(check_layout(&empty), Err(LayoutError::NoMonitors));
    let mut lost = DisplayLayout::from_monitors(vec![monitor("A", 0, 0, 100, 100)]);
    assert_eq!(check_layout(&lost), Ok(()));
    lost.main = "C".into();
    assert_eq!(check_layout(&lost), Err(LayoutError::NoMain));
    let overlapping = DisplayLayout::from_monitors(vec![
        monitor("A", 0, 0, 100, 100),
        monitor("B", 50, 0, 100, 100),
    ]);
    assert_eq!(check_layout(&overlapping), Err(LayoutError::Overlap));
}

#[test]
fn a_layout_that_was_not_taken_is_rolled_back() {
    let expected = DisplayLayout::from_monitors(vec![monitor("A", 0, 0, 100, 100)]);
    let moved = DisplayLayout {
        monitors: vec![monitor("A", 10, 0, 100, 100)],
        main: "A".into(),
    };
    assert!(positions_match(&expected, &expected));
    assert!(!positions_match(&expected, &moved));
    assert!(matches!(
        after_reload(&expected, Ok(&expected)),
        AfterReload::Finish(_)
    ));
    assert!(matches!(
        after_reload(&expected, Ok(&moved)),
        AfterReload::Rollback(_)
    ));
    assert!(matches!(
        after_reload(&expected, Err("no answer".into())),
        AfterReload::Rollback(_)
    ));
}

#[test]
fn the_compositor_is_told_once_to_read_the_layout() {
    let once = updated_config("-- mine\n").expect("a first change");
    assert!(once.starts_with("-- mine\n"));
    assert_eq!(updated_config(&once), None);
}

#[test]
fn snapping_leaves_distant_monitors_alone() {
    let layout = DisplayLayout::from_monitors(vec![
        monitor("A", 0, 0, 100, 100),
        monitor("B", 250, 0, 100, 100),
    ]);
    assert_eq!(snapped_position(&layout, "B", 200, 300, 24), (200, 300));
    assert_eq!(snapped_position(&layout, "B", 101, 97, 24), (100, 100));
}

#[test]
fn reverse_dns_app_ids_are_not_image_extensions() {
    assert!(!has_image_extension("com.mitchellh.ghostty"));
    assert!(has_image_extension("com.mitchellh.ghostty.png"));
}

#[test]
fn desktop_entries_name_icons() {
    let contents = "[Desktop Entry]\nName=Terminal\nIcon=ghostty\nStartupWMClass=Ghostty\n";
    assert_eq!(
        desktop_entry_icon(contents),
        Some(("ghostty".to_string(), Some("Ghostty".to_string())))
    );
    assert_eq!(
        desktop_entry_name(contents),
        Some(("Terminal".to_string(), Some("Ghostty".to_string())))
    );
    let mut resolver = AppIconResolver::new();
    resolver.add_desktop_entry("com.mitchellh.ghostty", contents);
    let key = match resolver.resolve("Ghostty", "") {
        IconRequest::Find { key, name } => {
            assert_eq!(name, Some("ghostty".to_string()));
            key
        }
        IconRequest::Known(_) => panic!("nothing was remembered yet"),
    };
    resolver.remember(key, Some("/icons/ghostty.png".into()));
    assert!(matches!(
        resolver.resolve("Ghostty", ""),
        IconRequest::Known(Some(path)) if path == "/icons/ghostty.png"
    ));
    assert_eq!(resolver.display_name("Ghostty", ""), "Terminal");
}

#[test]
fn data_directories_follow_the_environment() {
    let found = data_directories(
        &Some("/data".to_string()),
        &None,
        &Some("/one:/two".to_string()),
    );
    assert_eq!(
        found,
        vec!["/data", "/one", "/two", "/run/current-system/sw/share"]
    );
}

#[test]
fn exec_parser_handles_quotes_and_field_codes() {
    assert_eq!(
        parse_exec("browser --new-window %U --label=\"New Window\""),
        Some(vec![
            "browser".to_string(),
            "--new-window".to_string(),
            "--label=New Window".to_string(),
        ])
    );
    assert_eq!(remove_field_codes("%%-%c-%f"), "%--");
}

#[test]
fn unfinished_quotes_are_no_command() {
    assert_eq!(parse_exec("browser \"open"), None);
}

#[test]
fn desktop_entries_list_actions() {
    let contents = "[Desktop Entry]\nActions=new;\n[Desktop Action new]\nName=New\nExec=term\n";
    let actions = actions_in_entry(contents, "term", &vec!["term".to_string()])
        .expect("an entry of the application");
    assert_eq!(actions.len(), 1);
    assert_eq!(actions[0].label, "New");
    assert_eq!(actions[0].action_id, "new");
    let settings = section(contents, "Desktop Entry").expect("a section");
    assert_eq!(setting_value(&settings, "Actions"), Some(&"new;".to_string()));
    assert!(section(contents, "Missing").is_none());
}

#[test]
fn applications_are_known_in_lower_case() {
    assert_eq!(application_ids(" Ghostty", "Term\0x"), vec!["ghostty", "term"]);
    assert_eq!(application_ids("", "ÄPP"), vec!["Äpp"]);
    let contents = "[Desktop Entry]\nActions=\n";
    let known = actions_in_entry(contents, "ÄPP", &vec!["äpp".to_string()]);
    assert!(known.is_some());
    let unknown = actions_in_entry(contents, "ÄPP", &vec!["Äpp".to_string()]);
    assert!(unknown.is_none());
}

#[test]
fn display_set_keeps_populated_and_active_workspaces() {
    let displayed =
        Workspace::display_set(vec![workspace(1, 1), workspace(2, 0), workspace(3, 2)], 2);

    assert_eq!(
        displayed
            .iter()
            .map(|workspace| workspace.id)
            .collect::<Vec<_>>(),
        vec![1, 2, 3]
    );
    assert!(displayed[1].active);
}

#[test]
fn display_set_hides_empty_inactive_workspaces() {
    let displayed =
        Workspace::display_set(vec![workspace(1, 1), workspace(2, 0), workspace(3, 1)], 1);

    assert_eq!(
        displayed
            .iter()
            .map(|workspace| workspace.id)
            .collect::<Vec<_>>(),
        vec![1, 3]
    );
}

#[test]
fn events_refresh_workspaces() {
    assert!(refreshes_workspaces("workspace>>2"));
    assert!(refreshes_workspaces("openwindow>>a,b"));
    assert!(!refreshes_workspaces("monitoradded>>DP-1"));
    assert!(!refreshes_workspaces("workspace"));
}

#[test]
fn commands_quote_addresses() {
    assert_eq!(
        focus_workspace_command(-3),
        "hl.dsp.focus({ workspace = -3 })"
    );
    assert_eq!(
        close_window_command("0x\"1"),
        "hl.dsp.window.close({ window = \"address:0x\\\"1\" })"
    );
    let commands = float_window_commands("0x1");
    assert_eq!(
        commands.1,
        "hl.dsp.window.resize({ x = 900, y = 650, window = \"address:0x1\" })"
    );
}

#[test]
fn sockets_are_below_the_runtime_directory() {
    let paths = SocketPaths::from_environment(Some("/run/user/1".into()), Some("sig".into()))
        .expect("both are known");
    assert_eq!(paths.command, "/run/user/1/hypr/sig/.socket.sock");
    assert_eq!(paths.events, "/run/user/1/hypr/sig/.socket2.sock");
    let client = HyprlandClient::new(paths);
    assert_eq!(client.paths.command, "/run/user/1/hypr/sig/.socket.sock");
    assert!(matches!(
        SocketPaths::from_environment(None, Some("sig".into())),
        Err(SocketError::NoRuntimeDirectory)
    ));
    assert!(matches!(
        SocketPaths::from_environment(Some("/run".into()), None),
        Err(SocketError::NoSignature)
    ));
}

#[test]
fn blank_titles_are_no_titles() {
    assert_eq!(active_title("  ".into()), None);
    assert_eq!(active_title(" a ".into()), Some(" a ".to_string()));
}

#[test]
fn the_worker_refreshes_after_changes() {
    let mut worker = WorkerState::Starting;
    assert!(matches!(worker.next(WorkerEvent::Ready), WorkerStep::Refresh));
    let snapshot = workspace_snapshot(vec![workspace(1, 1)], 1, vec![], vec![], active_window(" "));
    assert_eq!(snapshot.active_window_title, None);
    assert!(matches!(
        worker.next(WorkerEvent::Refreshed(snapshot)),
        WorkerStep::ReportAndOpen(IpcUpdate::Workspaces(_))
    ));
    assert!(matches!(worker.next(WorkerEvent::Ready), WorkerStep::Read));
    assert!(matches!(
        worker.next(WorkerEvent::Line("monitoradded>>DP-1\n".into())),
        WorkerStep::Read
    ));
    assert!(matches!(
        worker.next(WorkerEvent::Line("workspace>>2\n".into())),
        WorkerStep::Refresh
    ));
    let snapshot = workspace_snapshot(vec![workspace(2, 1)], 2, vec![], vec![], active_window("t"));
    assert!(matches!(
        worker.next(WorkerEvent::Refreshed(snapshot)),
        WorkerStep::ReportAndRead(IpcUpdate::Workspaces(_))
    ));
    assert!(matches!(
        worker.next(WorkerEvent::Closed),
        WorkerStep::ReportAndStop(IpcUpdate::WorkerStopped(text))
            if text == "Hyprland event socket closed"
    ));
    assert!(matches!(worker.next(WorkerEvent::Ready), WorkerStep::Stop));
}

#[test]
fn a_compositor_that_does_not_answer_is_unavailable() {
    let mut worker = WorkerState::Connecting;
    assert!(matches!(
        worker.next(WorkerEvent::Failed("refused".into())),
        WorkerStep::ReportAndStop(IpcUpdate::Unavailable(text)) if text == "refused"
    ));
    let mut worker = WorkerState::Listening;
    assert!(matches!(
        worker.next(WorkerEvent::Failed("broken".into())),
        WorkerStep::ReportAndStop(IpcUpdate::WorkerStopped(text)) if text == "broken"
    ));
}

#[test]
fn a_window_is_floated_once_it_is_there() {
    let mut search = FloatSearch::new();
    assert!(matches!(search.looked(Ok(None)), FloatStep::Wait));
    assert!(matches!(
        search.looked(Ok(Some("0x1".into()))),
        FloatStep::Dispatch(float, _, _)
            if float == "hl.dsp.window.float({ action = \"set\", window = \"address:0x1\" })"
    ));
    let mut search = FloatSearch {
        tried: FLOAT_ATTEMPTS - 1,
    };
    assert!(matches!(search.looked(Ok(None)), FloatStep::GiveUp));
    let mut search = FloatSearch::new();
    assert!(matches!(
        search.looked(Err("no".into())),
        FloatStep::Fail(text) if text == "no"
    ));
}
