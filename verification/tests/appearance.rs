use bah::calendar::{
    adjacent_calendar_month, calendar_days_for_month, is_today, month_of, month_title,
    screenshot_timestamp, LocalTime,
};
use bah::hyprland::display::{DisplayLayout, Monitor};
use bah::screenshot::{
    capture_result, crop_between, layout_bounds, parse_pictures_directory, parse_selection,
    pictures_directory, screenshot_name, screenshots_directory, selection_offsets,
    user_directories_file, Crop, ScreenshotResult, Selection,
};
use bah::theme::{environment_flag_value, BahTheme, SurfaceRole, VisualMode};
use bah::wallpaper::{is_video, swap_red_and_blue, video_dimensions};
use image::{imageops, Rgba, RgbaImage};

fn alpha(colour: u32) -> u32 {
    colour % 256
}

fn monitor(name: &str, x: i32, y: i32, width: i32, height: i32) -> Monitor {
    Monitor {
        name: name.into(),
        description: String::new(),
        width,
        height,
        refresh_rate: "60.00".into(),
        x,
        y,
        scale: "1.0000".into(),
        transform: 0,
        focused: false,
        disabled: false,
        logical_width: width,
        logical_height: height,
    }
}

#[test]
fn invalid_environment_values_fall_back_to_disabled() {
    assert!(environment_flag_value(Some("1")));
    assert!(environment_flag_value(Some(" true ")));
    assert!(!environment_flag_value(Some("sometimes")));
    assert!(!environment_flag_value(Some("0")));
    assert!(!environment_flag_value(None));
}

#[test]
fn visual_mode_precedence_preserves_readability() {
    assert_eq!(
        BahTheme::new(false, false, false).visual_mode,
        VisualMode::Readable
    );
    assert_eq!(
        BahTheme::new(false, false, true).visual_mode,
        VisualMode::Glass
    );
    assert_eq!(
        BahTheme::new(true, false, true).visual_mode,
        VisualMode::HighContrast
    );
    assert_eq!(
        BahTheme::new(true, true, true).visual_mode,
        VisualMode::HighContrast
    );
    assert_eq!(alpha(BahTheme::new(true, true, true).background), 255);
}

#[test]
fn surface_roles_preserve_their_density_hierarchy() {
    let theme = BahTheme::new(false, false, false);
    assert!(alpha(theme.surface(SurfaceRole::Floating)) > alpha(theme.surface(SurfaceRole::Shell)));
    assert!(
        alpha(theme.surface(SurfaceRole::Dialog)) > alpha(theme.surface(SurfaceRole::Floating))
    );
    assert_eq!(alpha(theme.surface(SurfaceRole::Window)), 255);
}

#[test]
fn the_environment_chooses_the_theme() {
    assert_eq!(
        BahTheme::from_environment(None, None, Some("1")).visual_mode,
        VisualMode::Glass
    );
    assert_eq!(
        BahTheme::from_environment(None, Some("1"), None).visual_mode,
        VisualMode::Opaque
    );
}

#[test]
fn parses_slurp_geometry() {
    assert_eq!(
        parse_selection("-120,10 400x300").unwrap(),
        Selection {
            x: -120,
            y: 10,
            width: 400,
            height: 300
        }
    );
}

#[test]
fn selections_that_are_empty_or_malformed_are_rejected() {
    assert!(parse_selection("1,2 0x3").is_err());
    assert!(parse_selection("1,2").is_err());
    assert!(parse_selection("").is_err());
}

#[test]
fn crops_using_desktop_origin_not_zero() {
    let layout = DisplayLayout::from_monitors(vec![monitor("left", -100, 0, 100, 100)]);
    let mut image = RgbaImage::new(100, 100);
    image.put_pixel(0, 0, Rgba([1, 2, 3, 255]));
    let selection = Selection {
        x: -100,
        y: 0,
        width: 10,
        height: 10,
    };
    let bounds = layout_bounds(&layout).unwrap();
    let offsets = selection_offsets(&bounds, &selection);
    let scale_x = image.width() as f32 / (bounds.right - bounds.left) as f32;
    let scale_y = image.height() as f32 / (bounds.bottom - bounds.top) as f32;
    let start = |offset: i64, scale: f32| (offset as f32 * scale).floor().max(0.0) as u32;
    let end = |offset: i64, scale: f32, limit: u32| {
        (offset as f32 * scale).ceil().min(limit as f32) as u32
    };
    let part = crop_between(
        start(offsets.left, scale_x),
        start(offsets.top, scale_y),
        end(offsets.right, scale_x, image.width()),
        end(offsets.bottom, scale_y, image.height()),
    )
    .unwrap();
    let crop = imageops::crop_imm(&image, part.x, part.y, part.width, part.height).to_image();
    assert_eq!(crop.dimensions(), (10, 10));
    assert_eq!(crop.get_pixel(0, 0), &Rgba([1, 2, 3, 255]));
}

#[test]
fn crops_without_pixels_are_rejected() {
    assert_eq!(
        crop_between(1, 2, 4, 8),
        Ok(Crop {
            x: 1,
            y: 2,
            width: 3,
            height: 6
        })
    );
    assert!(crop_between(4, 2, 4, 8).is_err());
    assert!(layout_bounds(&DisplayLayout::default()).is_err());
}

#[test]
fn pictures_directory_expands_home() {
    assert_eq!(
        parse_pictures_directory("XDG_PICTURES_DIR=\"$HOME/Images\"", "/tmp/home"),
        Some("/tmp/home/Images".to_string())
    );
}

#[test]
fn pictures_directory_has_fallbacks() {
    assert_eq!(pictures_directory(Some("/asked"), None, None), "/asked");
    assert_eq!(
        pictures_directory(None, Some("/home/a"), None),
        "/home/a/Pictures"
    );
    assert_eq!(
        screenshots_directory("/home/a/Pictures"),
        "/home/a/Pictures/Screenshots"
    );
    assert_eq!(
        user_directories_file(Some("/config"), Some("/home/a")),
        Some("/config/user-dirs.dirs".to_string())
    );
    assert_eq!(
        user_directories_file(None, Some("/home/a")),
        Some("/home/a/.config/user-dirs.dirs".to_string())
    );
    assert_eq!(user_directories_file(Some("/config"), None), None);
}

#[test]
fn screenshots_are_named_by_time() {
    let time = LocalTime {
        year: 2024,
        month: 2,
        day: 29,
        hour: 7,
        minute: 5,
        second: 9,
    };
    let timestamp = screenshot_timestamp(&time);
    assert!(timestamp.contains("2024"));
    let first = screenshot_name(&timestamp, 0);
    let second = screenshot_name(&timestamp, 1);
    assert!(first.contains(&timestamp) && first.ends_with(".png"));
    assert_ne!(first, second);
}

#[test]
fn captures_are_saved_cancelled_or_failed() {
    assert!(matches!(
        capture_result(Ok(("/a.png".into(), true))),
        ScreenshotResult::Saved { path, clipboard_copied: true } if path == "/a.png"
    ));
    assert!(matches!(
        capture_result(Err("broken".into())),
        ScreenshotResult::Failed(text) if text == "broken"
    ));
}

#[test]
fn calendar_navigation_crosses_year_boundaries() {
    assert_eq!(
        adjacent_calendar_month(month_of(2026, 1).unwrap(), -1),
        month_of(2025, 12).unwrap()
    );
    assert_eq!(
        adjacent_calendar_month(month_of(2026, 12).unwrap(), 1),
        month_of(2027, 1).unwrap()
    );
}

#[test]
fn calendar_starts_on_the_first_weekday_and_includes_every_day() {
    let days = calendar_days_for_month(2026, 8);

    assert_eq!(days.len(), 42);
    assert_eq!(days[6], Some(1));
    assert_eq!(days[36], Some(31));
    assert_eq!(days.iter().flatten().count(), 31);
}

#[test]
fn calendar_handles_february_in_a_leap_year() {
    let days = calendar_days_for_month(2024, 2);

    assert_eq!(days.iter().flatten().count(), 29);
    assert_eq!(days.iter().flatten().copied().max(), Some(29));
}

#[test]
fn months_are_shown_from_their_first_weekday() {
    assert_eq!(month_of(2024, 13), None);
    let month = month_of(2024, 2).unwrap();
    assert!(month_title(&month).contains("2024"));
    let today = LocalTime {
        year: 2024,
        month: 2,
        day: 29,
        hour: 0,
        minute: 0,
        second: 0,
    };
    assert!(is_today(&month, Some(29), &today));
    assert!(!is_today(&month, Some(28), &today));
    assert!(!is_today(&month, None, &today));
}

#[test]
fn videos_are_told_from_images() {
    assert!(is_video("/a/b.MP4"));
    assert!(!is_video("/a/b.png"));
    assert_eq!(video_dimensions("1920x1080\n"), Some((1920, 1080)));
    assert_eq!(video_dimensions("none"), None);
}

#[test]
fn colours_are_swapped_and_back() {
    let mut bytes = vec![1, 2, 3, 4, 5, 6, 7, 8];
    swap_red_and_blue(&mut bytes);
    assert_eq!(bytes, vec![3, 2, 1, 4, 7, 6, 5, 8]);
    swap_red_and_blue(&mut bytes);
    assert_eq!(bytes, vec![1, 2, 3, 4, 5, 6, 7, 8]);
}
