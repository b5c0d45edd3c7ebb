//! The colours of the shell's surfaces.
//!
//! A colour is written as red, green, blue and alpha, of one byte each, the
//! first in the highest.

use vstd::prelude::*;
use vstd::string::*;

use crate::app::str_view;
use crate::text::{same, trim, trim_text};

verus! {

/// How dense the surfaces are drawn.
#[derive(Clone, Copy, Debug, PartialEq, Eq, Structural)]
pub enum VisualMode {
    Readable,
    Glass,
    HighContrast,
    Opaque,
}

/// What a surface is for.
#[derive(Clone, Copy, Debug, PartialEq, Eq, Structural)]
pub enum SurfaceRole {
    /// At the edge and always there: the bar and the tray.
    Shell,
    /// There for a moment: popovers, tooltips and menus.
    Floating,
    /// In the focus: the control center, notification cards and dialogs.
    Dialog,
    /// An ordinary window.
    Window,
}

/// The colours, and how surfaces are drawn with them.
#[derive(Clone, Copy, Debug, PartialEq, Eq, Structural)]
pub struct BahTheme {
    pub background: u32,
    pub floating_background: u32,
    pub dialog_background: u32,
    pub window_background: u32,
    pub foreground: u32,
    pub muted_foreground: u32,
    pub active_background: u32,
    pub hover_background: u32,
    pub pressed_background: u32,
    pub container_background: u32,
    pub urgent_background: u32,
    pub border: u32,
    pub strong_border: u32,
    pub success: u32,
    pub focus: u32,
    pub error: u32,
    pub horizontal_padding: u32,
    pub module_spacing: u32,
    pub workspace_horizontal_padding: u32,
    pub workspace_vertical_padding: u32,
    pub workspace_gap: u32,
    pub active_workspace_radius: u32,
    pub inactive_workspace_radius: u32,
    pub control_radius: u32,
    pub panel_radius: u32,
    pub workspace_font_size: u32,
    pub clock_font_size: u32,
    pub active_window_icon_size: u32,
    pub active_window_title_max_width: u32,
    pub active_workspace_slide_distance: u32,
    pub active_workspace_slide_milliseconds: u64,
    pub notification_tray_slide_milliseconds: u64,
    pub visual_mode: VisualMode,
}

/// The mode that is chosen: contrast goes before all else, then what forbids
/// transparency, then what asks for it.
pub open spec fn chosen_mode(
    high_contrast: bool,
    transparency_disabled: bool,
    glass: bool,
) -> VisualMode {
    if high_contrast {
        VisualMode::HighContrast
    } else if transparency_disabled {
        VisualMode::Opaque
    } else if glass {
        VisualMode::Glass
    } else {
        VisualMode::Readable
    }
}

/// The opacity of a colour.
pub open spec fn alpha(colour: u32) -> u32 {
    colour % 256
}

/// A colour with nothing shining through.
pub open spec fn opaque(colour: u32) -> u32 {
    (colour - alpha(colour) + 255) as u32
}

/// The colours of the surfaces in a mode: shell, floating, dialog and window.
pub open spec fn surface_colours(mode: VisualMode) -> (u32, u32, u32, u32) {
    match mode {
        VisualMode::HighContrast => (0x101014F5, 0x101014FB, 0x101014FF, 0x101014FF),
        VisualMode::Opaque => (0x121216FF, 0x121216FF, 0x121216FF, 0x121216FF),
        VisualMode::Glass => (0x12121680, 0x121216E0, 0x121216F0, 0x121216FF),
        VisualMode::Readable => (0x121216B8, 0x121216E0, 0x121216F0, 0x121216FF),
    }
}

/// The theme of a mode, before transparency is forbidden.
pub open spec fn mode_theme(mode: VisualMode) -> BahTheme {
    let strong = mode == VisualMode::HighContrast;
    let (shell, floating, dialog, window) = surface_colours(mode);
    BahTheme {
        background: shell,
        floating_background: floating,
        dialog_background: dialog,
        window_background: window,
        foreground: if strong { 0xFAFAFCFF } else { 0xF5F5F7FF },
        muted_foreground: if strong { 0xD8D8DEFF } else { 0xCACAD2FF },
        active_background: if strong { 0xFAFAFC42 } else { 0xF5F5F72E },
        hover_background: if strong { 0xFAFAFC52 } else { 0xF5F5F71F },
        pressed_background: if strong { 0xFAFAFC66 } else { 0xF5F5F73D },
        container_background: if strong { 0xFAFAFC1F } else { 0xF5F5F70F },
        urgent_background: if strong { 0xF2A0A066 } else { 0xF2A0A052 },
        border: if strong { 0xFAFAFC52 } else { 0xF5F5F71F },
        strong_border: if strong { 0xFAFAFC70 } else { 0xF5F5F738 },
        success: 0x63D297FF,
        focus: 0x7DA7FFFF,
        error: 0xF2A0A0FF,
        horizontal_padding: 10,
        module_spacing: 6,
        workspace_horizontal_padding: 7,
        workspace_vertical_padding: 3,
        workspace_gap: 4,
        active_workspace_radius: 8,
        inactive_workspace_radius: 6,
        control_radius: 6,
        panel_radius: 8,
        workspace_font_size: 12,
        clock_font_size: 13,
        active_window_icon_size: 14,
        active_window_title_max_width: 240,
        active_workspace_slide_distance: 24,
        active_workspace_slide_milliseconds: 240,
        notification_tray_slide_milliseconds: 220,
        visual_mode: mode,
    }
}

/// The theme with opaque surfaces.
pub open spec fn without_transparency(t: BahTheme) -> BahTheme {
    BahTheme {
        background: opaque(t.background),
        floating_background: opaque(t.floating_background),
        dialog_background: opaque(t.dialog_background),
        window_background: opaque(t.window_background),
        ..t
    }
}

/// The theme that three choices give.
pub open spec fn chosen_theme(
    high_contrast: bool,
    transparency_disabled: bool,
    glass: bool,
) -> BahTheme {
    let theme = mode_theme(chosen_mode(high_contrast, transparency_disabled, glass));
    if transparency_disabled {
        without_transparency(theme)
    } else {
        theme
    }
}

/// The colour of a surface.
pub open spec fn surface_colour(t: BahTheme, role: SurfaceRole) -> u32 {
    match role {
        SurfaceRole::Shell => t.background,
        SurfaceRole::Floating => t.floating_background,
        SurfaceRole::Dialog => t.dialog_background,
        SurfaceRole::Window => t.window_background,
    }
}

/// A colour with nothing shining through.
fn opaque_colour(colour: u32) -> (r: u32)
    ensures
        r == opaque(colour),
{
    colour - colour % 256 + 255
}

impl BahTheme {
    /// The theme that three choices give.
    pub fn new(high_contrast: bool, transparency_disabled: bool, glass: bool) -> (r: Self)
        ensures
            r == chosen_theme(high_contrast, transparency_disabled, glass),
    {
        let visual_mode = if high_contrast {
            VisualMode::HighContrast
        } else if transparency_disabled {
            VisualMode::Opaque
        } else if glass {
            VisualMode::Glass
        } else {
            VisualMode::Readable
        };
        let (shell, floating, dialog, window): (u32, u32, u32, u32) = match visual_mode {
            VisualMode::HighContrast => (0x101014F5, 0x101014FB, 0x101014FF, 0x101014FF),
            VisualMode::Opaque => (0x121216FF, 0x121216FF, 0x121216FF, 0x121216FF),
            VisualMode::Glass => (0x12121680, 0x121216E0, 0x121216F0, 0x121216FF),
            VisualMode::Readable => (0x121216B8, 0x121216E0, 0x121216F0, 0x121216FF),
        };
        let mut theme = BahTheme {
            background: shell,
            floating_background: floating,
            dialog_background: dialog,
            window_background: window,
            foreground: if high_contrast { 0xFAFAFCFF } else { 0xF5F5F7FF },
            muted_foreground: if high_contrast { 0xD8D8DEFF } else { 0xCACAD2FF },
            active_background: if high_contrast { 0xFAFAFC42 } else { 0xF5F5F72E },
            hover_background: if high_contrast { 0xFAFAFC52 } else { 0xF5F5F71F },
            pressed_background: if high_contrast { 0xFAFAFC66 } else { 0xF5F5F73D },
            container_background: if high_contrast { 0xFAFAFC1F } else { 0xF5F5F70F },
            urgent_background: if high_contrast { 0xF2A0A066 } else { 0xF2A0A052 },
            border: if high_contrast { 0xFAFAFC52 } else { 0xF5F5F71F },
            strong_border: if high_contrast { 0xFAFAFC70 } else { 0xF5F5F738 },
            success: 0x63D297FF,
            focus: 0x7DA7FFFF,
            error: 0xF2A0A0FF,
            horizontal_padding: 10,
            module_spacing: 6,
            workspace_horizontal_padding: 7,
            workspace_vertical_padding: 3,
            workspace_gap: 4,
            active_workspace_radius: 8,
            inactive_workspace_radius: 6,
            control_radius: 6,
            panel_radius: 8,
            workspace_font_size: 12,
            clock_font_size: 13,
            active_window_icon_size: 14,
            active_window_title_max_width: 240,
            active_workspace_slide_distance: 24,
            active_workspace_slide_milliseconds: 240,
            notification_tray_slide_milliseconds: 220,
            visual_mode,
        };
        if transparency_disabled {
            theme.background = opaque_colour(theme.background);
            theme.floating_background = opaque_colour(theme.floating_background);
            theme.dialog_background = opaque_colour(theme.dialog_background);
            theme.window_background = opaque_colour(theme.window_background);
        }
        theme
    }

    /// The theme for the values of the three variables that choose it.
    pub fn from_environment(
        high_contrast: Option<&str>,
        disable_transparency: Option<&str>,
        glass: Option<&str>,
    ) -> (r: Self)
        ensures
            r == chosen_theme(
                is_on(str_view(high_contrast)),
                is_on(str_view(disable_transparency)),
                is_on(str_view(glass)),
            ),
    {
        BahTheme::new(
            environment_flag_value(high_contrast),
            environment_flag_value(disable_transparency),
            environment_flag_value(glass),
        )
    }

    /// The colour of a surface.
    pub fn surface(self, role: SurfaceRole) -> (r: u32)
        ensures
            r == surface_colour(self, role),
    {
        match role {
            SurfaceRole::Shell => self.background,
            SurfaceRole::Floating => self.floating_background,
            SurfaceRole::Dialog => self.dialog_background,
            SurfaceRole::Window => self.window_background,
        }
    }
}

/// Whether the value of a variable switches something on.
pub open spec fn is_on(value: Option<Seq<char>>) -> bool {
    match value {
        None => false,
        Some(v) => {
            let t = trim(v);
            t == "1"@ || t == "true"@ || t == "TRUE"@ || t == "yes"@ || t == "YES"@
        },
    }
}

/// Whether the value of a variable switches something on; whatever is not known
/// does not.
pub fn environment_flag_value(value: Option<&str>) -> (r: bool)
    ensures
        r == is_on(str_view(value)),
{
    match value {
        None => false,
        Some(value) => {
            let text = trim_text(value);
            let t = text.as_str();
            same(t, "1") || same(t, "true") || same(t, "TRUE") || same(t, "yes") || same(t, "YES")
        },
    }
}

/// What is more in the focus is never more transparent, and a window never is.
pub proof fn law_surfaces_grow_denser(
    high_contrast: bool,
    transparency_disabled: bool,
    glass: bool,
)
    ensures
        ({
            let t = chosen_theme(high_contrast, transparency_disabled, glass);
            &&& alpha(t.background) <= alpha(t.floating_background)
            &&& alpha(t.floating_background) <= alpha(t.dialog_background)
            &&& alpha(t.dialog_background) <= alpha(t.window_background)
            &&& alpha(t.window_background) == 255
        }),
{
}

/// Where transparency is forbidden nothing shines through any surface.
pub proof fn law_no_transparency(high_contrast: bool, glass: bool, role: SurfaceRole)
    ensures
        alpha(surface_colour(chosen_theme(high_contrast, true, glass), role)) == 255,
{
}

/// The theme is that of the mode that the choices ask for: contrast goes before all
/// else, and without transparency no surface is glass.
pub proof fn law_choices(high_contrast: bool, transparency_disabled: bool, glass: bool)
    ensures
        ({
            let t = chosen_theme(high_contrast, transparency_disabled, glass);
            &&& t.visual_mode is HighContrast <==> high_contrast
            &&& t.visual_mode is Opaque <==> !high_contrast && transparency_disabled
            &&& t.visual_mode is Glass <==> !high_contrast && !transparency_disabled && glass
            &&& t.visual_mode is Readable <==> !high_contrast && !transparency_disabled && !glass
        }),
{
}

/// Forbidding transparency leaves the hue of every surface, and all else, as it was.
pub proof fn law_hues_stay(t: BahTheme, role: SurfaceRole)
    ensures
        surface_colour(without_transparency(t), role) / 256 == surface_colour(t, role) / 256,
        without_transparency(t).foreground == t.foreground,
        without_transparency(t).border == t.border,
        without_transparency(t).visual_mode == t.visual_mode,
{
}

/// Glass lets more shine through the bar than the readable surfaces do, and contrast
/// less; what is written on a surface is brighter with contrast.
pub proof fn law_modes_differ()
    ensures
        alpha(chosen_theme(false, false, true).background) < alpha(
            chosen_theme(false, false, false).background,
        ) < alpha(chosen_theme(true, false, false).background),
        chosen_theme(false, false, false).foreground / 256 < chosen_theme(
            true,
            false,
            false,
        ).foreground / 256,
        chosen_theme(false, false, false).muted_foreground / 256 < chosen_theme(
            true,
            false,
            false,
        ).muted_foreground / 256,
{
}

/// The values that switch something on.
pub open spec fn switching_on() -> Seq<Seq<char>> {
    seq!["1"@, "true"@, "TRUE"@, "yes"@, "YES"@]
}

/// A variable switches something on if its value, without white space around it, is one
/// of a few words; nothing else does.
pub proof fn law_switching_on(value: Seq<char>)
    ensures
        is_on(Some(value)) == switching_on().contains(trim(value)),
        !is_on(None),
{
    let all = switching_on();
    assert(all[0] == "1"@ && all[1] == "true"@ && all[2] == "TRUE"@ && all[3] == "yes"@ && all[4]
        == "YES"@);
}

} // verus!
