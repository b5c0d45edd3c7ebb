//! The bar: the glyphs and tooltips of its status items, its menus, and what it
//! does with commands.

use vstd::prelude::*;
use vstd::string::*;

use crate::hyprland::events::IpcUpdate;
use crate::hyprland::jump_list::JumpListAction;
use crate::hyprland::types::{WorkspaceSnapshot, WorkspaceWindow};
use crate::modules::notifications::NotificationEvent;
use crate::modules::system_controls::{
    kind_label, BatteryStatus, ControlSnapshot, CpuCoreUsage, CpuStatus, LevelStatus,
    MemoryStatus, NetworkKind, NetworkRoute, ToggleStatus,
};
use crate::modules::workspaces::{active_id, first_report, on_workspace, replaced, Workspaces};
use crate::routes::{ClipboardCommand, SwitcherCommand};
use crate::text::{
    chars_of, concat, decimal, decimal_text, join, join_texts, lemma_decimal_value, lines, opt_view,
    owned, same,
    text_lines, views,
};

verus! {

/// The height that the visible part of every glyph is scaled to, in units of
/// the font.
pub const STATUS_ICON_REFERENCE_VISIBLE_HEIGHT: u32 = 928;

/// The units of the font to the em.
pub const STATUS_ICON_UNITS_PER_EM: u32 = 1000;

/// A glyph, and how much of the em its visible part takes.
#[derive(Clone, Copy, Debug)]
pub struct StatusIcon {
    pub glyph: &'static str,
    pub visible_height: u32,
}

/// A glyph as contracts speak of it.
pub struct IconView {
    pub glyph: Seq<char>,
    pub visible_height: u32,
}

impl View for StatusIcon {
    type V = IconView;

    open spec fn view(&self) -> IconView {
        IconView { glyph: self.glyph@, visible_height: self.visible_height }
    }
}

impl StatusIcon {
    /// A glyph with its visible height.
    pub fn new(glyph: &'static str, visible_height: u32) -> (r: Self)
        ensures
            r@ == icon(glyph@, visible_height),
    {
        StatusIcon { glyph, visible_height }
    }
}

/// A glyph with its visible height.
pub open spec fn icon(glyph: Seq<char>, visible_height: u32) -> IconView {
    IconView { glyph, visible_height }
}

/// The glyph of a volume.
pub open spec fn volume_glyph(status: LevelStatus) -> IconView {
    if !status.available {
        icon("\u{f0581}"@, 600)
    } else if status.muted || status.percent == 0 {
        icon("\u{f075f}"@, 508)
    } else if status.percent <= 33 {
        icon("\u{f057f}"@, 928)
    } else if status.percent <= 66 {
        icon("\u{f0580}"@, 712)
    } else {
        icon("\u{f057e}"@, 584)
    }
}

/// The glyph of a volume.
pub fn volume_icon(status: LevelStatus) -> (r: StatusIcon)
    ensures
        r@ == volume_glyph(status),
{
    if !status.available {
        StatusIcon::new("\u{f0581}", 600)
    } else if status.muted || status.percent == 0 {
        StatusIcon::new("\u{f075f}", 508)
    } else if status.percent <= 33 {
        StatusIcon::new("\u{f057f}", 928)
    } else if status.percent <= 66 {
        StatusIcon::new("\u{f0580}", 712)
    } else {
        StatusIcon::new("\u{f057e}", 584)
    }
}

/// The glyph of the network: by the route that traffic takes, and on a wireless
/// one by the strength of the signal.
pub open spec fn network_glyph(status: ToggleStatus, route: Option<NetworkKind>) -> IconView {
    if !status.available || route is None {
        icon("\u{f092c}"@, 488)
    } else if route == Some(NetworkKind::Wired) {
        icon("\u{f0200}"@, 572)
    } else if !status.enabled {
        icon("\u{f092c}"@, 488)
    } else {
        let strength = match status.signal_strength {
            Some(s) => s,
            None => 100,
        };
        if strength <= 25 {
            icon("\u{f091f}"@, 476)
        } else if strength <= 50 {
            icon("\u{f0922}"@, 476)
        } else if strength <= 75 {
            icon("\u{f0925}"@, 476)
        } else {
            icon("\u{f0928}"@, 476)
        }
    }
}

/// The kind of a route that may be missing.
pub open spec fn route_kind(route: Option<&NetworkRoute>) -> Option<NetworkKind> {
    match route {
        Some(r) => Some(r.kind),
        None => None,
    }
}

/// The glyph of the network.
pub fn network_icon(status: &ToggleStatus, route: Option<&NetworkRoute>) -> (r: StatusIcon)
    ensures
        r@ == network_glyph(*status, route_kind(route)),
{
    let kind = match route {
        None => {
            return StatusIcon::new("\u{f092c}", 488);
        },
        Some(route) => route.kind,
    };
    if !status.available {
        return StatusIcon::new("\u{f092c}", 488);
    }
    if kind == NetworkKind::Wired {
        return StatusIcon::new("\u{f0200}", 572);
    }
    if !status.enabled {
        return StatusIcon::new("\u{f092c}", 488);
    }
    let strength: u8 = match status.signal_strength {
        Some(strength) => strength,
        None => 100,
    };
    if strength <= 25 {
        StatusIcon::new("\u{f091f}", 476)
    } else if strength <= 50 {
        StatusIcon::new("\u{f0922}", 476)
    } else if strength <= 75 {
        StatusIcon::new("\u{f0925}", 476)
    } else {
        StatusIcon::new("\u{f0928}", 476)
    }
}

/// Whether Bluetooth has a glyph: it is on and something is connected.
pub fn bluetooth_icon_visible(status: &ToggleStatus) -> (r: bool)
    ensures
        r == (status.available && status.enabled && status.connected),
{
    status.available && status.enabled && status.connected
}

/// The step of ten percent that a charge is in.
pub open spec fn charge_step(percent: u8) -> int {
    if percent <= 10 {
        0
    } else if percent > 90 {
        9
    } else {
        (percent - 1) as int / 10
    }
}

/// The glyphs of a battery that is charged, by the step of its charge.
pub open spec fn charging_glyph(step: int) -> IconView {
    if step == 0 {
        icon("\u{f0084}"@, 928)
    } else if step == 1 {
        icon("\u{f0086}"@, 570)
    } else if step == 2 {
        icon("\u{f0087}"@, 570)
    } else if step == 3 {
        icon("\u{f0088}"@, 570)
    } else if step == 4 {
        icon("\u{f0089}"@, 570)
    } else if step == 5 {
        icon("\u{f008a}"@, 570)
    } else if step == 6 {
        icon("\u{f008b}"@, 570)
    } else if step == 7 {
        icon("\u{f008c}"@, 928)
    } else if step == 8 {
        icon("\u{f008d}"@, 544)
    } else {
        icon("\u{f0085}"@, 570)
    }
}

/// The glyphs of a battery that is used, by the step of its charge.
pub open spec fn draining_glyph(step: int) -> IconView {
    if step == 0 {
        icon("\u{f007a}"@, 928)
    } else if step == 1 {
        icon("\u{f007b}"@, 928)
    } else if step == 2 {
        icon("\u{f007c}"@, 928)
    } else if step == 3 {
        icon("\u{f007d}"@, 928)
    } else if step == 4 {
        icon("\u{f007e}"@, 928)
    } else if step == 5 {
        icon("\u{f007f}"@, 928)
    } else if step == 6 {
        icon("\u{f0080}"@, 928)
    } else if step == 7 {
        icon("\u{f0081}"@, 928)
    } else if step == 8 {
        icon("\u{f0082}"@, 928)
    } else {
        icon("\u{f0079}"@, 928)
    }
}

/// The glyph of a battery.
pub open spec fn battery_glyph(available: bool, charging: bool, percent: u8) -> IconView {
    if !available {
        icon("\u{f0091}"@, 928)
    } else if charging {
        charging_glyph(charge_step(percent))
    } else {
        draining_glyph(charge_step(percent))
    }
}

/// The glyph of a battery.
pub fn battery_icon(status: &BatteryStatus) -> (r: StatusIcon)
    ensures
        r@ == battery_glyph(status.available, status.charging, status.percent),
{
    if !status.available {
        return StatusIcon::new("\u{f0091}", 928);
    }
    if status.charging {
        return match status.percent {
            0..=10 => StatusIcon::new("\u{f0084}", 928),
            11..=20 => StatusIcon::new("\u{f0086}", 570),
            21..=30 => StatusIcon::new("\u{f0087}", 570),
            31..=40 => StatusIcon::new("\u{f0088}", 570),
            41..=50 => StatusIcon::new("\u{f0089}", 570),
            51..=60 => StatusIcon::new("\u{f008a}", 570),
            61..=70 => StatusIcon::new("\u{f008b}", 570),
            71..=80 => StatusIcon::new("\u{f008c}", 928),
            81..=90 => StatusIcon::new("\u{f008d}", 544),
            _ => StatusIcon::new("\u{f0085}", 570),
        };
    }
    match status.percent {
        0..=10 => StatusIcon::new("\u{f007a}", 928),
        11..=20 => StatusIcon::new("\u{f007b}", 928),
        21..=30 => StatusIcon::new("\u{f007c}", 928),
        31..=40 => StatusIcon::new("\u{f007d}", 928),
        41..=50 => StatusIcon::new("\u{f007e}", 928),
        51..=60 => StatusIcon::new("\u{f007f}", 928),
        61..=70 => StatusIcon::new("\u{f0080}", 928),
        71..=80 => StatusIcon::new("\u{f0081}", 928),
        81..=90 => StatusIcon::new("\u{f0082}", 928),
        _ => StatusIcon::new("\u{f0079}", 928),
    }
}

/// Tenths as a number with one decimal.
pub open spec fn tenths(n: nat) -> Seq<char> {
    decimal(n / 10) + "."@ + decimal(n % 10)
}

/// Tenths as a number with one decimal.
fn tenths_text(n: u64) -> (r: String)
    ensures
        r@ == tenths(n as nat),
{
    let mut out = decimal_text(n / 10);
    out.append(".");
    out.append(decimal_text(n % 10).as_str());
    out
}

/// The line of a core.
pub open spec fn core_line(core: CpuCoreUsage) -> Seq<char> {
    "CPU"@ + decimal(core.index as nat) + (match core.kind {
        Some(kind) => "("@ + kind_label(kind) + ")"@,
        None => ""@,
    }) + ": "@ + tenths(core.percent_tenths as nat) + "%"@
}

/// The lines of cores.
pub open spec fn core_lines(s: Seq<CpuCoreUsage>) -> Seq<Seq<char>> {
    s.map_values(|c: CpuCoreUsage| core_line(c))
}

/// What is said of the processor.
pub open spec fn cpu_text(available: bool, cores: Seq<CpuCoreUsage>) -> Seq<char> {
    if !available {
        "CPU: 利用不可"@
    } else if cores.len() == 0 {
        "CPU: 計測中"@
    } else {
        join(core_lines(cores), "\n"@)
    }
}

/// The line of a core.
fn core_line_text(core: &CpuCoreUsage) -> (r: String)
    ensures
        r@ == core_line(*core),
{
    let mut out = concat("CPU", decimal_text(core.index as u64).as_str());
    let kind = match core.kind {
        Some(kind) => {
            let mut text = concat("(", kind.label());
            text.append(")");
            text
        },
        None => owned(""),
    };
    out.append(kind.as_str());
    out.append(": ");
    out.append(tenths_text(core.percent_tenths as u64).as_str());
    out.append("%");
    out
}

/// What is said of the processor: a line for each of its cores.
pub fn cpu_usage_tooltip(status: &CpuStatus) -> (r: String)
    ensures
        r@ == cpu_text(status.available, status.core_usages@),
{
    if !status.available {
        return owned("CPU: 利用不可");
    }
    if status.core_usages.len() == 0 {
        return owned("CPU: 計測中");
    }
    let cores = &status.core_usages;
    let mut parts: Vec<String> = Vec::new();
    let mut i: usize = 0;
    while i < cores.len()
        invariant
            i <= cores.len(),
            views(parts@) =~= core_lines(cores@).take(i as int),
        decreases cores.len() - i,
    {
        let ghost before = parts@;
        let line = core_line_text(&cores[i]);
        parts.push(line);
        proof {
            assert(views(parts@) =~= views(before).push(line@));
        }
        i += 1;
    }
    proof {
        assert(core_lines(cores@).take(i as int) =~= core_lines(cores@));
    }
    join_texts(&parts, "\n")
}

/// The kibibytes of a gibibyte.
pub const KIB_PER_GIB: u64 = 1_048_576;

/// Kibibytes in tenths of gibibytes, rounded to the nearest, and where two are
/// as near to the even one.
pub open spec fn gib_tenths(kib: nat) -> nat {
    let whole = kib * 10 / 1_048_576;
    let rest = kib * 10 % 1_048_576;
    if rest > 524_288 || (rest == 524_288 && whole % 2 == 1) {
        (whole + 1) as nat
    } else {
        whole
    }
}

/// Kibibytes in gibibytes, with one decimal.
fn gib_text(kib: u64) -> (r: String)
    ensures
        r@ == tenths(gib_tenths(kib as nat)),
{
    let scaled: u128 = kib as u128 * 10;
    let mut whole: u128 = scaled / 1_048_576;
    let rest: u128 = scaled % 1_048_576;
    if rest > 524_288 || (rest == 524_288 && whole % 2 == 1) {
        whole += 1;
    }
    tenths_text(whole as u64)
}

/// What is said of the memory.
pub open spec fn memory_text(status: MemoryStatus) -> Seq<char> {
    if !status.available {
        "Memory使用率: 利用不可"@
    } else {
        "Memory使用率: "@ + decimal(status.percent as nat) + "%\n"@ + tenths(
            gib_tenths(status.used_kib as nat),
        ) + " GB/"@ + tenths(gib_tenths(status.total_kib as nat)) + " GB"@
    }
}

/// What is said of the memory: how full it is, and how much that is.
pub fn memory_usage_tooltip(status: MemoryStatus) -> (r: String)
    ensures
        r@ == memory_text(status),
{
    if !status.available {
        return owned("Memory使用率: 利用不可");
    }
    let mut out = owned("Memory使用率: ");
    out.append(decimal_text(status.percent as u64).as_str());
    out.append("%\n");
    out.append(gib_text(status.used_kib).as_str());
    out.append(" GB/");
    out.append(gib_text(status.total_kib).as_str());
    out.append(" GB");
    out
}

/// What is said of the volume.
pub open spec fn volume_text(status: LevelStatus) -> Seq<char> {
    if status.available {
        "音量: "@ + decimal(status.percent as nat) + "%"@ + (if status.muted {
            " (ミュート)"@
        } else {
            ""@
        })
    } else {
        "音量: 利用不可"@
    }
}

/// What is said of the volume.
pub fn volume_usage_tooltip(status: LevelStatus) -> (r: String)
    ensures
        r@ == volume_text(status),
{
    if !status.available {
        return owned("音量: 利用不可");
    }
    let mut out = owned("音量: ");
    out.append(decimal_text(status.percent as u64).as_str());
    out.append("%");
    out.append(
        if status.muted {
            " (ミュート)"
        } else {
            ""
        },
    );
    out
}

/// A rate, or that it is not known yet.
pub open spec fn rate(kbps: Option<u64>) -> Seq<char> {
    match kbps {
        Some(n) => decimal(n as nat) + " kbps"@,
        None => "計測中"@,
    }
}

/// A rate, or that it is not known yet.
fn rate_text(kbps: Option<u64>) -> (r: String)
    ensures
        r@ == rate(kbps),
{
    match kbps {
        Some(n) => concat(decimal_text(n).as_str(), " kbps"),
        None => owned("計測中"),
    }
}

/// What is said of the network.
pub open spec fn network_text(down: Option<u64>, up: Option<u64>) -> Seq<char> {
    "ネットワーク\n↓ "@ + rate(down) + "\n↑ "@ + rate(up)
}

/// What is said of the network: the rates in both directions.
pub fn network_usage_tooltip(status: &ToggleStatus) -> (r: String)
    ensures
        r@ == network_text(status.download_kbps, status.upload_kbps),
{
    let mut out = owned("ネットワーク\n↓ ");
    out.append(rate_text(status.download_kbps).as_str());
    out.append("\n↑ ");
    out.append(rate_text(status.upload_kbps).as_str());
    out
}

/// What is said of Bluetooth.
pub open spec fn bluetooth_text(status: ToggleStatus) -> Seq<char> {
    if status.available && status.connected {
        "Bluetooth\n"@ + status.label@
    } else {
        "Bluetooth: 未接続"@
    }
}

/// What is said of Bluetooth.
pub fn bluetooth_usage_tooltip(status: &ToggleStatus) -> (r: String)
    ensures
        r@ == bluetooth_text(*status),
{
    if status.available && status.connected {
        concat("Bluetooth\n", status.label.as_str())
    } else {
        owned("Bluetooth: 未接続")
    }
}

/// What is said of the battery.
pub open spec fn battery_text(status: BatteryStatus) -> Seq<char> {
    if status.available {
        "バッテリー\n"@ + decimal(status.percent as nat) + "%\n状態: "@ + status.state@
            + "\nHealth: "@ + status.health@
    } else {
        "バッテリー\n利用不可"@
    }
}

/// What is said of the battery.
pub fn battery_usage_tooltip(status: &BatteryStatus) -> (r: String)
    ensures
        r@ == battery_text(*status),
{
    if !status.available {
        return owned("バッテリー\n利用不可");
    }
    let mut out = owned("バッテリー\n");
    out.append(decimal_text(status.percent as u64).as_str());
    out.append("%\n状態: ");
    out.append(status.state.as_str());
    out.append("\nHealth: ");
    out.append(status.health.as_str());
    out
}

/// What is said of a status item.
pub open spec fn tooltip_text(s: ControlSnapshot, id: Seq<char>) -> Seq<char> {
    if id == "cpu"@ {
        cpu_text(s.cpu.available, s.cpu.core_usages@)
    } else if id == "memory"@ {
        memory_text(s.memory)
    } else if id == "volume"@ {
        volume_text(s.audio_output)
    } else if id == "bluetooth"@ {
        bluetooth_text(s.bluetooth)
    } else if id == "network"@ {
        network_text(s.wifi.download_kbps, s.wifi.upload_kbps)
    } else if id == "battery"@ {
        battery_text(s.battery)
    } else {
        "利用不可"@
    }
}

/// What is said of a status item.
pub fn status_tooltip_text(snapshot: &ControlSnapshot, id: &str) -> (r: String)
    ensures
        r@ == tooltip_text(*snapshot, id@),
{
    if same(id, "cpu") {
        cpu_usage_tooltip(&snapshot.cpu)
    } else if same(id, "memory") {
        memory_usage_tooltip(snapshot.memory)
    } else if same(id, "volume") {
        volume_usage_tooltip(snapshot.audio_output)
    } else if same(id, "bluetooth") {
        bluetooth_usage_tooltip(&snapshot.bluetooth)
    } else if same(id, "network") {
        network_usage_tooltip(&snapshot.wifi)
    } else if same(id, "battery") {
        battery_usage_tooltip(&snapshot.battery)
    } else {
        owned("利用不可")
    }
}

/// How wide a character is drawn, in columns: one for those below the first
/// hundred and twenty-eight, else two.
pub open spec fn char_columns(c: char) -> nat {
    if (c as u32) < 128 {
        1
    } else {
        2
    }
}

/// How wide a text is drawn, in columns.
pub open spec fn columns(s: Seq<char>) -> nat
    decreases s.len(),
{
    if s.len() == 0 {
        0
    } else {
        columns(s.drop_last()) + char_columns(s.last())
    }
}

/// The width of the widest of some lines.
pub open spec fn widest(ls: Seq<Seq<char>>) -> nat
    decreases ls.len(),
{
    if ls.len() == 0 {
        0
    } else {
        let before = widest(ls.drop_last());
        if columns(ls.last()) > before {
            columns(ls.last())
        } else {
            before
        }
    }
}

/// How wide a text is drawn, in columns.
pub fn text_columns(s: &str) -> (r: u128)
    ensures
        r == columns(s@),
{
    let chars = chars_of(s);
    let mut total: u128 = 0;
    let mut i: usize = 0;
    proof {
        assert(s@.take(0) =~= Seq::empty());
    }
    while i < chars.len()
        invariant
            i <= chars.len(),
            chars@ == s@,
            total == columns(s@.take(i as int)),
            total <= 2 * i,
        decreases chars.len() - i,
    {
        proof {
            assert(s@.take(i + 1).drop_last() =~= s@.take(i as int));
        }
        if (chars[i] as u32) < 128 {
            total += 1;
        } else {
            total += 2;
        }
        i += 1;
    }
    proof {
        assert(s@.take(i as int) =~= s@);
    }
    total
}

/// The size of a window in pixels.
#[derive(Clone, Copy, Debug, PartialEq, Eq, Structural)]
pub struct PixelSize {
    pub width: u128,
    pub height: u128,
}

/// A number kept between two others.
pub open spec fn clamped(n: int, low: int, high: int) -> int {
    if n < low {
        low
    } else if n > high {
        high
    } else {
        n
    }
}

/// The number of lines that a tooltip is high.
pub open spec fn line_count(text: Seq<char>) -> nat {
    if lines(text).len() == 0 {
        1
    } else {
        lines(text).len()
    }
}

/// The size of the tooltip for a text: eight pixels for each column and
/// seventeen for each line, with what is around them.
pub fn status_tooltip_window_size(text: &str) -> (r: PixelSize)
    ensures
        r.width == clamped((widest(lines(text@)) * 8 + 18) as int, 72, 240),
        r.height == line_count(text@) * 17 + 12,
{
    let all = text_lines(text);
    let ghost ls = lines(text@);
    let mut max: u128 = 0;
    let mut i: usize = 0;
    proof {
        assert(ls.take(0) =~= Seq::empty());
    }
    while i < all.len()
        invariant
            i <= all.len(),
            ls == views(all@),
            max == widest(ls.take(i as int)),
        decreases all.len() - i,
    {
        proof {
            assert(ls[i as int] == all@[i as int]@);
            assert(ls.take(i + 1).drop_last() =~= ls.take(i as int));
        }
        let width = text_columns(all[i].as_str());
        if width > max {
            max = width;
        }
        i += 1;
    }
    proof {
        assert(ls.take(i as int) =~= ls);
        assert(views(all@).len() == all@.len());
    }
    let count: u128 = if all.len() == 0 {
        1
    } else {
        all.len() as u128
    };
    let width: u128 = if max > 27 {
        240
    } else if max * 8 + 18 < 72 {
        72
    } else {
        max * 8 + 18
    };
    PixelSize { width, height: count * 17 + 12 }
}

/// The label of the badge with the number of notifications.
pub fn notification_badge_label(count: usize) -> (r: String)
    ensures
        r@ == if count > 99 {
            "99+"@
        } else {
            decimal(count as nat)
        },
{
    if count > 99 {
        owned("99+")
    } else {
        decimal_text(count as u64)
    }
}

/// A percentage, or a dash where it is not known.
pub fn percent_label(available: bool, percent: u8) -> (r: String)
    ensures
        r@ == if available {
            decimal(percent as nat) + "%"@
        } else {
            "—%"@
        },
{
    if available {
        concat(decimal_text(percent as u64).as_str(), "%")
    } else {
        owned("—%")
    }
}

/// The menus and the tooltip of the bar, and what it is busy with.
pub struct BarState {
    pub workspaces: Option<Workspaces>,
    pub jump_menu: Option<Vec<JumpListAction>>,
    pub workspace_menu: Option<Vec<WorkspaceWindow>>,
    pub jump_menu_resize_pending: bool,
    pub tooltip_hover: Option<String>,
    pub tooltip_generation: u64,
    pub tooltip_open: bool,
    pub screenshot_active: bool,
}

/// How high a menu is: rows of actions, or rows of windows that are twice as
/// high, with lines between and around them.
pub open spec fn menu_height(actions: Option<nat>, windows: Option<nat>) -> nat {
    match (actions, windows) {
        (Some(n), _) => n * 28 + 2,
        (None, Some(n)) => n * 57 + 1,
        (None, None) => 0,
    }
}

/// How many things a list holds that may be missing.
pub open spec fn opt_len<A>(v: Option<Vec<A>>) -> Option<nat> {
    match v {
        Some(v) => Some(v@.len()),
        None => None,
    }
}

/// The bar after a report of workspaces. Where another one became active an open
/// menu is closed, and the bar is to be resized.
pub open spec fn with_report(
    s: BarState,
    snapshot: WorkspaceSnapshot,
    slide_distance: u32,
) -> BarState {
    match s.workspaces {
        None => BarState { workspaces: Some(first_report(snapshot)), ..s },
        Some(current) => {
            let next = BarState {
                workspaces: Some(replaced(current, snapshot, slide_distance)),
                ..s
            };
            if current.active_workspace_id == active_id(snapshot.workspaces@) {
                next
            } else if s.jump_menu is Some {
                BarState { jump_menu: None, jump_menu_resize_pending: true, ..next }
            } else if s.workspace_menu is Some {
                BarState { workspace_menu: None, jump_menu_resize_pending: true, ..next }
            } else {
                next
            }
        },
    }
}

/// Whether no more than one menu is open.
pub open spec fn one_menu(s: BarState) -> bool {
    s.jump_menu is None || s.workspace_menu is None
}

impl BarState {
    /// The bar before anything was reported.
    pub fn new() -> (r: Self)
        ensures
            r == (BarState {
                workspaces: None,
                jump_menu: None,
                workspace_menu: None,
                jump_menu_resize_pending: false,
                tooltip_hover: None,
                tooltip_generation: 0,
                tooltip_open: false,
                screenshot_active: false,
            }),
    {
        BarState {
            workspaces: None,
            jump_menu: None,
            workspace_menu: None,
            jump_menu_resize_pending: false,
            tooltip_hover: None,
            tooltip_generation: 0,
            tooltip_open: false,
            screenshot_active: false,
        }
    }

    /// Takes over what the worker that listens to the compositor reports. Where
    /// another workspace became active an open menu is closed, and the bar is to
    /// be resized. What is no report of workspaces changes nothing.
    pub fn apply_ipc_update(&mut self, update: IpcUpdate, slide_distance: u32)
        ensures
            *final(self) == (match update {
                IpcUpdate::Workspaces(snapshot) => with_report(
                    *old(self),
                    snapshot,
                    slide_distance,
                ),
                _ => *old(self),
            }),
    {
        let snapshot = match update {
            IpcUpdate::Workspaces(snapshot) => snapshot,
            _ => {
                return;
            },
        };
        match self.workspaces.take() {
            None => {
                self.workspaces = Some(Workspaces::new(snapshot));
            },
            Some(mut current) => {
                let changed = current.replace(snapshot, slide_distance);
                self.workspaces = Some(current);
                if changed {
                    if self.jump_menu.is_some() {
                        self.jump_menu = None;
                        self.jump_menu_resize_pending = true;
                    } else if self.workspace_menu.is_some() {
                        self.workspace_menu = None;
                        self.jump_menu_resize_pending = true;
                    }
                }
            },
        }
    }

    /// Shows the actions of the application in the focus; without any nothing
    /// happens.
    pub fn show_jump_list(&mut self) -> (r: bool)
        ensures
            r == (old(self).workspaces is Some
                && old(self).workspaces->0.snapshot.jump_list_actions@.len() > 0),
            !r ==> *final(self) == *old(self),
            r ==> {
                &&& final(self).jump_menu is Some
                &&& final(self).jump_menu->0@
                    == old(self).workspaces->0.snapshot.jump_list_actions@
                &&& *final(self) == (BarState {
                    jump_menu: final(self).jump_menu,
                    workspace_menu: None,
                    jump_menu_resize_pending: false,
                    ..*old(self)
                })
            },
    {
        let actions = match &self.workspaces {
            None => {
                return false;
            },
            Some(workspaces) => clone_actions(workspaces.jump_list_actions()),
        };
        if actions.len() == 0 {
            return false;
        }
        self.jump_menu = Some(actions);
        self.workspace_menu = None;
        self.jump_menu_resize_pending = false;
        true
    }

    /// Shows the windows of a workspace; without any nothing happens.
    pub fn show_workspace_menu(&mut self, workspace_id: i32) -> (r: bool)
        ensures
            r == (old(self).workspaces is Some
                && old(self).workspaces->0.snapshot.workspace_windows@.filter(
                on_workspace(workspace_id),
            ).len() > 0),
            !r ==> *final(self) == *old(self),
            r ==> {
                &&& final(self).workspace_menu is Some
                &&& final(self).workspace_menu->0@
                    == old(self).workspaces->0.snapshot.workspace_windows@.filter(
                    on_workspace(workspace_id),
                )
                &&& *final(self) == (BarState {
                    jump_menu: None,
                    workspace_menu: final(self).workspace_menu,
                    jump_menu_resize_pending: false,
                    ..*old(self)
                })
            },
    {
        let windows = match &self.workspaces {
            None => {
                return false;
            },
            Some(workspaces) => workspaces.windows_for_workspace(workspace_id),
        };
        if windows.len() == 0 {
            return false;
        }
        self.workspace_menu = Some(windows);
        self.jump_menu = None;
        self.jump_menu_resize_pending = false;
        true
    }

    /// Closes the menu once one of its actions is launched.
    pub fn launched_jump_list_action(&mut self)
        ensures
            *final(self) == (BarState {
                jump_menu: None,
                jump_menu_resize_pending: false,
                ..*old(self)
            }),
    {
        self.jump_menu = None;
        self.jump_menu_resize_pending = false;
    }

    /// Closes an open menu and tells whether the bar is to be resized.
    pub fn hide_jump_list(&mut self) -> (r: bool)
        ensures
            r == (old(self).jump_menu is Some || old(self).workspace_menu is Some),
            !r ==> *final(self) == *old(self),
            r ==> *final(self) == (BarState {
                jump_menu: None,
                workspace_menu: if old(self).jump_menu is Some {
                    old(self).workspace_menu
                } else {
                    None
                },
                jump_menu_resize_pending: false,
                ..*old(self)
            }),
    {
        if self.jump_menu.is_some() {
            self.jump_menu = None;
        } else if self.workspace_menu.is_some() {
            self.workspace_menu = None;
        } else {
            return false;
        }
        self.jump_menu_resize_pending = false;
        true
    }

    /// How high the open menu is; nothing without one.
    pub fn jump_menu_height(&self) -> (r: u128)
        ensures
            r == menu_height(opt_len(self.jump_menu), opt_len(self.workspace_menu)),
    {
        match &self.jump_menu {
            Some(actions) => actions.len() as u128 * 28 + 2,
            None => match &self.workspace_menu {
                Some(windows) => windows.len() as u128 * 57 + 1,
                None => 0,
            },
        }
    }

    /// Takes note of the pointer entering or leaving a status item. On entering,
    /// the number is handed back that a tooltip is to be opened for later; on
    /// leaving an item that the pointer is not on any more nothing happens.
    pub fn set_status_tooltip_hovered(&mut self, id: &str, hovered: bool) -> (r: Option<u64>)
        ensures
            hovered ==> {
                &&& r == Some(final(self).tooltip_generation)
                &&& final(self).tooltip_generation == (old(self).tooltip_generation + 1)
                    % 0x1_0000_0000_0000_0000
                &&& opt_view(final(self).tooltip_hover) == Some(id@)
                &&& *final(self) == (BarState {
                    tooltip_hover: final(self).tooltip_hover,
                    tooltip_generation: final(self).tooltip_generation,
                    tooltip_open: false,
                    ..*old(self)
                })
            },
            !hovered && opt_view(old(self).tooltip_hover) == Some(id@) ==> {
                &&& r is None
                &&& final(self).tooltip_generation == (old(self).tooltip_generation + 1)
                    % 0x1_0000_0000_0000_0000
                &&& *final(self) == (BarState {
                    tooltip_hover: None,
                    tooltip_generation: final(self).tooltip_generation,
                    tooltip_open: false,
                    ..*old(self)
                })
            },
            !hovered && opt_view(old(self).tooltip_hover) != Some(id@) ==> r is None
                && *final(self) == *old(self),
    {
        if !hovered {
            let here = match &self.tooltip_hover {
                Some(current) => same(current.as_str(), id),
                None => false,
            };
            if here {
                self.tooltip_hover = None;
                self.tooltip_generation = self.tooltip_generation.wrapping_add(1);
                self.tooltip_open = false;
            }
            return None;
        }
        self.tooltip_hover = Some(owned(id));
        self.tooltip_generation = self.tooltip_generation.wrapping_add(1);
        self.tooltip_open = false;
        Some(self.tooltip_generation)
    }

    /// Whether the tooltip that was announced is still wanted: the pointer is on
    /// the same item and has not left it meanwhile. It is open from then on.
    pub fn tooltip_due(&mut self, id: &str, generation: u64) -> (r: bool)
        ensures
            r == (opt_view(old(self).tooltip_hover) == Some(id@)
                && old(self).tooltip_generation == generation),
            !r ==> *final(self) == *old(self),
            r ==> *final(self) == (BarState { tooltip_open: true, ..*old(self) }),
    {
        let here = match &self.tooltip_hover {
            Some(current) => same(current.as_str(), id),
            None => false,
        };
        if here && self.tooltip_generation == generation {
            self.tooltip_open = true;
            true
        } else {
            false
        }
    }

    /// Starts a screenshot, unless one is being taken.
    pub fn begin_screenshot(&mut self) -> (r: bool)
        ensures
            r == !old(self).screenshot_active,
            *final(self) == (BarState { screenshot_active: true, ..*old(self) }),
    {
        if self.screenshot_active {
            return false;
        }
        self.screenshot_active = true;
        true
    }

    /// Ends the screenshot.
    pub fn end_screenshot(&mut self)
        ensures
            *final(self) == (BarState { screenshot_active: false, ..*old(self) }),
    {
        self.screenshot_active = false;
    }
}

/// Copies of actions.
fn clone_actions(s: &Vec<JumpListAction>) -> (r: Vec<JumpListAction>)
    ensures
        r@ == s@,
{
    let mut out: Vec<JumpListAction> = Vec::new();
    let mut i: usize = 0;
    while i < s.len()
        invariant
            i <= s.len(),
            out@ =~= s@.take(i as int),
        decreases s.len() - i,
    {
        out.push(s[i].clone());
        i += 1;
    }
    proof {
        assert(s@.take(i as int) =~= s@);
    }
    out
}

/// What is done with the window switcher.
#[derive(Clone, Copy, Debug, PartialEq, Eq, Structural)]
pub enum SwitcherStep {
    /// Open it, and go on by so many windows where it says so.
    Open(Option<i32>),
    /// Go on by so many windows.
    Cycle(i32),
    Commit,
    Close,
    Refresh,
}

/// What a command does with the window switcher.
pub fn switcher_step(command: SwitcherCommand) -> (r: SwitcherStep)
    ensures
        r == match command {
            SwitcherCommand::Open => SwitcherStep::Open(None),
            SwitcherCommand::Cycle => SwitcherStep::Open(Some(1i32)),
            SwitcherCommand::CycleReverse => SwitcherStep::Open(Some(-1i32)),
            SwitcherCommand::SelectPrevious => SwitcherStep::Cycle(-1i32),
            SwitcherCommand::SelectNext => SwitcherStep::Cycle(1i32),
            SwitcherCommand::Commit => SwitcherStep::Commit,
            SwitcherCommand::Close => SwitcherStep::Close,
            SwitcherCommand::Refresh => SwitcherStep::Refresh,
        },
{
    match command {
        SwitcherCommand::Open => SwitcherStep::Open(None),
        SwitcherCommand::Cycle => SwitcherStep::Open(Some(1)),
        SwitcherCommand::CycleReverse => SwitcherStep::Open(Some(-1)),
        SwitcherCommand::SelectPrevious => SwitcherStep::Cycle(-1),
        SwitcherCommand::SelectNext => SwitcherStep::Cycle(1),
        SwitcherCommand::Commit => SwitcherStep::Commit,
        SwitcherCommand::Close => SwitcherStep::Close,
        SwitcherCommand::Refresh => SwitcherStep::Refresh,
    }
}

/// What is done with the panel of the clipboard.
#[derive(Clone, Copy, Debug, PartialEq, Eq, Structural)]
pub enum ClipboardStep {
    Open,
    Close,
    Previous,
    Next,
    Select,
    Clear,
}

/// What a command does with the panel of the clipboard: toggling closes an open
/// one.
pub fn clipboard_step(command: ClipboardCommand, panel_open: bool) -> (r: ClipboardStep)
    ensures
        r == match command {
            ClipboardCommand::Toggle => if panel_open {
                ClipboardStep::Close
            } else {
                ClipboardStep::Open
            },
            ClipboardCommand::Open => ClipboardStep::Open,
            ClipboardCommand::Close => ClipboardStep::Close,
            ClipboardCommand::Previous => ClipboardStep::Previous,
            ClipboardCommand::Next => ClipboardStep::Next,
            ClipboardCommand::Select => ClipboardStep::Select,
            ClipboardCommand::Clear => ClipboardStep::Clear,
        },
{
    match command {
        ClipboardCommand::Toggle => if panel_open {
            ClipboardStep::Close
        } else {
            ClipboardStep::Open
        },
        ClipboardCommand::Open => ClipboardStep::Open,
        ClipboardCommand::Close => ClipboardStep::Close,
        ClipboardCommand::Previous => ClipboardStep::Previous,
        ClipboardCommand::Next => ClipboardStep::Next,
        ClipboardCommand::Select => ClipboardStep::Select,
        ClipboardCommand::Clear => ClipboardStep::Clear,
    }
}

/// Whether an event is applied when the bar hears of it; a new notification was
/// applied already when it came in.
pub fn applied_by_bar(event: &NotificationEvent) -> (r: bool)
    ensures
        r == !(event is Upsert),
{
    match event {
        NotificationEvent::Upsert(_) => false,
        _ => true,
    }
}

/// Whether the surface for notifications is to be created.
pub fn popup_needed(exists: bool, enabled: bool, displayed: usize) -> (r: bool)
    ensures
        r == (!exists && enabled && displayed > 0),
{
    !exists && enabled && displayed > 0
}

/// Every glyph has a visible height, so it can be scaled to the common one.
pub proof fn law_glyphs_can_be_scaled(
    level: LevelStatus,
    toggle: ToggleStatus,
    route: Option<NetworkKind>,
    charging: bool,
    percent: u8,
)
    ensures
        0 < volume_glyph(level).visible_height <= STATUS_ICON_REFERENCE_VISIBLE_HEIGHT,
        0 < network_glyph(toggle, route).visible_height <= STATUS_ICON_REFERENCE_VISIBLE_HEIGHT,
        0 < battery_glyph(level.available, charging, percent).visible_height
            <= STATUS_ICON_REFERENCE_VISIBLE_HEIGHT,
{
}

/// No report of the compositor opens a menu, so what was at most one open menu
/// stays at most one; after a change of the active workspace none is open.
pub proof fn law_reports_keep_one_menu(
    s: BarState,
    snapshot: WorkspaceSnapshot,
    slide_distance: u32,
)
    requires
        one_menu(s),
    ensures
        one_menu(with_report(s, snapshot, slide_distance)),
        s.workspaces is Some && s.workspaces->0.active_workspace_id != active_id(
            snapshot.workspaces@,
        ) ==> with_report(s, snapshot, slide_distance).jump_menu is None && with_report(
            s,
            snapshot,
            slide_distance,
        ).workspace_menu is None,
{
}

/// The width of a text is the sum of those of its parts, and that of a text of ASCII
/// characters is their number.
pub proof fn law_columns_add_up(a: Seq<char>, b: Seq<char>)
    ensures
        columns(a + b) == columns(a) + columns(b),
        (forall|i: int| 0 <= i < b.len() ==> (#[trigger] b[i] as u32) < 128) ==> columns(b)
            == b.len(),
        (forall|i: int| 0 <= i < b.len() ==> (#[trigger] b[i] as u32) >= 128) ==> columns(b) == 2
            * b.len(),
    decreases b.len(),
{
    if b.len() == 0 {
        assert(a + b =~= a);
    } else {
        law_columns_add_up(a, b.drop_last());
        assert((a + b).drop_last() =~= a + b.drop_last());
        assert(b[b.len() - 1] == b.last());
    }
}

/// The widest of some lines is as wide as one of them, and none is wider.
pub proof fn law_widest(ls: Seq<Seq<char>>, i: int) -> (k: int)
    requires
        0 <= i < ls.len(),
    ensures
        columns(ls[i]) <= widest(ls),
        0 <= k < ls.len(),
        columns(ls[k]) == widest(ls) || (widest(ls) == 0 && columns(ls[i]) == 0),
    decreases ls.len(),
{
    let rest = ls.drop_last();
    let n = ls.len() - 1;
    if rest.len() == 0 {
        n
    } else if i < rest.len() {
        let k = law_widest(rest, i);
        if columns(ls.last()) > widest(rest) {
            n
        } else {
            k
        }
    } else {
        let k = law_widest(rest, 0);
        if columns(ls.last()) > widest(rest) {
            n
        } else if columns(rest[k]) == widest(rest) {
            k
        } else {
            n
        }
    }
}

/// The glyphs of a battery that is used, from nearly empty to full.
pub open spec fn draining_glyphs() -> Seq<Seq<char>> {
    seq![
        "\u{f007a}"@,
        "\u{f007b}"@,
        "\u{f007c}"@,
        "\u{f007d}"@,
        "\u{f007e}"@,
        "\u{f007f}"@,
        "\u{f0080}"@,
        "\u{f0081}"@,
        "\u{f0082}"@,
        "\u{f0079}"@,
    ]
}

/// The glyphs of a battery that is charged, from nearly empty to full.
pub open spec fn charging_glyphs() -> Seq<Seq<char>> {
    seq![
        "\u{f0084}"@,
        "\u{f0086}"@,
        "\u{f0087}"@,
        "\u{f0088}"@,
        "\u{f0089}"@,
        "\u{f008a}"@,
        "\u{f008b}"@,
        "\u{f008c}"@,
        "\u{f008d}"@,
        "\u{f0085}"@,
    ]
}

/// A battery's glyph tells whether it is charged, and how full it is in steps of ten
/// percent.
pub proof fn law_glyph_of_battery(charging: bool, percent: u8)
    requires
        1 <= percent <= 100,
    ensures
        battery_glyph(true, charging, percent).glyph == if charging {
            charging_glyphs()[(percent - 1) / 10]
        } else {
            draining_glyphs()[(percent - 1) / 10]
        },
        battery_glyph(true, charging, 0) == battery_glyph(true, charging, 1),
        battery_glyph(false, charging, percent).glyph == "\u{f0091}"@,
{
}

/// A volume's glyph tells whether it can be heard, and in which third it is.
pub proof fn law_glyph_of_volume(s: LevelStatus)
    ensures
        !s.available ==> volume_glyph(s).glyph == "\u{f0581}"@,
        s.available && (s.muted || s.percent == 0) ==> volume_glyph(s).glyph == "\u{f075f}"@,
        s.available && !s.muted && s.percent > 0 ==> {
            &&& 3 * s.percent < 100 ==> volume_glyph(s).glyph == "\u{f057f}"@
            &&& 100 < 3 * s.percent < 200 ==> volume_glyph(s).glyph == "\u{f0580}"@
            &&& 3 * s.percent > 200 ==> volume_glyph(s).glyph == "\u{f057e}"@
        },
{
}

/// The network's glyph tells which way traffic takes: none, by wire, or on the air, and
/// then in which quarter the signal is.
pub proof fn law_glyph_of_network(s: ToggleStatus, route: Option<NetworkKind>)
    requires
        s.available,
    ensures
        route is None ==> network_glyph(s, route).glyph == "\u{f092c}"@,
        route == Some(NetworkKind::Wired) ==> network_glyph(s, route).glyph == "\u{f0200}"@,
        route is Some && route->0 != NetworkKind::Wired ==> {
            &&& !s.enabled ==> network_glyph(s, route).glyph == "\u{f092c}"@
            &&& s.enabled && s.signal_strength is None ==> network_glyph(s, route).glyph
                == "\u{f0928}"@
            &&& s.enabled ==> (s.signal_strength matches Some(n) ==> {
                &&& 4 * n <= 100 ==> network_glyph(s, route).glyph == "\u{f091f}"@
                &&& 100 < 4 * n <= 200 ==> network_glyph(s, route).glyph == "\u{f0922}"@
                &&& 200 < 4 * n <= 300 ==> network_glyph(s, route).glyph == "\u{f0925}"@
                &&& 300 < 4 * n ==> network_glyph(s, route).glyph == "\u{f0928}"@
            })
        },
{
}

/// Memory is told to the nearest tenth of a gibibyte.
pub proof fn law_nearest_tenth(kib: nat)
    ensures
        2 * (gib_tenths(kib) * 1_048_576) <= 2 * (kib * 10) + 1_048_576,
        2 * (kib * 10) <= 2 * (gib_tenths(kib) * 1_048_576) + 1_048_576,
{
}

/// Tenths are told with one digit behind the point: what stands before it, read as a
/// number, and that digit give the tenths.
pub proof fn law_tenths(n: nat)
    ensures
        ({
            let s = tenths(n);
            &&& s.len() >= 3
            &&& s[s.len() - 2] == '.'
            &&& s.take(s.len() - 2) == decimal(n / 10)
            &&& s.last() as u32 == '0' as u32 + n % 10
        }),
{
    reveal_strlit(".");
    lemma_decimal_value(n / 10);
    assert(decimal(n / 10).len() > 0) by {
        reveal_with_fuel(decimal, 2);
    }
    reveal_with_fuel(decimal, 2);
    let s = tenths(n);
    assert(decimal(n % 10).len() == 1);
    assert("."@.len() == 1 && "."@[0] == '.');
    assert(s.take(s.len() - 2) =~= decimal(n / 10));
}

/// What is said of an item is said of the part of the machine that it stands for: it
/// changes with that part alone.
pub proof fn law_tooltips_speak_of_their_own(s: ControlSnapshot, t: ControlSnapshot)
    ensures
        s.memory == t.memory ==> tooltip_text(s, "memory"@) == tooltip_text(t, "memory"@),
        s.audio_output == t.audio_output ==> tooltip_text(s, "volume"@) == tooltip_text(
            t,
            "volume"@,
        ),
        s.bluetooth == t.bluetooth ==> tooltip_text(s, "bluetooth"@) == tooltip_text(
            t,
            "bluetooth"@,
        ),
        s.wifi == t.wifi ==> tooltip_text(s, "network"@) == tooltip_text(t, "network"@),
        s.battery == t.battery ==> tooltip_text(s, "battery"@) == tooltip_text(t, "battery"@),
        s.cpu == t.cpu ==> tooltip_text(s, "cpu"@) == tooltip_text(t, "cpu"@),
        s.audio_output.available ==> (decimal(s.audio_output.percent as nat) + "%"@).is_prefix_of(
            tooltip_text(s, "volume"@).skip("音量: "@.len() as int),
        ),
        s.bluetooth.available && s.bluetooth.connected ==> s.bluetooth.label@.is_suffix_of(
            tooltip_text(s, "bluetooth"@),
        ),
        s.battery.available ==> s.battery.health@.is_suffix_of(tooltip_text(s, "battery"@)),
{
    reveal_strlit("cpu");
    reveal_strlit("memory");
    reveal_strlit("volume");
    reveal_strlit("bluetooth");
    reveal_strlit("network");
    reveal_strlit("battery");
    assert("cpu"@.len() == 3 && "memory"@.len() == 6 && "volume"@.len() == 6 && "bluetooth"@.len()
        == 9 && "network"@.len() == 7 && "battery"@.len() == 7);
    assert("memory"@[0] == 'm' && "volume"@[0] == 'v' && "network"@[0] == 'n' && "battery"@[0]
        == 'b');
    let v = tooltip_text(s, "volume"@);
    if s.audio_output.available {
        let d = decimal(s.audio_output.percent as nat) + "%"@;
        let rest = v.skip("音量: "@.len() as int);
        assert(d =~= rest.subrange(0, d.len() as int));
    }
    let b = tooltip_text(s, "bluetooth"@);
    if s.bluetooth.available && s.bluetooth.connected {
        let l = s.bluetooth.label@;
        assert(l =~= b.subrange(b.len() - l.len(), b.len() as int));
    }
    let c = tooltip_text(s, "battery"@);
    if s.battery.available {
        let h = s.battery.health@;
        assert(h =~= c.subrange(c.len() - h.len(), c.len() as int));
    }
}

/// A report is taken over, and while the same workspace stays active the menus stay as
/// they are.
pub proof fn law_report_is_taken_over(s: BarState, snapshot: WorkspaceSnapshot, slide_distance: u32)
    ensures
        ({
            let r = with_report(s, snapshot, slide_distance);
            &&& r.workspaces is Some
            &&& r.workspaces->0.snapshot == snapshot
            &&& r.workspaces->0.active_workspace_id == active_id(snapshot.workspaces@)
            &&& s.workspaces is None || s.workspaces->0.active_workspace_id == active_id(
                snapshot.workspaces@,
            ) ==> r.jump_menu == s.jump_menu && r.workspace_menu == s.workspace_menu
                && r.jump_menu_resize_pending == s.jump_menu_resize_pending
            &&& s.workspaces is Some && s.workspaces->0.active_workspace_id != active_id(
                snapshot.workspaces@,
            ) && (s.jump_menu is Some || s.workspace_menu is Some) ==> r.jump_menu_resize_pending
            &&& r.tooltip_open == s.tooltip_open
            &&& r.screenshot_active == s.screenshot_active
        }),
{
}

/// A number that is kept between two others is between them, and is itself where it was.
pub proof fn law_clamped(n: int, low: int, high: int)
    requires
        low <= high,
    ensures
        low <= clamped(n, low, high) <= high,
        low <= n <= high ==> clamped(n, low, high) == n,
        n < low ==> clamped(n, low, high) == low,
        n > high ==> clamped(n, low, high) == high,
{
}

/// Each action makes a menu higher by a row, and each window by two; a menu of actions
/// goes before one of windows.
pub proof fn law_menus_grow(n: nat, windows: Option<nat>)
    ensures
        menu_height(Some(n + 1), windows) == menu_height(Some(n), windows) + 28,
        menu_height(Some(0), windows) == 2,
        menu_height(None, Some(n + 1)) == menu_height(None, Some(n)) + 57,
        menu_height(None, Some(0)) == 1,
        menu_height(None, None) == 0,
{
}

/// A tooltip has a line for each line of its text, and one where there is none.
pub proof fn law_lines_of_tooltip(text: Seq<char>)
    ensures
        line_count(text) >= 1,
        lines(text).len() > 0 ==> line_count(text) == lines(text).len(),
{
}

} // verus!
