//! What the bar and its menus show.

use vstd::prelude::*;
use vstd::string::*;

use crate::bar::{
    battery_glyph, battery_icon, bluetooth_icon_visible, network_glyph, network_icon,
    notification_badge_label, percent_label, volume_glyph, volume_icon, IconView,
    StatusIcon,
};
use crate::hyprland::types::{WorkspaceWindow, Workspace};
use crate::modules::system_controls::ControlSnapshot;
use crate::modules::workspaces::Workspaces;
use crate::text::{decimal, opt_view, owned};

verus! {

/// Something that the right side of the bar shows.
pub enum BarItem {
    Cpu(String),
    Memory(String),
    Volume(StatusIcon),
    Bluetooth,
    AirPods,
    Network(StatusIcon),
    Battery(StatusIcon),
    Clock(String),
    /// The button of the tray, with how many notifications there are.
    Tray(Option<String>),
}

/// The contents of something that the bar shows.
pub enum BarItemView {
    Cpu(Seq<char>),
    Memory(Seq<char>),
    Volume(IconView),
    Bluetooth,
    AirPods,
    Network(IconView),
    Battery(IconView),
    Clock(Seq<char>),
    Tray(Option<Seq<char>>),
}

impl View for BarItem {
    type V = BarItemView;

    open spec fn view(&self) -> BarItemView {
        match self {
            BarItem::Cpu(label) => BarItemView::Cpu(label@),
            BarItem::Memory(label) => BarItemView::Memory(label@),
            BarItem::Volume(icon) => BarItemView::Volume(icon@),
            BarItem::Bluetooth => BarItemView::Bluetooth,
            BarItem::AirPods => BarItemView::AirPods,
            BarItem::Network(icon) => BarItemView::Network(icon@),
            BarItem::Battery(icon) => BarItemView::Battery(icon@),
            BarItem::Clock(text) => BarItemView::Clock(text@),
            BarItem::Tray(badge) => BarItemView::Tray(opt_view(*badge)),
        }
    }
}

/// The contents of what the bar shows.
pub open spec fn item_views(s: Seq<BarItem>) -> Seq<BarItemView> {
    s.map_values(|i: BarItem| i@)
}

/// A share as a label.
pub open spec fn share_label(available: bool, percent: u8) -> Seq<char> {
    if available {
        decimal(percent as nat) + "%"@
    } else {
        "—%"@
    }
}

/// How many notifications there are, as a badge.
pub open spec fn badge(count: nat) -> Option<Seq<char>> {
    if count == 0 {
        None
    } else if count > 99 {
        Some("99+"@)
    } else {
        Some(decimal(count))
    }
}

/// What the right side of the bar shows: the loads, the volume, the devices that
/// are connected, the network, the battery, the clock and the tray.
pub open spec fn bar_shows(s: ControlSnapshot, clock: Seq<char>, count: nat) -> Seq<BarItemView> {
    seq![
        BarItemView::Cpu(share_label(s.cpu.available, s.cpu.percent)),
        BarItemView::Memory(share_label(s.memory.available, s.memory.percent)),
        BarItemView::Volume(volume_glyph(s.audio_output)),
    ] + (if s.bluetooth.available && s.bluetooth.enabled && s.bluetooth.connected {
        seq![BarItemView::Bluetooth]
    } else {
        Seq::empty()
    }) + (if s.airpods.connected {
        seq![BarItemView::AirPods]
    } else {
        Seq::empty()
    }) + seq![
        BarItemView::Network(
            network_glyph(
                s.wifi,
                match s.primary_network {
                    Some(route) => Some(route.kind),
                    None => None,
                },
            ),
        ),
        BarItemView::Battery(
            battery_glyph(s.battery.available, s.battery.charging, s.battery.percent),
        ),
        BarItemView::Clock(clock),
        BarItemView::Tray(badge(count)),
    ]
}

/// What the right side of the bar shows.
pub fn bar_items(snapshot: &ControlSnapshot, clock: &str, count: usize) -> (r: Vec<BarItem>)
    ensures
        item_views(r@) == bar_shows(*snapshot, clock@, count as nat),
{
    let mut items: Vec<BarItem> = Vec::new();
    items.push(BarItem::Cpu(percent_label(snapshot.cpu.available, snapshot.cpu.percent)));
    items.push(
        BarItem::Memory(percent_label(snapshot.memory.available, snapshot.memory.percent)),
    );
    items.push(BarItem::Volume(volume_icon(snapshot.audio_output)));
    if bluetooth_icon_visible(&snapshot.bluetooth) {
        items.push(BarItem::Bluetooth);
    }
    if snapshot.airpods.connected {
        items.push(BarItem::AirPods);
    }
    let route = match &snapshot.primary_network {
        Some(route) => Some(route),
        None => None,
    };
    items.push(BarItem::Network(network_icon(&snapshot.wifi, route)));
    items.push(BarItem::Battery(battery_icon(&snapshot.battery)));
    items.push(BarItem::Clock(owned(clock)));
    items.push(
        BarItem::Tray(
            if count == 0 {
                None
            } else {
                Some(notification_badge_label(count))
            },
        ),
    );
    proof {
        assert(item_views(items@) =~= bar_shows(*snapshot, clock@, count as nat));
    }
    items
}

/// A row of the menu of a workspace.
pub enum MenuRow {
    /// The application of a window, with its icon.
    Name { label: String, icon: Option<String> },
    /// What closes a window.
    Close { address: String },
    Separator,
}

/// Whether three rows are those of a window.
pub open spec fn rows_of(
    name: MenuRow,
    close: MenuRow,
    separator: MenuRow,
    w: WorkspaceWindow,
) -> bool {
    &&& name matches MenuRow::Name { label, icon }
    &&& label@ == w.display_name@
    &&& opt_view(icon) == opt_view(w.icon)
    &&& close matches MenuRow::Close { address }
    &&& address@ == w.address@
    &&& separator is Separator
}

/// The rows of the menu of a workspace: three for each of its windows.
pub fn menu_rows(windows: &Vec<WorkspaceWindow>) -> (r: Vec<MenuRow>)
    ensures
        r@.len() == windows@.len() * 3,
        forall|i: int|
            0 <= i < windows@.len() ==> rows_of(
                r@[i * 3],
                r@[i * 3 + 1],
                r@[i * 3 + 2],
                #[trigger] windows@[i],
            ),
{
    let mut rows: Vec<MenuRow> = Vec::new();
    let mut i: usize = 0;
    while i < windows.len()
        invariant
            i <= windows.len(),
            rows@.len() == i * 3,
            forall|j: int|
                0 <= j < i ==> rows_of(
                    rows@[j * 3],
                    rows@[j * 3 + 1],
                    rows@[j * 3 + 2],
                    #[trigger] windows@[j],
                ),
        decreases windows.len() - i,
    {
        let window = &windows[i];
        rows.push(MenuRow::Name { label: owned(window.app_name()), icon: window.icon.clone() });
        rows.push(MenuRow::Close { address: window.address.clone() });
        rows.push(MenuRow::Separator);
        i += 1;
    }
    rows
}

/// A workspace as the bar shows it.
pub struct WorkspaceItem {
    pub id: i32,
    pub urgent: bool,
    pub active: bool,
    /// What names it, unless an icon does.
    pub label: Option<String>,
    pub icon: Option<String>,
    /// The title of the active window.
    pub title: Option<String>,
}

/// Whether an item is that of a workspace: the active one shows the icon and the
/// title of the active window, and its name where there is no icon.
pub open spec fn item_of(r: WorkspaceItem, w: Workspace, s: Workspaces) -> bool {
    &&& r.id == w.id
    &&& r.urgent == w.urgent
    &&& r.active == w.active
    &&& if w.active {
        &&& opt_view(r.icon) == opt_view(s.snapshot.active_window_icon)
        &&& opt_view(r.title) == opt_view(s.snapshot.active_window_title)
        &&& opt_view(r.label) == if s.snapshot.active_window_icon is Some {
            None
        } else {
            Some(w.name@)
        }
    } else {
        &&& r.icon is None
        &&& r.title is None
        &&& opt_view(r.label) == Some(w.name@)
    }
}

/// The workspaces as the bar shows them.
pub fn workspace_items(workspaces: &Workspaces) -> (r: Vec<WorkspaceItem>)
    ensures
        r@.len() == workspaces.snapshot.workspaces@.len(),
        forall|i: int|
            0 <= i < r@.len() ==> item_of(
                #[trigger] r@[i],
                workspaces.snapshot.workspaces@[i],
                *workspaces,
            ),
{
    let snapshot = &workspaces.snapshot;
    let mut items: Vec<WorkspaceItem> = Vec::new();
    let mut i: usize = 0;
    while i < snapshot.workspaces.len()
        invariant
            i <= snapshot.workspaces.len(),
            *snapshot == workspaces.snapshot,
            items@.len() == i,
            forall|j: int|
                0 <= j < i ==> item_of(
                    #[trigger] items@[j],
                    workspaces.snapshot.workspaces@[j],
                    *workspaces,
                ),
        decreases snapshot.workspaces.len() - i,
    {
        let workspace = &snapshot.workspaces[i];
        let named = !workspace.active || snapshot.active_window_icon.is_none();
        items.push(
            WorkspaceItem {
                id: workspace.id,
                urgent: workspace.urgent,
                active: workspace.active,
                label: if named {
                    Some(workspace.name.clone())
                } else {
                    None
                },
                icon: if workspace.active {
                    snapshot.active_window_icon.clone()
                } else {
                    None
                },
                title: if workspace.active {
                    snapshot.active_window_title.clone()
                } else {
                    None
                },
            },
        );
        i += 1;
    }
    items
}

/// Whatever is connected, the bar shows the loads first, and the clock before the
/// tray last.
pub proof fn law_bar_ends(s: ControlSnapshot, clock: Seq<char>, count: nat)
    ensures
        ({
            let items = bar_shows(s, clock, count);
            &&& 7 <= items.len() <= 9
            &&& items[0] is Cpu
            &&& items[1] is Memory
            &&& items[items.len() - 2] == BarItemView::Clock(clock)
            &&& items.last() == BarItemView::Tray(badge(count))
        }),
{
}

/// The devices are shown while they are connected, Bluetooth only while it is on.
pub proof fn law_connected_devices_are_shown(s: ControlSnapshot, clock: Seq<char>, count: nat)
    ensures
        bar_shows(s, clock, count).contains(BarItemView::Bluetooth) <==> s.bluetooth.available
            && s.bluetooth.enabled && s.bluetooth.connected,
        bar_shows(s, clock, count).contains(BarItemView::AirPods) <==> s.airpods.connected,
        ({
            let items = bar_shows(s, clock, count);
            let n = items.len();
            &&& items[2] == BarItemView::Volume(volume_glyph(s.audio_output))
            &&& items[n - 3] == BarItemView::Battery(
                battery_glyph(s.battery.available, s.battery.charging, s.battery.percent),
            )
            &&& s.primary_network is None ==> items[n - 4] == BarItemView::Network(
                network_glyph(s.wifi, None),
            )
            &&& s.primary_network matches Some(route) ==> items[n - 4] == BarItemView::Network(
                network_glyph(s.wifi, Some(route.kind)),
            )
            &&& s.cpu.available ==> items[0] == BarItemView::Cpu(
                decimal(s.cpu.percent as nat) + "%"@,
            )
            &&& s.memory.available ==> items[1] == BarItemView::Memory(
                decimal(s.memory.percent as nat) + "%"@,
            )
        }),
{
    let items = bar_shows(s, clock, count);
    if s.bluetooth.available && s.bluetooth.enabled && s.bluetooth.connected {
        assert(items[3] == BarItemView::Bluetooth);
    }
    if s.airpods.connected {
        assert(items[items.len() - 5] == BarItemView::AirPods);
    }
}

/// The badge tells how many notifications there are, as far as two digits go; without any
/// there is none.
pub proof fn law_badge(count: nat)
    ensures
        badge(0) is None,
        1 <= count <= 99 ==> badge(count) == Some(decimal(count)),
        count >= 100 ==> badge(count) == Some("99+"@),
{
}

/// The active workspace is shown by the icon of its window, and by its name only without
/// one; every other is shown by its name alone.
pub proof fn law_item_of_workspace(r: WorkspaceItem, w: Workspace, s: Workspaces)
    requires
        item_of(r, w, s),
    ensures
        r.id == w.id && r.urgent == w.urgent && r.active == w.active,
        r.icon is Some ==> w.active && r.label is None,
        r.label is Some ==> (r.label->0)@ == w.name@,
        r.label is None <==> w.active && s.snapshot.active_window_icon is Some,
        r.title is Some <==> w.active && s.snapshot.active_window_title is Some,
        r.title matches Some(t) ==> t@ == (s.snapshot.active_window_title->0)@,
        r.icon matches Some(i) ==> i@ == (s.snapshot.active_window_icon->0)@,
{
}

/// Each window of a workspace is named, and closed by its own address.
pub proof fn law_rows_of_window(name: MenuRow, close: MenuRow, separator: MenuRow, w: WorkspaceWindow)
    requires
        rows_of(name, close, separator, w),
    ensures
        name matches MenuRow::Name { label, icon } && label@ == w.display_name@ && (icon is Some
            <==> w.icon is Some),
        close matches MenuRow::Close { address } && address@ == w.address@,
        separator is Separator,
{
}

} // verus!
