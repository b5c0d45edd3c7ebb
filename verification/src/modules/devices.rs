//! The state of the network, Bluetooth, sound, backlight and battery, from the
//! plain facts that the system tells of its devices.

use vstd::prelude::*;
use vstd::string::*;

use crate::bytes::{lossy, lossy_text};
use crate::modules::system_controls::{BatteryStatus, LevelStatus, ToggleStatus};
use crate::seqs::{
    find_first, first_index, lemma_filter_keeps, lemma_filter_members, lemma_filter_one,
    lemma_first_index, lemma_first_index_bounds,
};
use crate::text::{
    concat, contains_text, decimal, decimal_text, lemma_text_less_irreflexive,
    lemma_text_less_total, lemma_text_less_transitive, owned, parse_u32, parse_u64, parse_unsigned,
    same, text_before, text_contains, text_less, trim, trim_text, views,
};

verus! {

/// The first percentage among those that the words denote.
pub open spec fn first_percent(percents: Seq<Option<u8>>) -> Option<u8> {
    match find_first(percents, |p: Option<u8>| p is Some) {
        Some(p) => p,
        None => None,
    }
}

/// The volume that the sound server reports. `percents` holds, for each word of
/// the report, the percentage that it denotes, where it denotes a number; the
/// first such word is the volume.
pub fn parse_wpctl_volume(output: &str, percents: &Vec<Option<u8>>) -> (r: Option<LevelStatus>)
    ensures
        r == match first_percent(percents@) {
            None => None,
            Some(percent) => Some(
                LevelStatus {
                    available: true,
                    percent,
                    muted: contains_text(output@, "[MUTED]"@),
                },
            ),
        },
{
    let ghost p = |p: Option<u8>| p is Some;
    let mut i: usize = 0;
    while i < percents.len()
        invariant
            i <= percents.len(),
            p == (|p: Option<u8>| p is Some),
            forall|j: int| 0 <= j < i ==> !p(#[trigger] percents@[j]),
        decreases percents.len() - i,
    {
        if let Some(percent) = percents[i] {
            proof {
                lemma_first_index(percents@, p, i as nat);
            }
            return Some(
                LevelStatus { available: true, percent, muted: text_contains(output, "[MUTED]") },
            );
        }
        i += 1;
    }
    proof {
        lemma_first_index(percents@, p, i as nat);
    }
    None
}

/// The access point that a wireless device is connected to.
#[derive(Debug)]
pub struct AccessPoint {
    pub ssid: Vec<u8>,
    pub strength: Option<u8>,
}

/// A device of the network manager.
#[derive(Debug)]
pub struct NetworkDevice {
    pub kind: u32,
    pub state: u32,
    pub interface: String,
    pub access_point: Option<AccessPoint>,
}

/// The state of a device that is connected.
pub const DEVICE_ACTIVATED: u32 = 100;

/// The kind of a wired device.
pub const DEVICE_ETHERNET: u32 = 1;

/// The kind of a wireless device.
pub const DEVICE_WIFI: u32 = 2;

/// What the devices that are connected say together.
pub struct NetworkFacts {
    pub label: Option<Seq<char>>,
    pub strength: Option<u8>,
    pub interface: Option<Seq<char>>,
    pub ethernet: bool,
}

/// What one more device adds. A wired one counts where no interface is known
/// yet; a wireless one with a named access point goes before all others.
pub open spec fn with_device(f: NetworkFacts, d: NetworkDevice) -> NetworkFacts {
    if d.state != DEVICE_ACTIVATED {
        f
    } else if d.kind == DEVICE_ETHERNET {
        NetworkFacts {
            ethernet: true,
            interface: if f.interface is None && d.interface@.len() > 0 {
                Some(d.interface@)
            } else {
                f.interface
            },
            ..f
        }
    } else if d.kind == DEVICE_WIFI && d.access_point is Some && d.access_point->0.ssid@.len()
        > 0 {
        NetworkFacts {
            label: Some(lossy(d.access_point->0.ssid@)),
            strength: d.access_point->0.strength,
            interface: if d.interface@.len() > 0 {
                Some(d.interface@)
            } else {
                f.interface
            },
            ..f
        }
    } else {
        f
    }
}

/// What devices say together.
pub open spec fn network_facts(s: Seq<NetworkDevice>) -> NetworkFacts
    decreases s.len(),
{
    if s.len() == 0 {
        NetworkFacts { label: None, strength: None, interface: None, ethernet: false }
    } else {
        with_device(network_facts(s.drop_last()), s.last())
    }
}

/// The label of the network status.
pub open spec fn wifi_label(enabled: bool, f: NetworkFacts) -> Seq<char> {
    if !enabled {
        "Off"@
    } else if f.label is Some {
        f.label->0
    } else if f.ethernet {
        "有線接続"@
    } else {
        "未接続"@
    }
}

/// A text that may be missing, as contracts speak of it.
pub open spec fn text_of(s: Option<String>) -> Option<Seq<char>> {
    match s {
        Some(s) => Some(s@),
        None => None,
    }
}

/// Whether a status is the one that the facts give.
pub open spec fn is_wifi_status(r: ToggleStatus, enabled: bool, f: NetworkFacts) -> bool {
    &&& r.available
    &&& r.enabled == enabled
    &&& r.connected == (enabled && f.label is Some)
    &&& r.wired == (enabled && f.label is None && f.ethernet)
    &&& r.signal_strength == f.strength
    &&& text_of(r.interface) == f.interface
    &&& r.download_kbps is None
    &&& r.upload_kbps is None
    &&& r.label@ == wifi_label(enabled, f)
}

/// The state of the network: whether the wireless part is on, and what the
/// devices that are connected say together.
pub fn wifi_status(enabled: bool, devices: &Vec<NetworkDevice>) -> (r: ToggleStatus)
    ensures
        is_wifi_status(r, enabled, network_facts(devices@)),
{
    let mut label: Option<String> = None;
    let mut strength: Option<u8> = None;
    let mut interface: Option<String> = None;
    let mut ethernet = false;
    let ghost s = devices@;
    let mut i: usize = 0;
    proof {
        assert(s.take(0) =~= Seq::empty());
    }
    while i < devices.len()
        invariant
            i <= devices.len(),
            s == devices@,
            network_facts(s.take(i as int)) == (NetworkFacts {
                label: text_of(label),
                strength,
                interface: text_of(interface),
                ethernet,
            }),
        decreases devices.len() - i,
    {
        proof {
            assert(s.take(i + 1).drop_last() =~= s.take(i as int));
        }
        let device = &devices[i];
        if device.state == DEVICE_ACTIVATED {
            let named = device.interface.as_str().unicode_len() > 0;
            if device.kind == DEVICE_ETHERNET {
                ethernet = true;
                if interface.is_none() && named {
                    interface = Some(device.interface.clone());
                }
            } else if device.kind == DEVICE_WIFI {
                if let Some(point) = &device.access_point {
                    if point.ssid.len() > 0 {
                        label = Some(lossy_text(&point.ssid));
                        strength = point.strength;
                        if named {
                            interface = Some(device.interface.clone());
                        }
                    }
                }
            }
        }
        i += 1;
    }
    proof {
        assert(s.take(i as int) =~= s);
    }
    let wired = enabled && label.is_none() && ethernet;
    let connected = enabled && label.is_some();
    let text = if !enabled {
        owned("Off")
    } else {
        match label {
            Some(label) => label,
            None => if ethernet {
                owned("有線接続")
            } else {
                owned("未接続")
            },
        }
    };
    ToggleStatus {
        available: true,
        enabled,
        connected,
        wired,
        signal_strength: strength,
        interface,
        download_kbps: None,
        upload_kbps: None,
        label: text,
    }
}

/// The label of the Bluetooth status.
pub open spec fn connected_label(enabled: bool, names: Seq<Seq<char>>) -> Seq<char> {
    if !enabled {
        "Off"@
    } else if names.len() == 0 {
        "未接続"@
    } else if names.len() == 1 {
        names[0]
    } else {
        decimal(names.len()) + "台接続"@
    }
}

/// The label of the Bluetooth status: the name of the only connected device, or
/// how many there are.
pub fn bluetooth_label(enabled: bool, connected_names: &[String]) -> (r: String)
    ensures
        r@ == connected_label(enabled, views(connected_names@)),
{
    if !enabled {
        owned("Off")
    } else if connected_names.len() == 0 {
        owned("未接続")
    } else if connected_names.len() == 1 {
        connected_names[0].clone()
    } else {
        concat(decimal_text(connected_names.len() as u64).as_str(), "台接続")
    }
}

/// A Bluetooth adapter.
#[derive(Debug)]
pub struct BluetoothAdapter {
    pub path: String,
    pub powered: Option<bool>,
}

/// What is told of a Bluetooth device.
#[derive(Debug)]
pub struct DeviceFacts {
    pub connected: Option<bool>,
    pub alias: Option<String>,
    pub name: Option<String>,
}

/// The name that a device is shown by.
pub open spec fn device_name(d: DeviceFacts) -> Seq<char> {
    if d.alias is Some {
        d.alias->0@
    } else if d.name is Some {
        d.name->0@
    } else {
        "Bluetooth device"@
    }
}

/// The names of the devices that are connected, in the order of the devices.
pub open spec fn connected_names(s: Seq<DeviceFacts>) -> Seq<Seq<char>>
    decreases s.len(),
{
    if s.len() == 0 {
        Seq::empty()
    } else if s.last().connected == Some(true) {
        connected_names(s.drop_last()).push(device_name(s.last()))
    } else {
        connected_names(s.drop_last())
    }
}

/// Whether a text goes before all others, and before those of them that are the
/// same and come later.
pub open spec fn is_least(keys: Seq<Seq<char>>, at: int) -> bool {
    &&& 0 <= at < keys.len()
    &&& forall|j: int|
        0 <= j < keys.len() ==> (#[trigger] keys[j] == keys[at] && at <= j) || text_less(
            keys[at],
            keys[j],
        )
}

/// The index of the text that goes before all others.
fn least(keys: &Vec<&str>) -> (r: Option<usize>)
    ensures
        r is None <==> keys@.len() == 0,
        r is Some ==> is_least(keys@.map_values(|k: &str| k@), r->0 as int),
{
    if keys.len() == 0 {
        return None;
    }
    let ghost ks = keys@.map_values(|k: &str| k@);
    let mut at: usize = 0;
    let mut i: usize = 1;
    while i < keys.len()
        invariant
            1 <= i <= keys.len(),
            at < i,
            ks == keys@.map_values(|k: &str| k@),
            forall|j: int|
                0 <= j < i ==> (#[trigger] ks[j] == ks[at as int] && at <= j) || text_less(
                    ks[at as int],
                    ks[j],
                ),
        decreases keys.len() - i,
    {
        let before = text_before(keys[i], keys[at]);
        proof {
            assert(ks[i as int] == keys@[i as int]@);
            assert(ks[at as int] == keys@[at as int]@);
            if before {
                assert forall|j: int| 0 <= j < i implies text_less(ks[i as int], #[trigger] ks[j]) by {
                    if ks[j] != ks[at as int] {
                        lemma_text_less_transitive(ks[i as int], ks[at as int], ks[j]);
                    }
                }
            } else {
                lemma_text_less_total(ks[i as int], ks[at as int]);
            }
        }
        if before {
            at = i;
        }
        i += 1;
    }
    Some(at)
}

/// The paths of adapters.
pub open spec fn adapter_paths(s: Seq<BluetoothAdapter>) -> Seq<Seq<char>> {
    s.map_values(|a: BluetoothAdapter| a.path@)
}

/// The adapter that is used: the first by its path.
pub fn select_adapter(adapters: &Vec<BluetoothAdapter>) -> (r: Option<usize>)
    ensures
        r is None <==> adapters@.len() == 0,
        r is Some ==> is_least(adapter_paths(adapters@), r->0 as int),
{
    let mut keys: Vec<&str> = Vec::new();
    let mut i: usize = 0;
    while i < adapters.len()
        invariant
            i <= adapters.len(),
            keys.len() == i,
            forall|j: int| 0 <= j < i ==> (#[trigger] keys@[j])@ == adapters@[j].path@,
        decreases adapters.len() - i,
    {
        keys.push(adapters[i].path.as_str());
        i += 1;
    }
    proof {
        assert(keys@.map_values(|k: &str| k@) =~= adapter_paths(adapters@));
    }
    least(&keys)
}

/// Whether a status is that of Bluetooth.
pub open spec fn is_bluetooth_status(r: ToggleStatus, enabled: bool, names: Seq<Seq<char>>) -> bool {
    &&& r.available
    &&& r.enabled == enabled
    &&& r.connected == (enabled && names.len() > 0)
    &&& !r.wired
    &&& r.signal_strength is None
    &&& r.interface is None
    &&& r.download_kbps is None
    &&& r.upload_kbps is None
    &&& r.label@ == connected_label(enabled, names)
}

/// The state of Bluetooth: whether the first adapter is on, and which devices
/// are connected. Without an adapter there is none.
pub fn bluetooth_status(
    adapters: &Vec<BluetoothAdapter>,
    devices: &Vec<DeviceFacts>,
) -> (r: Option<ToggleStatus>)
    ensures
        adapters@.len() == 0 <==> r is None,
        forall|at: int|
            #![trigger adapters@[at]]
            is_least(adapter_paths(adapters@), at) ==> r is Some && is_bluetooth_status(
                r->0,
                adapters@[at].powered == Some(true),
                connected_names(devices@),
            ),
        r is Some ==> exists|at: int| #[trigger] is_least(adapter_paths(adapters@), at),
{
    let at = match select_adapter(adapters) {
        None => {
            return None;
        },
        Some(at) => at,
    };
    let enabled = match adapters[at].powered {
        Some(powered) => powered,
        None => false,
    };
    let mut names: Vec<String> = Vec::new();
    let ghost s = devices@;
    let mut i: usize = 0;
    proof {
        assert(s.take(0) =~= Seq::empty());
        assert(views(names@) =~= Seq::empty());
    }
    while i < devices.len()
        invariant
            i <= devices.len(),
            s == devices@,
            views(names@) == connected_names(s.take(i as int)),
        decreases devices.len() - i,
    {
        proof {
            assert(s.take(i + 1).drop_last() =~= s.take(i as int));
        }
        let device = &devices[i];
        let connected = match device.connected {
            Some(connected) => connected,
            None => false,
        };
        if connected {
            let name = match &device.alias {
                Some(alias) => alias.clone(),
                None => match &device.name {
                    Some(name) => name.clone(),
                    None => owned("Bluetooth device"),
                },
            };
            let ghost before = names@;
            names.push(name);
            proof {
                assert(views(names@) =~= views(before).push(name@));
            }
        }
        i += 1;
    }
    proof {
        assert(s.take(i as int) =~= s);
        let paths = adapter_paths(adapters@);
        assert forall|other: int| #[trigger] is_least(paths, other) implies other == at by {
            assert(paths[other] == paths[at as int] || text_less(paths[at as int], paths[other]));
            assert(paths[at as int] == paths[other] || text_less(paths[other], paths[at as int]));
            lemma_text_less_irreflexive(paths[at as int]);
            if paths[other] != paths[at as int] {
                lemma_text_less_transitive(paths[at as int], paths[other], paths[at as int]);
            }
        }
    }
    let label = bluetooth_label(enabled, names.as_slice());
    proof {
        assert(views(names@).len() == names@.len());
    }
    Some(
        ToggleStatus {
            available: true,
            enabled,
            connected: enabled && names.len() > 0,
            wired: false,
            signal_strength: None,
            interface: None,
            download_kbps: None,
            upload_kbps: None,
            label,
        },
    )
}

/// A backlight.
#[derive(Debug)]
pub struct BacklightFacts {
    pub name: String,
    pub kind: String,
    pub max: u32,
}

/// Which kinds of backlight go before which.
pub open spec fn backlight_priority(kind: Seq<char>) -> nat {
    if trim(kind) == "raw"@ {
        0
    } else if trim(kind) == "platform"@ {
        1
    } else if trim(kind) == "firmware"@ {
        2
    } else {
        3
    }
}

/// Which kinds of backlight go before which.
fn priority_of(kind: &str) -> (r: u8)
    ensures
        r == backlight_priority(kind@),
{
    let kind = trim_text(kind);
    if same(kind.as_str(), "raw") {
        0
    } else if same(kind.as_str(), "platform") {
        1
    } else if same(kind.as_str(), "firmware") {
        2
    } else {
        3
    }
}

/// Whether a backlight goes before another: by its kind, then by its name.
pub open spec fn backlight_before(a: BacklightFacts, b: BacklightFacts) -> bool {
    ||| backlight_priority(a.kind@) < backlight_priority(b.kind@)
    ||| backlight_priority(a.kind@) == backlight_priority(b.kind@) && text_less(a.name@, b.name@)
}

/// Whether a backlight goes before all others, and before those that are of
/// its kind and name and come later.
pub open spec fn is_preferred_backlight(s: Seq<BacklightFacts>, at: int) -> bool {
    &&& 0 <= at < s.len()
    &&& forall|j: int|
        0 <= j < s.len() ==> backlight_before(s[at], #[trigger] s[j]) || (!backlight_before(
            s[j],
            s[at],
        ) && at <= j)
}

/// The backlight that is used.
pub fn select_backlight(devices: &Vec<BacklightFacts>) -> (r: Option<usize>)
    ensures
        r is None <==> devices@.len() == 0,
        r is Some ==> is_preferred_backlight(devices@, r->0 as int),
{
    if devices.len() == 0 {
        return None;
    }
    let ghost s = devices@;
    let mut at: usize = 0;
    let mut i: usize = 1;
    proof {
        lemma_text_less_irreflexive(s[0].name@);
    }
    while i < devices.len()
        invariant
            1 <= i <= devices.len(),
            at < i,
            s == devices@,
            forall|j: int|
                0 <= j < i ==> backlight_before(s[at as int], #[trigger] s[j]) || (
                !backlight_before(s[j], s[at as int]) && at <= j),
        decreases devices.len() - i,
    {
        let left = priority_of(devices[i].kind.as_str());
        let right = priority_of(devices[at].kind.as_str());
        let before = left < right || (left == right && text_before(
            devices[i].name.as_str(),
            devices[at].name.as_str(),
        ));
        proof {
            lemma_text_less_irreflexive(s[i as int].name@);
            if before {
                assert forall|j: int| 0 <= j < i implies backlight_before(
                    s[i as int],
                    #[trigger] s[j],
                ) by {
                    if backlight_before(s[at as int], s[j]) {
                        if text_less(s[i as int].name@, s[at as int].name@) && text_less(
                            s[at as int].name@,
                            s[j].name@,
                        ) {
                            lemma_text_less_transitive(
                                s[i as int].name@,
                                s[at as int].name@,
                                s[j].name@,
                            );
                        }
                    } else {
                        lemma_text_less_total(s[at as int].name@, s[j].name@);
                    }
                }
            }
        }
        if before {
            at = i;
        }
        i += 1;
    }
    Some(at)
}

/// How bright a backlight is, in percent, rounded down.
pub open spec fn brightness_percent(value: u32, max: u32) -> int {
    let whole: int = if max == 0 {
        1
    } else {
        max as int
    };
    let percent = value * 100 / whole;
    if percent > 100 {
        100
    } else {
        percent
    }
}

/// How bright a backlight is.
pub fn backlight_status(value: u32, max: u32) -> (r: LevelStatus)
    ensures
        r.available,
        !r.muted,
        r.percent == brightness_percent(value, max),
{
    let whole: u64 = if max == 0 {
        1
    } else {
        max as u64
    };
    let percent: u64 = value as u64 * 100 / whole;
    LevelStatus {
        available: true,
        percent: if percent > 100 {
            100
        } else {
            percent as u8
        },
        muted: false,
    }
}

/// The value to which a backlight is set for a percentage, rounded down.
pub fn brightness_value(max: u32, percent: u8) -> (r: u32)
    requires
        percent <= 100,
    ensures
        r == max * percent / 100,
        r <= max,
{
    proof {
        assert(max * percent <= max * 100) by (nonlinear_arith)
            requires
                percent <= 100,
        ;
    }
    (max as u64 * percent as u64 / 100) as u32
}

/// What is shown of a battery.
pub open spec fn is_battery_status(
    r: BatteryStatus,
    capacity: u32,
    state: Option<Seq<char>>,
    health: Option<Seq<char>>,
) -> bool {
    &&& r.available
    &&& r.percent == (if capacity > 100 {
        100
    } else {
        capacity as int
    })
    &&& r.state@ == trim(
        match state {
            Some(s) => s,
            None => "Unknown"@,
        },
    )
    &&& r.health@ == trim(
        match health {
            Some(s) => s,
            None => "Unknown"@,
        },
    )
    &&& r.charging == (r.state@ == "Charging"@)
}

/// A text without white space around it, or of what stands for a missing one.
fn trimmed_or_unknown(text: Option<&str>) -> (r: String)
    ensures
        r@ == trim(
            match text {
                Some(s) => s@,
                None => "Unknown"@,
            },
        ),
{
    match text {
        Some(text) => trim_text(text),
        None => trim_text("Unknown"),
    }
}

/// What is shown of a battery, from its charge and, where they can be read, its
/// state and health.
pub fn battery_status(capacity: u32, state: Option<&str>, health: Option<&str>) -> (r:
    BatteryStatus)
    ensures
        is_battery_status(
            r,
            capacity,
            match state {
                Some(s) => Some(s@),
                None => None,
            },
            match health {
                Some(s) => Some(s@),
                None => None,
            },
        ),
{
    let percent: u8 = if capacity > 100 {
        100
    } else {
        capacity as u8
    };
    let state = trimmed_or_unknown(state);
    let health = trimmed_or_unknown(health);
    let charging = same(state.as_str(), "Charging");
    BatteryStatus { available: true, percent, charging, state, health }
}

/// A source of power.
#[derive(Debug)]
pub struct PowerSupply {
    pub name: String,
    pub kind: String,
}

/// The predicate that holds of batteries.
pub open spec fn is_battery() -> spec_fn(PowerSupply) -> bool {
    |p: PowerSupply| trim(p.kind@) == "Battery"@
}

/// Whether a source is the battery that is used: the first by its name.
pub open spec fn is_preferred_battery(s: Seq<PowerSupply>, at: int) -> bool {
    &&& 0 <= at < s.len()
    &&& is_battery()(s[at])
    &&& forall|j: int|
        0 <= j < s.len() && is_battery()(#[trigger] s[j]) ==> text_less(s[at].name@, s[j].name@)
            || (s[j].name@ == s[at].name@ && at <= j)
}

/// The battery that is used.
pub fn select_battery(supplies: &Vec<PowerSupply>) -> (r: Option<usize>)
    ensures
        r is None <==> forall|j: int| 0 <= j < supplies@.len() ==> !is_battery()(
            #[trigger] supplies@[j],
        ),
        r is Some ==> is_preferred_battery(supplies@, r->0 as int),
{
    let ghost s = supplies@;
    let mut found: Option<usize> = None;
    let mut i: usize = 0;
    while i < supplies.len()
        invariant
            i <= supplies.len(),
            s == supplies@,
            found is None ==> forall|j: int| 0 <= j < i ==> !is_battery()(#[trigger] s[j]),
            found is Some ==> {
                &&& found->0 < i
                &&& is_battery()(s[found->0 as int])
                &&& forall|j: int|
                    0 <= j < i && is_battery()(#[trigger] s[j]) ==> text_less(
                        s[found->0 as int].name@,
                        s[j].name@,
                    ) || (s[j].name@ == s[found->0 as int].name@ && found->0 <= j)
            },
        decreases supplies.len() - i,
    {
        let kind = trim_text(supplies[i].kind.as_str());
        if same(kind.as_str(), "Battery") {
            proof {
                assert(is_battery()(s[i as int]));
            }
            match found {
                None => {
                    found = Some(i);
                },
                Some(at) => {
                    let before = text_before(supplies[i].name.as_str(), supplies[at].name.as_str());
                    proof {
                        if before {
                            assert forall|j: int|
                                0 <= j < i && is_battery()(#[trigger] s[j]) implies text_less(
                                s[i as int].name@,
                                s[j].name@,
                            ) by {
                                if s[j].name@ != s[at as int].name@ {
                                    lemma_text_less_transitive(
                                        s[i as int].name@,
                                        s[at as int].name@,
                                        s[j].name@,
                                    );
                                }
                            }
                        } else {
                            lemma_text_less_total(s[i as int].name@, s[at as int].name@);
                        }
                    }
                    if before {
                        found = Some(i);
                    }
                },
            }
        }
        i += 1;
    }
    found
}

/// The number of 32 bits that a file holds.
pub fn read_u32(contents: &str) -> (r: Option<u32>)
    ensures
        match r {
            Some(n) => parse_unsigned(trim(contents@), u32::MAX as nat) == Some(n as nat),
            None => parse_unsigned(trim(contents@), u32::MAX as nat) is None,
        },
{
    parse_u32(trim_text(contents).as_str())
}

/// The number of 64 bits that a file holds.
pub fn read_u64(contents: &str) -> (r: Option<u64>)
    ensures
        match r {
            Some(n) => parse_unsigned(trim(contents@), u64::MAX as nat) == Some(n as nat),
            None => parse_unsigned(trim(contents@), u64::MAX as nat) is None,
        },
{
    parse_u64(trim_text(contents).as_str())
}

/// The bytes that an interface has moved, and when that was read.
#[derive(Clone, Copy, Debug, PartialEq, Eq, Structural)]
pub struct Traffic {
    pub download: u64,
    pub upload: u64,
    pub at: u64,
}

/// The traffic of an interface at its last reading.
#[derive(Debug)]
pub struct TrafficEntry {
    pub interface: String,
    pub traffic: Traffic,
}

/// The bytes moved between two readings, and the nanoseconds between them.
#[derive(Clone, Copy, Debug, PartialEq, Eq, Structural)]
pub struct TrafficDelta {
    pub download: u64,
    pub upload: u64,
    pub nanoseconds: u64,
}

/// Compares the traffic of interfaces with the readings before.
#[derive(Debug)]
pub struct NetworkTrafficSampler {
    pub previous: Vec<TrafficEntry>,
}

/// The predicate that holds of an interface's reading.
pub open spec fn of_interface(name: Seq<char>) -> spec_fn(TrafficEntry) -> bool {
    |e: TrafficEntry| e.interface@ == name
}

/// The last reading of an interface.
pub open spec fn last_traffic(s: Seq<TrafficEntry>, name: Seq<char>) -> Option<Traffic> {
    match find_first(s, of_interface(name)) {
        Some(e) => Some(e.traffic),
        None => None,
    }
}

/// What lies between two readings: nothing can be said where no time passed or
/// a count went back.
pub open spec fn traffic_between(before: Option<Traffic>, now: Traffic) -> Option<TrafficDelta> {
    match before {
        None => None,
        Some(b) => if now.at <= b.at || now.download < b.download || now.upload < b.upload {
            None
        } else {
            Some(
                TrafficDelta {
                    download: (now.download - b.download) as u64,
                    upload: (now.upload - b.upload) as u64,
                    nanoseconds: (now.at - b.at) as u64,
                },
            )
        },
    }
}

impl NetworkTrafficSampler {
    /// A sampler that has read nothing yet.
    pub fn new() -> (r: Self)
        ensures
            r.previous@ == Seq::<TrafficEntry>::empty(),
    {
        NetworkTrafficSampler { previous: Vec::new() }
    }

    /// The bytes moved since the last reading of an interface. `counters` are
    /// those that were read of it. Without an interface all readings are
    /// forgotten; where the counters cannot be read nothing changes.
    pub fn sample(
        &mut self,
        interface: Option<&str>,
        counters: Option<(u64, u64)>,
        now: u64,
    ) -> (r: Option<TrafficDelta>)
        ensures
            interface is None ==> r is None && final(self).previous@ == Seq::<TrafficEntry>::empty(),
            interface is Some && counters is None ==> r is None && *final(self) == *old(self),
            interface is Some && counters is Some ==> {
                let reading = Traffic { download: (counters->0).0, upload: (counters->0).1, at: now };
                &&& r == traffic_between(
                    last_traffic(old(self).previous@, interface->0@),
                    reading,
                )
                &&& forall|name: Seq<char>| #[trigger]
                    last_traffic(final(self).previous@, name) == if name == interface->0@ {
                        Some(reading)
                    } else {
                        last_traffic(old(self).previous@, name)
                    }
            },
    {
        let interface = match interface {
            None => {
                self.previous = Vec::new();
                return None;
            },
            Some(interface) => interface,
        };
        let (download, upload) = match counters {
            None => {
                return None;
            },
            Some(counters) => counters,
        };
        let reading = Traffic { download, upload, at: now };
        let ghost before = self.previous@;
        let ghost p = of_interface(interface@);
        let mut i: usize = 0;
        while i < self.previous.len() && !same(self.previous[i].interface.as_str(), interface)
            invariant
                i <= self.previous.len(),
                self.previous@ == before,
                p == of_interface(interface@),
                forall|j: int| 0 <= j < i ==> !p(#[trigger] before[j]),
            decreases self.previous.len() - i,
        {
            i += 1;
        }
        proof {
            lemma_first_index(before, p, i as nat);
        }
        let last = if i < self.previous.len() {
            let last = self.previous[i].traffic;
            self.previous[i].traffic = reading;
            proof {
                lemma_reading_replaced(before, self.previous@, i as int, interface@, reading);
            }
            Some(last)
        } else {
            self.previous.push(TrafficEntry { interface: owned(interface), traffic: reading });
            proof {
                assert(self.previous@.drop_last() =~= before);
                lemma_reading_added(before, self.previous@, interface@, reading);
            }
            None
        };
        match last {
            None => None,
            Some(last) => if now <= last.at || download < last.download || upload < last.upload {
                None
            } else {
                Some(
                    TrafficDelta {
                        download: download - last.download,
                        upload: upload - last.upload,
                        nanoseconds: now - last.at,
                    },
                )
            },
        }
    }
}

proof fn lemma_reading_replaced(
    before: Seq<TrafficEntry>,
    after: Seq<TrafficEntry>,
    i: int,
    name: Seq<char>,
    reading: Traffic,
)
    requires
        0 <= i < before.len(),
        after.len() == before.len(),
        i == first_index(before, of_interface(name)),
        before[i].interface@ == name,
        after[i].interface == before[i].interface,
        after[i].traffic == reading,
        forall|j: int| 0 <= j < before.len() && j != i ==> after[j] == before[j],
    ensures
        forall|n: Seq<char>| #[trigger]
            last_traffic(after, n) == if n == name {
                Some(reading)
            } else {
                last_traffic(before, n)
            },
{
    assert forall|n: Seq<char>| #[trigger]
        last_traffic(after, n) == if n == name {
            Some(reading)
        } else {
            last_traffic(before, n)
        } by {
        let p = of_interface(n);
        lemma_first_index_bounds(before, p);
        let k = first_index(before, p);
        assert forall|j: int| 0 <= j < k implies !p(#[trigger] after[j]) by {
            assert(!p(before[j]));
        }
        if k < before.len() {
            assert(p(before[k as int]));
            assert(p(after[k as int]));
        }
        lemma_first_index(after, p, k);
    }
}

proof fn lemma_reading_added(
    before: Seq<TrafficEntry>,
    after: Seq<TrafficEntry>,
    name: Seq<char>,
    reading: Traffic,
)
    requires
        after.len() == before.len() + 1,
        after.drop_last() == before,
        after.last().interface@ == name,
        after.last().traffic == reading,
        first_index(before, of_interface(name)) == before.len(),
    ensures
        forall|n: Seq<char>| #[trigger]
            last_traffic(after, n) == if n == name {
                Some(reading)
            } else {
                last_traffic(before, n)
            },
{
    assert forall|n: Seq<char>| #[trigger]
        last_traffic(after, n) == if n == name {
            Some(reading)
        } else {
            last_traffic(before, n)
        } by {
        let p = of_interface(n);
        lemma_first_index_bounds(before, p);
        let k = first_index(before, p);
        assert forall|j: int| 0 <= j < k implies !p(#[trigger] after[j]) by {
            assert(after[j] == before[j]);
            assert(!p(before[j]));
        }
        if k < before.len() {
            assert(after[k as int] == before[k as int]);
            lemma_first_index(after, p, k);
        } else if n == name {
            assert(p(after[k as int]));
            lemma_first_index(after, p, k);
        } else {
            assert(!p(after[k as int]));
            lemma_first_index(after, p, k + 1);
        }
    }
}

/// The names of the connected devices are those of the devices that say so, in
/// their order.
proof fn lemma_connected_names(s: Seq<DeviceFacts>)
    ensures
        connected_names(s).len() == s.filter(|d: DeviceFacts| d.connected == Some(true)).len(),
        forall|i: int|
            0 <= i < connected_names(s).len() ==> #[trigger] connected_names(s)[i]
                == device_name(s.filter(|d: DeviceFacts| d.connected == Some(true))[i]),
    decreases s.len(),
{
    reveal(Seq::filter);
    if s.len() > 0 {
        lemma_connected_names(s.drop_last());
    }
}

/// With a powered adapter Bluetooth is connected exactly where some device says
/// that it is; its label is then the name of the only such device, or how many
/// there are.
pub proof fn law_connected_devices(r: ToggleStatus, powered: bool, s: Seq<DeviceFacts>)
    requires
        is_bluetooth_status(r, powered, connected_names(s)),
    ensures
        r.enabled == powered,
        r.connected == (powered && exists|i: int|
            0 <= i < s.len() && (#[trigger] s[i]).connected == Some(true)),
        !powered ==> r.label@ == "Off"@,
        powered && (forall|i: int| 0 <= i < s.len() ==> (#[trigger] s[i]).connected != Some(true))
            ==> r.label@ == "未接続"@,
        forall|k: int|
            #![trigger s[k]]
            powered && 0 <= k < s.len() && s[k].connected == Some(true) && (forall|i: int|
                0 <= i < s.len() && (#[trigger] s[i]).connected == Some(true) ==> i == k)
                ==> r.label@ == (if s[k].alias is Some {
                s[k].alias->0@
            } else if s[k].name is Some {
                s[k].name->0@
            } else {
                "Bluetooth device"@
            }),
        powered && s.filter(|d: DeviceFacts| d.connected == Some(true)).len() > 1 ==> r.label@
            == decimal(s.filter(|d: DeviceFacts| d.connected == Some(true)).len()) + "台接続"@,
{
    let p = |d: DeviceFacts| d.connected == Some(true);
    let f = s.filter(p);
    lemma_connected_names(s);
    lemma_filter_members(s, p);
    if exists|i: int| 0 <= i < s.len() && (#[trigger] s[i]).connected == Some(true) {
        let i = choose|i: int| 0 <= i < s.len() && (#[trigger] s[i]).connected == Some(true);
        lemma_filter_keeps(s, p, i);
    } else if f.len() > 0 {
        assert(s.contains(f[0]));
        assert(p(f[0]));
    }
    assert forall|k: int|
        #![trigger s[k]]
        powered && 0 <= k < s.len() && s[k].connected == Some(true) && (forall|i: int|
            0 <= i < s.len() && (#[trigger] s[i]).connected == Some(true) ==> i == k) implies r.label@
        == device_name(s[k]) by {
        lemma_filter_one(s, p, k);
        assert(connected_names(s)[0] == device_name(f[0]));
    }
}

/// What a backlight is set to for a percentage is shown as that percentage or
/// the one below it.
pub proof fn law_brightness_round_trip(max: u32, percent: u8)
    requires
        max >= 100,
        percent <= 100,
    ensures
        percent - 1 <= brightness_percent((max * percent / 100) as u32, max) <= percent,
{
    let value = max as int * percent as int / 100;
    assert(max as int * percent as int <= max as int * 100) by (nonlinear_arith)
        requires
            percent <= 100,
    ;
    assert(0 <= value <= max);
    assert(value * 100 <= max as int * percent as int);
    assert(value * 100 > max as int * percent as int - 100);
    let shown = value * 100 / max as int;
    assert(percent as int - 1 <= shown <= percent as int) by (nonlinear_arith)
        requires
            shown == value * 100 / max as int,
            value * 100 <= max as int * percent as int,
            value * 100 > max as int * percent as int - 100,
            max >= 100,
    ;
}

/// Whether a device is a wireless one that is connected to a named access point.
pub open spec fn on_the_air(d: NetworkDevice) -> bool {
    d.state == 100 && d.kind == 2 && (d.access_point matches Some(p) && p.ssid@.len() > 0)
}

/// Whether a device is a wired one that is connected.
pub open spec fn on_the_wire(d: NetworkDevice) -> bool {
    d.state == 100 && d.kind == 1
}

proof fn lemma_network_facts(s: Seq<NetworkDevice>)
    ensures
        ({
            let f = network_facts(s);
            &&& f.ethernet <==> exists|i: int| 0 <= i < s.len() && on_the_wire(#[trigger] s[i])
            &&& (forall|i: int| 0 <= i < s.len() ==> !on_the_air(#[trigger] s[i])) ==> f.label is None
                && f.strength is None
        }),
    decreases s.len(),
{
    if s.len() > 0 {
        let rest = s.drop_last();
        lemma_network_facts(rest);
        assert(forall|i: int| 0 <= i < rest.len() ==> rest[i] == s[i]);
        if network_facts(rest).ethernet {
            let i = choose|i: int| 0 <= i < rest.len() && on_the_wire(#[trigger] rest[i]);
            assert(on_the_wire(s[i]));
        }
        if on_the_wire(s.last()) {
            assert(on_the_wire(s[s.len() - 1]));
        }
        if exists|i: int| 0 <= i < s.len() && on_the_wire(#[trigger] s[i]) {
            let i = choose|i: int| 0 <= i < s.len() && on_the_wire(#[trigger] s[i]);
            if i < rest.len() {
                assert(on_the_wire(rest[i]));
            }
        }
        if forall|i: int| 0 <= i < s.len() ==> !on_the_air(#[trigger] s[i]) {
            assert forall|i: int| 0 <= i < rest.len() implies !on_the_air(#[trigger] rest[i]) by {
                assert(!on_the_air(s[i]));
            }
            assert(!on_the_air(s[s.len() - 1]));
        }
    }
}

proof fn lemma_last_on_the_air(s: Seq<NetworkDevice>, at: int)
    requires
        0 <= at < s.len(),
        on_the_air(s[at]),
        forall|j: int| at < j < s.len() ==> !on_the_air(#[trigger] s[j]),
    ensures
        network_facts(s).label == Some(lossy(s[at].access_point->0.ssid@)),
        network_facts(s).strength == s[at].access_point->0.strength,
        s[at].interface@.len() > 0 ==> network_facts(s).interface == Some(s[at].interface@),
    decreases s.len(),
{
    if at < s.len() - 1 {
        assert(!on_the_air(s[s.len() - 1]));
        lemma_last_on_the_air(s.drop_last(), at);
    }
}

proof fn lemma_first_on_the_wire(s: Seq<NetworkDevice>, at: int)
    requires
        0 <= at <= s.len(),
        forall|j: int| 0 <= j < s.len() ==> !on_the_air(#[trigger] s[j]),
        forall|j: int|
            0 <= j < at ==> !on_the_wire(#[trigger] s[j]) || s[j].interface@.len() == 0,
        at < s.len() ==> on_the_wire(s[at]) && s[at].interface@.len() > 0,
    ensures
        network_facts(s).interface == if at < s.len() {
            Some(s[at].interface@)
        } else {
            None
        },
    decreases s.len(),
{
    if s.len() > 0 {
        let rest = s.drop_last();
        assert(!on_the_air(s[s.len() - 1]));
        assert forall|j: int| 0 <= j < rest.len() implies !on_the_air(#[trigger] rest[j]) by {
            assert(!on_the_air(s[j]));
        }
        if at < s.len() {
            lemma_first_on_the_wire(rest, at);
        } else {
            assert(!on_the_wire(s[s.len() - 1]) || s[s.len() - 1].interface@.len() == 0);
            lemma_first_on_the_wire(rest, at - 1);
        }
    }
}

/// With the wireless part on, a wireless connection is shown by the name and the
/// strength of its access point, whatever else is connected; of several, the last.
pub proof fn law_wireless_connection_is_shown(
    r: ToggleStatus,
    enabled: bool,
    s: Seq<NetworkDevice>,
    at: int,
)
    requires
        is_wifi_status(r, enabled, network_facts(s)),
        0 <= at < s.len(),
        on_the_air(s[at]),
        forall|j: int| at < j < s.len() ==> !on_the_air(#[trigger] s[j]),
    ensures
        r.enabled == enabled,
        r.connected == enabled,
        !r.wired,
        r.signal_strength == s[at].access_point->0.strength,
        s[at].interface@.len() > 0 ==> r.interface is Some && (r.interface->0)@
            == s[at].interface@,
        r.label@ == if enabled {
            lossy(s[at].access_point->0.ssid@)
        } else {
            "Off"@
        },
{
    lemma_last_on_the_air(s, at);
}

/// Without a wireless connection the network is wired where a wired device is
/// connected, and goes by the first of those that has a name.
pub proof fn law_wired_connection_is_shown(
    r: ToggleStatus,
    enabled: bool,
    s: Seq<NetworkDevice>,
    at: int,
)
    requires
        is_wifi_status(r, enabled, network_facts(s)),
        forall|j: int| 0 <= j < s.len() ==> !on_the_air(#[trigger] s[j]),
        0 <= at <= s.len(),
        forall|j: int|
            0 <= j < at ==> !on_the_wire(#[trigger] s[j]) || s[j].interface@.len() == 0,
        at < s.len() ==> on_the_wire(s[at]) && s[at].interface@.len() > 0,
    ensures
        r.enabled == enabled,
        !r.connected,
        r.wired == (enabled && exists|i: int| 0 <= i < s.len() && on_the_wire(#[trigger] s[i])),
        r.signal_strength is None,
        at < s.len() ==> r.interface is Some && (r.interface->0)@ == s[at].interface@,
        at == s.len() ==> r.interface is None,
        r.label@ == if !enabled {
            "Off"@
        } else if r.wired {
            "有線接続"@
        } else {
            "未接続"@
        },
{
    lemma_network_facts(s);
    lemma_first_on_the_wire(s, at);
}

/// No adapter has a path before that of the one that is used.
pub proof fn law_first_adapter_is_used(s: Seq<BluetoothAdapter>, at: int, j: int)
    requires
        is_least(adapter_paths(s), at),
        0 <= j < s.len(),
    ensures
        0 <= at < s.len(),
        !text_less(s[j].path@, s[at].path@),
        j < at ==> s[j].path@ != s[at].path@,
{
    let keys = adapter_paths(s);
    assert(keys[j] == s[j].path@);
    assert(keys[at] == s[at].path@);
    lemma_text_less_irreflexive(s[at].path@);
    if text_less(s[j].path@, s[at].path@) {
        if text_less(s[at].path@, s[j].path@) {
            lemma_text_less_transitive(s[j].path@, s[at].path@, s[j].path@);
            lemma_text_less_irreflexive(s[j].path@);
        }
    }
}

/// A raw backlight is used before one of the platform, that before one of the
/// firmware, and that before any other; of one kind the first by name is used.
pub proof fn law_preferred_backlight(s: Seq<BacklightFacts>, at: int, j: int)
    requires
        is_preferred_backlight(s, at),
        0 <= j < s.len(),
    ensures
        0 <= at < s.len(),
        ({
            let used = trim(s[at].kind@);
            let other = trim(s[j].kind@);
            &&& other == "raw"@ ==> used == "raw"@
            &&& other == "platform"@ ==> used == "raw"@ || used == "platform"@
            &&& other == "firmware"@ ==> used == "raw"@ || used == "platform"@ || used
                == "firmware"@
            &&& other == used ==> !text_less(s[j].name@, s[at].name@)
        }),
{
    reveal_strlit("raw");
    reveal_strlit("platform");
    reveal_strlit("firmware");
    assert("raw"@.len() == 3 && "platform"@.len() == 8 && "firmware"@.len() == 8);
    assert("platform"@[0] == 'p' && "firmware"@[0] == 'f');
    assert(backlight_before(s[at], s[j]) || !backlight_before(s[j], s[at]));
    if text_less(s[j].name@, s[at].name@) && text_less(s[at].name@, s[j].name@) {
        lemma_text_less_transitive(s[j].name@, s[at].name@, s[j].name@);
        lemma_text_less_irreflexive(s[j].name@);
    }
}

/// A backlight's brightness is its part of the whole, in percent and rounded down.
pub proof fn law_brightness_is_a_part(value: u32, max: u32)
    requires
        value <= max,
    ensures
        max > 0 ==> brightness_percent(value, max) * max <= value * 100 < (brightness_percent(
            value,
            max,
        ) + 1) * max,
        max > 0 && value == max ==> brightness_percent(value, max) == 100,
        value == 0 ==> brightness_percent(value, max) == 0,
{
    if max > 0 {
        let part = value * 100 / max as int;
        assert(0 <= part <= 100 && part * max <= value * 100 < (part + 1) * max && (value == max
            ==> part == 100)) by (nonlinear_arith)
            requires
                part == value * 100 / max as int,
                max > 0,
                0 <= value <= max,
        ;
    }
}

/// The battery that is used is one, and no battery has a name before it.
pub proof fn law_preferred_battery(s: Seq<PowerSupply>, at: int, j: int)
    requires
        is_preferred_battery(s, at),
        0 <= j < s.len(),
        trim(s[j].kind@) == "Battery"@,
    ensures
        0 <= at < s.len(),
        trim(s[at].kind@) == "Battery"@,
        !text_less(s[j].name@, s[at].name@),
{
    assert(is_battery()(s[j]));
    lemma_text_less_irreflexive(s[at].name@);
    if text_less(s[j].name@, s[at].name@) && text_less(s[at].name@, s[j].name@) {
        lemma_text_less_transitive(s[j].name@, s[at].name@, s[j].name@);
        lemma_text_less_irreflexive(s[j].name@);
    }
}

/// The bytes and the time between two readings, added to the earlier one, give the
/// later one; nothing is said of readings that do not follow one another.
pub proof fn law_traffic_adds_up(before: Traffic, now: Traffic)
    ensures
        traffic_between(None, now) is None,
        match traffic_between(Some(before), now) {
            Some(d) => {
                &&& before.download + d.download == now.download
                &&& before.upload + d.upload == now.upload
                &&& before.at + d.nanoseconds == now.at
                &&& d.nanoseconds > 0
            },
            None => now.at <= before.at || now.download < before.download || now.upload
                < before.upload,
        },
{
}

/// The last reading of an interface is the one that is kept under its name.
pub proof fn law_reading_is_kept(s: Seq<TrafficEntry>, at: int)
    requires
        0 <= at < s.len(),
        forall|j: int|
            0 <= j < at ==> (#[trigger] s[j]).interface@ != s[at].interface@,
    ensures
        last_traffic(s, s[at].interface@) == Some(s[at].traffic),
{
    lemma_first_index(s, of_interface(s[at].interface@), at as nat);
}

/// The volume is the first word that denotes a percentage.
pub proof fn law_first_percentage_is_the_volume(s: Seq<Option<u8>>, at: int)
    requires
        0 <= at <= s.len(),
        forall|j: int| 0 <= j < at ==> (#[trigger] s[j]) is None,
        at < s.len() ==> s[at] is Some,
    ensures
        first_percent(s) == if at < s.len() {
            s[at]
        } else {
            None
        },
{
    lemma_first_index(s, |p: Option<u8>| p is Some, at as nat);
}

/// A battery charges only where its state says so; what cannot be read is unknown.
pub proof fn law_battery_state(
    r: BatteryStatus,
    capacity: u32,
    state: Option<Seq<char>>,
    health: Option<Seq<char>>,
)
    requires
        is_battery_status(r, capacity, state, health),
    ensures
        r.percent <= 100,
        capacity <= 100 ==> r.percent == capacity,
        state matches Some(s) ==> r.state@ == trim(s) && r.charging == (trim(s) == "Charging"@),
        health matches Some(h) ==> r.health@ == trim(h),
        state is None ==> r.state@ == trim("Unknown"@) && r.charging == (trim("Unknown"@)
            == "Charging"@),
        capacity > 100 ==> r.percent == 100,
{
}

} // verus!
