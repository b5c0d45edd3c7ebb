//! What the machine reports of itself, and what it can be told to do.

use vstd::prelude::*;
use vstd::string::*;

use crate::bytes::copy_bytes;
use crate::modules::airpods::{found, AirPodsListeningMode, AirPodsStatus};
use crate::text::{concat, decimal, decimal_text, owned, views};

verus! {

/// Where sound goes to or comes from.
#[derive(Clone, Copy, Debug, PartialEq, Eq, Structural)]
pub enum AudioEndpoint {
    Output,
    Input,
}

/// The name by which the sound server knows the default endpoint.
pub open spec fn endpoint_name(endpoint: AudioEndpoint) -> Seq<char> {
    match endpoint {
        AudioEndpoint::Output => "@DEFAULT_AUDIO_SINK@"@,
        AudioEndpoint::Input => "@DEFAULT_AUDIO_SOURCE@"@,
    }
}

impl AudioEndpoint {
    /// The name by which the sound server knows the default endpoint.
    pub fn wpctl_id(self) -> (r: &'static str)
        ensures
            r@ == endpoint_name(self),
    {
        match self {
            AudioEndpoint::Output => "@DEFAULT_AUDIO_SINK@",
            AudioEndpoint::Input => "@DEFAULT_AUDIO_SOURCE@",
        }
    }
}

/// The kind of a network connection.
#[derive(Clone, Copy, Debug, PartialEq, Eq, Structural)]
pub enum NetworkKind {
    Wired,
    Wifi,
}

/// The connection that traffic takes by default.
#[derive(Debug, PartialEq, Eq)]
pub struct NetworkRoute {
    pub kind: NetworkKind,
    pub interface: String,
}

impl Clone for NetworkRoute {
    fn clone(&self) -> (r: Self)
        ensures
            r == *self,
    {
        NetworkRoute { kind: self.kind, interface: self.interface.clone() }
    }
}

/// The settings of one version of the internet protocol.
#[derive(Debug, PartialEq, Eq)]
pub struct IpSettings {
    pub automatic: bool,
    pub address: String,
    pub subnet_or_prefix: String,
    pub gateway: String,
    pub primary_dns: String,
    pub secondary_dns: String,
}

impl Clone for IpSettings {
    fn clone(&self) -> (r: Self)
        ensures
            r == *self,
    {
        IpSettings {
            automatic: self.automatic,
            address: self.address.clone(),
            subnet_or_prefix: self.subnet_or_prefix.clone(),
            gateway: self.gateway.clone(),
            primary_dns: self.primary_dns.clone(),
            secondary_dns: self.secondary_dns.clone(),
        }
    }
}

/// Whether settings are manual and empty.
pub open spec fn blank(s: IpSettings) -> bool {
    &&& !s.automatic
    &&& s.address@ == Seq::<char>::empty()
    &&& s.subnet_or_prefix@ == Seq::<char>::empty()
    &&& s.gateway@ == Seq::<char>::empty()
    &&& s.primary_dns@ == Seq::<char>::empty()
    &&& s.secondary_dns@ == Seq::<char>::empty()
}

impl Default for IpSettings {
    fn default() -> (r: Self)
        ensures
            blank(r),
    {
        IpSettings {
            automatic: false,
            address: String::new(),
            subnet_or_prefix: String::new(),
            gateway: String::new(),
            primary_dns: String::new(),
            secondary_dns: String::new(),
        }
    }
}

/// The settings of a connection.
#[derive(Debug, PartialEq, Eq)]
pub struct NetworkSettings {
    pub ipv4: IpSettings,
    pub ipv6: IpSettings,
}

impl Clone for NetworkSettings {
    fn clone(&self) -> (r: Self)
        ensures
            r == *self,
    {
        NetworkSettings { ipv4: self.ipv4.clone(), ipv6: self.ipv6.clone() }
    }
}

impl Default for NetworkSettings {
    fn default() -> (r: Self)
        ensures
            blank(r.ipv4),
            blank(r.ipv6),
    {
        NetworkSettings { ipv4: IpSettings::default(), ipv6: IpSettings::default() }
    }
}

/// A connection that is up.
#[derive(Debug, PartialEq, Eq)]
pub struct ActiveNetwork {
    pub label: String,
    pub kind: NetworkKind,
    pub interface: String,
    pub default_ipv4: bool,
    pub default_ipv6: bool,
    pub connection_uuid: Option<String>,
    pub speed_mbps: Option<u64>,
    pub settings: NetworkSettings,
}

impl Clone for ActiveNetwork {
    fn clone(&self) -> (r: Self)
        ensures
            r == *self,
    {
        ActiveNetwork {
            label: self.label.clone(),
            kind: self.kind,
            interface: self.interface.clone(),
            default_ipv4: self.default_ipv4,
            default_ipv6: self.default_ipv6,
            connection_uuid: self.connection_uuid.clone(),
            speed_mbps: self.speed_mbps,
            settings: self.settings.clone(),
        }
    }
}

/// How a wireless network is protected.
#[derive(Clone, Copy, Debug, PartialEq, Eq, Structural)]
pub enum WifiSecurity {
    Open,
    Personal,
    Unsupported,
}

/// A wireless network in reach.
#[derive(Debug, PartialEq, Eq)]
pub struct WifiNetwork {
    pub ssid: Vec<u8>,
    pub label: String,
    pub strength: u8,
    pub connected: bool,
    pub saved: bool,
    pub security: WifiSecurity,
}

/// A wireless network as contracts speak of it.
#[verifier::ext_equal]
pub struct WifiNetworkView {
    pub ssid: Seq<u8>,
    pub label: Seq<char>,
    pub strength: u8,
    pub connected: bool,
    pub saved: bool,
    pub security: WifiSecurity,
}

impl View for WifiNetwork {
    type V = WifiNetworkView;

    open spec fn view(&self) -> WifiNetworkView {
        WifiNetworkView {
            ssid: self.ssid@,
            label: self.label@,
            strength: self.strength,
            connected: self.connected,
            saved: self.saved,
            security: self.security,
        }
    }
}

impl Clone for WifiNetwork {
    fn clone(&self) -> (r: Self)
        ensures
            r@ == self@,
    {
        WifiNetwork {
            ssid: copy_bytes(&self.ssid),
            label: self.label.clone(),
            strength: self.strength,
            connected: self.connected,
            saved: self.saved,
            security: self.security,
        }
    }
}

/// Wireless networks as contracts speak of them.
pub open spec fn network_views(s: Seq<WifiNetwork>) -> Seq<WifiNetworkView> {
    s.map_values(|n: WifiNetwork| n@)
}

/// A Bluetooth device.
#[derive(Debug, PartialEq, Eq)]
pub struct BluetoothDevice {
    pub path: String,
    pub label: String,
    pub connected: bool,
    pub paired: bool,
    pub rssi: Option<i16>,
}

impl Clone for BluetoothDevice {
    fn clone(&self) -> (r: Self)
        ensures
            r == *self,
    {
        BluetoothDevice {
            path: self.path.clone(),
            label: self.label.clone(),
            connected: self.connected,
            paired: self.paired,
            rssi: self.rssi,
        }
    }
}

/// What pairing with a device asks of the user.
#[derive(Debug, PartialEq, Eq)]
pub enum BluetoothPairingPrompt {
    PinCode,
    Passkey,
    Confirmation { passkey: u32 },
    DisplayPinCode { pin_code: String },
    DisplayPasskey { passkey: u32 },
    Authorization,
}

impl Clone for BluetoothPairingPrompt {
    fn clone(&self) -> (r: Self)
        ensures
            r == *self,
    {
        match self {
            BluetoothPairingPrompt::PinCode => BluetoothPairingPrompt::PinCode,
            BluetoothPairingPrompt::Passkey => BluetoothPairingPrompt::Passkey,
            BluetoothPairingPrompt::Confirmation { passkey } => {
                BluetoothPairingPrompt::Confirmation { passkey: *passkey }
            },
            BluetoothPairingPrompt::DisplayPinCode { pin_code } => {
                BluetoothPairingPrompt::DisplayPinCode { pin_code: pin_code.clone() }
            },
            BluetoothPairingPrompt::DisplayPasskey { passkey } => {
                BluetoothPairingPrompt::DisplayPasskey { passkey: *passkey }
            },
            BluetoothPairingPrompt::Authorization => BluetoothPairingPrompt::Authorization,
        }
    }
}

/// What the user answers to it.
#[derive(Debug, PartialEq, Eq)]
pub enum BluetoothPairingResponse {
    PinCode { device_path: String, pin_code: String },
    Confirm { device_path: String, accepted: bool },
    Cancel { device_path: String },
}

/// What happens while a wireless network is connected to.
#[derive(Debug, PartialEq, Eq)]
pub enum WifiConnectionEvent {
    Connecting { ssid: Vec<u8> },
    Succeeded { ssid: Vec<u8> },
    Failed { ssid: Vec<u8>, message: String },
}

/// What comes of a change of settings.
#[derive(Debug, PartialEq, Eq)]
pub enum NetworkSettingsEvent {
    Applied { connection_uuid: String },
    Failed { connection_uuid: String, message: String },
}

/// What happens while a Bluetooth device is dealt with.
#[derive(Debug, PartialEq, Eq)]
pub enum BluetoothEvent {
    OperationStarted { device_path: String, pairing: bool },
    PairingPrompt { device_path: String, prompt: BluetoothPairingPrompt },
    Succeeded { device_path: String },
    Failed { device_path: String, message: String },
}

/// What the machine is told to do.
#[derive(Debug, PartialEq, Eq)]
pub enum ControlAction {
    ToggleWifi,
    ToggleBluetooth,
    ToggleMute(AudioEndpoint),
    SetVolume(AudioEndpoint, u8),
    SetBrightness(u8),
    SetWifiDiscovery(bool),
    SetBluetoothDiscovery(bool),
    ConnectWifi { ssid: Vec<u8>, password: Option<String> },
    UpdateNetworkSettings { connection_uuid: String, settings: NetworkSettings },
    ConnectBluetooth { device_path: String },
    DisconnectBluetooth { device_path: String },
    PairBluetooth { device_path: String },
    SetAirPodsListeningMode(AirPodsListeningMode),
}

/// The state of something that is on or off.
#[derive(Debug, PartialEq, Eq)]
pub struct ToggleStatus {
    pub available: bool,
    pub enabled: bool,
    pub connected: bool,
    pub wired: bool,
    pub signal_strength: Option<u8>,
    pub interface: Option<String>,
    pub download_kbps: Option<u64>,
    pub upload_kbps: Option<u64>,
    pub label: String,
}

impl Clone for ToggleStatus {
    fn clone(&self) -> (r: Self)
        ensures
            r == *self,
    {
        ToggleStatus {
            available: self.available,
            enabled: self.enabled,
            connected: self.connected,
            wired: self.wired,
            signal_strength: self.signal_strength,
            interface: self.interface.clone(),
            download_kbps: self.download_kbps,
            upload_kbps: self.upload_kbps,
            label: self.label.clone(),
        }
    }
}

/// Whether a status says that nothing is known.
pub open spec fn nothing_toggled(s: ToggleStatus) -> bool {
    &&& !s.available
    &&& !s.enabled
    &&& !s.connected
    &&& !s.wired
    &&& s.signal_strength is None
    &&& s.interface is None
    &&& s.download_kbps is None
    &&& s.upload_kbps is None
    &&& s.label@ == "利用不可"@
}

impl ToggleStatus {
    /// The state of what is not there.
    pub fn unavailable() -> (r: Self)
        ensures
            nothing_toggled(r),
    {
        ToggleStatus {
            available: false,
            enabled: false,
            connected: false,
            wired: false,
            signal_strength: None,
            interface: None,
            download_kbps: None,
            upload_kbps: None,
            label: owned("利用不可"),
        }
    }
}

/// The state of something that has a level.
#[derive(Clone, Copy, Debug, PartialEq, Eq, Structural)]
pub struct LevelStatus {
    pub available: bool,
    pub percent: u8,
    pub muted: bool,
}

/// The level of what is not there.
pub open spec fn no_level() -> LevelStatus {
    LevelStatus { available: false, percent: 0, muted: false }
}

impl LevelStatus {
    /// The level of what is not there.
    pub fn unavailable() -> (r: Self)
        ensures
            r == no_level(),
    {
        LevelStatus { available: false, percent: 0, muted: false }
    }
}

/// The kind of a core of the processor.
#[derive(Clone, Copy, Debug, PartialEq, Eq, Structural)]
pub enum CpuCoreKind {
    Performance,
    Efficiency,
}

/// The letter that stands for a kind of core.
pub open spec fn kind_label(kind: CpuCoreKind) -> Seq<char> {
    match kind {
        CpuCoreKind::Performance => "P"@,
        CpuCoreKind::Efficiency => "E"@,
    }
}

impl CpuCoreKind {
    /// The letter that stands for it.
    pub fn label(self) -> (r: &'static str)
        ensures
            r@ == kind_label(self),
    {
        match self {
            CpuCoreKind::Performance => "P",
            CpuCoreKind::Efficiency => "E",
        }
    }
}

/// How busy a core is.
#[derive(Clone, Copy, Debug, PartialEq, Eq, Structural)]
pub struct CpuCoreUsage {
    pub index: usize,
    pub kind: Option<CpuCoreKind>,
    pub percent_tenths: u16,
}

/// How busy the processor is.
#[derive(Debug, PartialEq, Eq)]
pub struct CpuStatus {
    pub available: bool,
    pub percent: u8,
    pub core_usages: Vec<CpuCoreUsage>,
}

impl CpuStatus {
    /// The state where nothing is known of the processor.
    pub fn unavailable() -> (r: Self)
        ensures
            !r.available,
            r.percent == 0,
            r.core_usages@ == Seq::<CpuCoreUsage>::empty(),
    {
        CpuStatus { available: false, percent: 0, core_usages: Vec::new() }
    }
}

/// How full the memory is.
#[derive(Clone, Copy, Debug, PartialEq, Eq, Structural)]
pub struct MemoryStatus {
    pub available: bool,
    pub percent: u8,
    pub used_kib: u64,
    pub total_kib: u64,
}

/// The state where nothing is known of the memory.
pub open spec fn no_memory() -> MemoryStatus {
    MemoryStatus { available: false, percent: 0, used_kib: 0, total_kib: 0 }
}

impl MemoryStatus {
    /// The state where nothing is known of the memory.
    pub fn unavailable() -> (r: Self)
        ensures
            r == no_memory(),
    {
        MemoryStatus { available: false, percent: 0, used_kib: 0, total_kib: 0 }
    }
}

/// How charged the battery is.
#[derive(Debug, PartialEq, Eq)]
pub struct BatteryStatus {
    pub available: bool,
    pub percent: u8,
    pub charging: bool,
    pub state: String,
    pub health: String,
}

impl Clone for BatteryStatus {
    fn clone(&self) -> (r: Self)
        ensures
            r == *self,
    {
        BatteryStatus {
            available: self.available,
            percent: self.percent,
            charging: self.charging,
            state: self.state.clone(),
            health: self.health.clone(),
        }
    }
}

/// Whether a status says that there is no battery.
pub open spec fn no_battery(s: BatteryStatus) -> bool {
    &&& !s.available
    &&& s.percent == 0
    &&& !s.charging
    &&& s.state@ == "不明"@
    &&& s.health@ == "不明"@
}

impl BatteryStatus {
    /// The state without a battery.
    pub fn unavailable() -> (r: Self)
        ensures
            no_battery(r),
    {
        BatteryStatus {
            available: false,
            percent: 0,
            charging: false,
            state: owned("不明"),
            health: owned("不明"),
        }
    }
}

/// What the machine reports of itself.
#[derive(Debug, PartialEq, Eq)]
pub struct ControlSnapshot {
    pub wifi: ToggleStatus,
    pub bluetooth: ToggleStatus,
    pub cpu: CpuStatus,
    pub memory: MemoryStatus,
    pub audio_output: LevelStatus,
    pub audio_input: LevelStatus,
    pub brightness: LevelStatus,
    pub battery: BatteryStatus,
    pub primary_network: Option<NetworkRoute>,
    pub wired_active: bool,
    pub wifi_networks: Vec<WifiNetwork>,
    pub active_networks: Vec<ActiveNetwork>,
    pub bluetooth_devices: Vec<BluetoothDevice>,
    pub airpods: AirPodsStatus,
}

/// Whether nothing is known of the machine.
pub open spec fn nothing_known(s: ControlSnapshot) -> bool {
    &&& nothing_toggled(s.wifi)
    &&& nothing_toggled(s.bluetooth)
    &&& !s.cpu.available
    &&& s.cpu.percent == 0
    &&& s.cpu.core_usages@ == Seq::<CpuCoreUsage>::empty()
    &&& s.memory == no_memory()
    &&& s.audio_output == no_level()
    &&& s.audio_input == no_level()
    &&& s.brightness == no_level()
    &&& no_battery(s.battery)
    &&& s.primary_network is None
    &&& !s.wired_active
    &&& s.wifi_networks@ == Seq::<WifiNetwork>::empty()
    &&& s.active_networks@ == Seq::<ActiveNetwork>::empty()
    &&& s.bluetooth_devices@ == Seq::<BluetoothDevice>::empty()
    &&& s.airpods == found(None)
}

impl Default for ControlSnapshot {
    fn default() -> (r: Self)
        ensures
            nothing_known(r),
    {
        ControlSnapshot {
            wifi: ToggleStatus::unavailable(),
            bluetooth: ToggleStatus::unavailable(),
            cpu: CpuStatus::unavailable(),
            memory: MemoryStatus::unavailable(),
            audio_output: LevelStatus::unavailable(),
            audio_input: LevelStatus::unavailable(),
            brightness: LevelStatus::unavailable(),
            battery: BatteryStatus::unavailable(),
            primary_network: None,
            wired_active: false,
            wifi_networks: Vec::new(),
            active_networks: Vec::new(),
            bluetooth_devices: Vec::new(),
            airpods: AirPodsStatus::default(),
        }
    }
}

/// A percentage: a number, but at most a hundred.
pub open spec fn percentage(n: u8) -> u8 {
    if n > 100 {
        100
    } else {
        n
    }
}

/// A percentage: a number, but at most a hundred.
pub fn limited_percent(n: u8) -> (r: u8)
    ensures
        r == percentage(n),
{
    if n > 100 {
        100
    } else {
        n
    }
}

/// What is shown at once after an action succeeded, before the machine reports
/// anew.
pub open spec fn after_action(s: ControlSnapshot, action: ControlAction) -> ControlSnapshot {
    match action {
        ControlAction::ToggleWifi => ControlSnapshot {
            wifi: ToggleStatus { enabled: !s.wifi.enabled, ..s.wifi },
            ..s
        },
        ControlAction::ToggleBluetooth => ControlSnapshot {
            bluetooth: ToggleStatus { enabled: !s.bluetooth.enabled, ..s.bluetooth },
            ..s
        },
        ControlAction::ToggleMute(AudioEndpoint::Output) => ControlSnapshot {
            audio_output: LevelStatus { muted: !s.audio_output.muted, ..s.audio_output },
            ..s
        },
        ControlAction::ToggleMute(AudioEndpoint::Input) => ControlSnapshot {
            audio_input: LevelStatus { muted: !s.audio_input.muted, ..s.audio_input },
            ..s
        },
        ControlAction::SetVolume(AudioEndpoint::Output, percent) => ControlSnapshot {
            audio_output: LevelStatus { percent: percentage(percent), ..s.audio_output },
            ..s
        },
        ControlAction::SetVolume(AudioEndpoint::Input, percent) => ControlSnapshot {
            audio_input: LevelStatus { percent: percentage(percent), ..s.audio_input },
            ..s
        },
        ControlAction::SetBrightness(percent) => ControlSnapshot {
            brightness: LevelStatus { percent: percentage(percent), ..s.brightness },
            ..s
        },
        _ => s,
    }
}

impl ControlSnapshot {
    /// Shows the effect of an action that succeeded.
    pub fn apply_action(&mut self, action: &ControlAction)
        ensures
            *final(self) == after_action(*old(self), *action),
    {
        match action {
            ControlAction::ToggleWifi => {
                self.wifi.enabled = !self.wifi.enabled;
            },
            ControlAction::ToggleBluetooth => {
                self.bluetooth.enabled = !self.bluetooth.enabled;
            },
            ControlAction::ToggleMute(AudioEndpoint::Output) => {
                self.audio_output.muted = !self.audio_output.muted;
            },
            ControlAction::ToggleMute(AudioEndpoint::Input) => {
                self.audio_input.muted = !self.audio_input.muted;
            },
            ControlAction::SetVolume(AudioEndpoint::Output, percent) => {
                self.audio_output.percent = limited_percent(*percent);
            },
            ControlAction::SetVolume(AudioEndpoint::Input, percent) => {
                self.audio_input.percent = limited_percent(*percent);
            },
            ControlAction::SetBrightness(percent) => {
                self.brightness.percent = limited_percent(*percent);
            },
            _ => {},
        }
    }
}

/// What an action means for the machine: what is switched, run or set.
#[derive(Debug)]
pub enum ControlRequest {
    SetWifi(bool),
    SetBluetooth(bool),
    RunWpctl(Vec<String>),
    SetBrightness(u8),
    Other,
}

/// The arguments with which the sound server is told to mute or unmute.
pub open spec fn mute_arguments(endpoint: AudioEndpoint) -> Seq<Seq<char>> {
    seq!["set-mute"@, endpoint_name(endpoint), "toggle"@]
}

/// The arguments with which the sound server is told the volume.
pub open spec fn volume_arguments(endpoint: AudioEndpoint, percent: u8) -> Seq<Seq<char>> {
    seq![
        "set-volume"@,
        "-l"@,
        "1.0"@,
        endpoint_name(endpoint),
        decimal(percentage(percent) as nat) + "%"@,
    ]
}

/// Whether a request is what an action means in the present state.
pub open spec fn carries_out(r: ControlRequest, s: ControlSnapshot, action: ControlAction) -> bool {
    match action {
        ControlAction::ToggleWifi => r == ControlRequest::SetWifi(!s.wifi.enabled),
        ControlAction::ToggleBluetooth => r == ControlRequest::SetBluetooth(!s.bluetooth.enabled),
        ControlAction::ToggleMute(endpoint) => {
            &&& r is RunWpctl
            &&& views(r->RunWpctl_0@) == mute_arguments(endpoint)
        },
        ControlAction::SetVolume(endpoint, percent) => {
            &&& r is RunWpctl
            &&& views(r->RunWpctl_0@) == volume_arguments(endpoint, percent)
        },
        ControlAction::SetBrightness(percent) => r == ControlRequest::SetBrightness(
            percentage(percent),
        ),
        _ => r is Other,
    }
}

/// What an action means in the present state.
pub fn control_request(current: &ControlSnapshot, action: &ControlAction) -> (r: ControlRequest)
    ensures
        carries_out(r, *current, *action),
{
    match action {
        ControlAction::ToggleWifi => ControlRequest::SetWifi(!current.wifi.enabled),
        ControlAction::ToggleBluetooth => ControlRequest::SetBluetooth(!current.bluetooth.enabled),
        ControlAction::ToggleMute(endpoint) => {
            let mut arguments: Vec<String> = Vec::new();
            arguments.push(owned("set-mute"));
            arguments.push(owned(endpoint.wpctl_id()));
            arguments.push(owned("toggle"));
            proof {
                assert(views(arguments@) =~= mute_arguments(*endpoint));
            }
            ControlRequest::RunWpctl(arguments)
        },
        ControlAction::SetVolume(endpoint, percent) => {
            let mut arguments: Vec<String> = Vec::new();
            arguments.push(owned("set-volume"));
            arguments.push(owned("-l"));
            arguments.push(owned("1.0"));
            arguments.push(owned(endpoint.wpctl_id()));
            let value = decimal_text(limited_percent(*percent) as u64);
            arguments.push(concat(value.as_str(), "%"));
            proof {
                assert(views(arguments@) =~= volume_arguments(*endpoint, *percent));
            }
            ControlRequest::RunWpctl(arguments)
        },
        ControlAction::SetBrightness(percent) => {
            ControlRequest::SetBrightness(limited_percent(*percent))
        },
        _ => ControlRequest::Other,
    }
}

/// Switching twice leaves everything as it was.
pub proof fn law_toggling_twice(s: ControlSnapshot, action: ControlAction)
    requires
        action is ToggleWifi || action is ToggleBluetooth || action is ToggleMute,
    ensures
        after_action(after_action(s, action), action) == s,
{
}

/// No level that was set exceeds a hundred percent.
pub proof fn law_levels_are_percentages(s: ControlSnapshot, action: ControlAction)
    requires
        s.audio_output.percent <= 100,
        s.audio_input.percent <= 100,
        s.brightness.percent <= 100,
    ensures
        after_action(s, action).audio_output.percent <= 100,
        after_action(s, action).audio_input.percent <= 100,
        after_action(s, action).brightness.percent <= 100,
{
}

/// How long a report of the system stays good, in nanoseconds.
pub const REFRESH_INTERVAL: u64 = 1_000_000_000;

/// Whether the system is to be looked at again: after an action, or when the last
/// report is old.
pub fn refresh_due(handled: bool, elapsed: u64) -> (r: bool)
    ensures
        r == (handled || elapsed >= 1_000_000_000),
{
    handled || elapsed >= REFRESH_INTERVAL
}

/// Setting a level once more, to another value, leaves what setting it once to
/// that value leaves.
pub proof fn law_last_level_stays(
    s: ControlSnapshot,
    endpoint: AudioEndpoint,
    first: u8,
    last: u8,
)
    ensures
        after_action(
            after_action(s, ControlAction::SetVolume(endpoint, first)),
            ControlAction::SetVolume(endpoint, last),
        ) == after_action(s, ControlAction::SetVolume(endpoint, last)),
        after_action(
            after_action(s, ControlAction::SetBrightness(first)),
            ControlAction::SetBrightness(last),
        ) == after_action(s, ControlAction::SetBrightness(last)),
{
}

/// An action changes what it names and nothing else: each switch is thrown by its own
/// action alone, and each level set by its own.
pub proof fn law_action_changes_one_thing(s: ControlSnapshot, action: ControlAction)
    ensures
        ({
            let r = after_action(s, action);
            &&& r.wifi.enabled != s.wifi.enabled <==> action is ToggleWifi
            &&& r.bluetooth.enabled != s.bluetooth.enabled <==> action is ToggleBluetooth
            &&& r.audio_output.muted != s.audio_output.muted <==> action == ControlAction::ToggleMute(
                AudioEndpoint::Output,
            )
            &&& r.audio_input.muted != s.audio_input.muted <==> action == ControlAction::ToggleMute(
                AudioEndpoint::Input,
            )
            &&& r.audio_output.percent != s.audio_output.percent ==> (
            action matches ControlAction::SetVolume(AudioEndpoint::Output, p))
            &&& r.audio_input.percent != s.audio_input.percent ==> (
            action matches ControlAction::SetVolume(AudioEndpoint::Input, p))
            &&& r.brightness.percent != s.brightness.percent ==> action is SetBrightness
        }),
{
    match action {
        ControlAction::ToggleMute(endpoint) => {},
        ControlAction::SetVolume(endpoint, percent) => {},
        _ => {},
    }
}

/// An action leaves all but the switches and levels as it is.
pub proof fn law_action_leaves_the_rest(s: ControlSnapshot, action: ControlAction)
    ensures
        ({
            let r = after_action(s, action);
            r == (ControlSnapshot {
                wifi: r.wifi,
                bluetooth: r.bluetooth,
                audio_output: r.audio_output,
                audio_input: r.audio_input,
                brightness: r.brightness,
                ..s
            })
        }),
        after_action(s, action).wifi == (ToggleStatus {
            enabled: after_action(s, action).wifi.enabled,
            ..s.wifi
        }),
        after_action(s, action).bluetooth == (ToggleStatus {
            enabled: after_action(s, action).bluetooth.enabled,
            ..s.bluetooth
        }),
{
}

/// A level is set to what is asked for, up to a hundred percent.
pub proof fn law_levels_are_set(s: ControlSnapshot, percent: u8)
    ensures
        ({
            let output = after_action(s, ControlAction::SetVolume(AudioEndpoint::Output, percent));
            let input = after_action(s, ControlAction::SetVolume(AudioEndpoint::Input, percent));
            let bright = after_action(s, ControlAction::SetBrightness(percent));
            &&& percent <= 100 ==> output.audio_output.percent == percent
                && input.audio_input.percent == percent && bright.brightness.percent == percent
            &&& percent > 100 ==> output.audio_output.percent == 100 && input.audio_input.percent
                == 100 && bright.brightness.percent == 100
        }),
{
}

/// What the machine is told is what is shown at once: it is switched to the state, and
/// set to the level, that is shown after the action.
pub proof fn law_request_and_display_agree(
    r: ControlRequest,
    s: ControlSnapshot,
    action: ControlAction,
)
    requires
        carries_out(r, s, action),
    ensures
        action is ToggleWifi <==> r is SetWifi,
        r matches ControlRequest::SetWifi(on) ==> on == after_action(s, action).wifi.enabled,
        action is ToggleBluetooth <==> r is SetBluetooth,
        r matches ControlRequest::SetBluetooth(on) ==> on == after_action(s, action).bluetooth.enabled,
        action is SetBrightness <==> r is SetBrightness,
        r matches ControlRequest::SetBrightness(p) ==> p == after_action(
            s,
            action,
        ).brightness.percent,
        action is ToggleMute || action is SetVolume <==> r is RunWpctl,
{
}

/// The sound server is told of the loudspeaker as its default sink and of the microphone
/// as its default source; a volume is told in percent, never over the whole.
pub proof fn law_sound_server_is_told(
    r: ControlRequest,
    s: ControlSnapshot,
    endpoint: AudioEndpoint,
    percent: u8,
)
    ensures
        carries_out(r, s, ControlAction::ToggleMute(endpoint)) ==> {
            let a = views(r->RunWpctl_0@);
            &&& a.len() == 3
            &&& a[0] == "set-mute"@
            &&& endpoint is Output ==> a[1] == "@DEFAULT_AUDIO_SINK@"@
            &&& endpoint is Input ==> a[1] == "@DEFAULT_AUDIO_SOURCE@"@
            &&& a[2] == "toggle"@
        },
        carries_out(r, s, ControlAction::SetVolume(endpoint, percent)) ==> {
            let a = views(r->RunWpctl_0@);
            &&& a.len() == 5
            &&& a[0] == "set-volume"@
            &&& a[1] == "-l"@ && a[2] == "1.0"@
            &&& endpoint is Output ==> a[3] == "@DEFAULT_AUDIO_SINK@"@
            &&& endpoint is Input ==> a[3] == "@DEFAULT_AUDIO_SOURCE@"@
            &&& percent <= 100 ==> a[4] == decimal(percent as nat) + "%"@
            &&& percent > 100 ==> a[4] == decimal(100) + "%"@
        },
{
}

} // verus!
