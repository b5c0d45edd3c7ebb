//! The device control center: its pages, the dialogs for networks and Bluetooth
//! devices, and what is typed into them.

use vstd::prelude::*;
use vstd::string::*;

use crate::bytes::{copy_bytes, opt_bytes, same_bytes};
use crate::modules::airpods::{AirPodsListeningMode, AirPodsStatus};
use crate::modules::system_controls::{
    network_views, ActiveNetwork, BluetoothDevice, BluetoothEvent, BluetoothPairingPrompt,
    BluetoothPairingResponse, ControlAction, ControlSnapshot, IpSettings, NetworkSettings,
    NetworkSettingsEvent, WifiConnectionEvent, WifiNetwork, WifiNetworkView, WifiSecurity,
};
use crate::routes::{DeviceControlCenterPage, DeviceControlCenterRoute};
use crate::seqs::{
    find_first, first_index, lemma_filter_keeps, lemma_filter_members, lemma_filter_step,
    lemma_first_index, lemma_first_index_bounds,
};
use crate::text::{
    chars_of, concat, decimal, decimal_int, decimal_int_text, decimal_text, opt_view, owned, same,
    string_of, trim, trim_text,
};

verus! {

/// A field that can be typed into.
#[derive(Clone, Copy, Debug, PartialEq, Eq, Structural, Hash)]
pub enum InputField {
    Password,
    BluetoothPin,
    Ipv4Address,
    Ipv4Subnet,
    Ipv4Gateway,
    Ipv4PrimaryDns,
    Ipv4SecondaryDns,
    Ipv6Address,
    Ipv6Prefix,
    Ipv6Gateway,
    Ipv6PrimaryDns,
    Ipv6SecondaryDns,
}

/// The number of a field.
pub open spec fn field_number(field: InputField) -> u32 {
    match field {
        InputField::Password => 0,
        InputField::BluetoothPin => 1,
        InputField::Ipv4Address => 2,
        InputField::Ipv4Subnet => 3,
        InputField::Ipv4Gateway => 4,
        InputField::Ipv4PrimaryDns => 5,
        InputField::Ipv4SecondaryDns => 6,
        InputField::Ipv6Address => 7,
        InputField::Ipv6Prefix => 8,
        InputField::Ipv6Gateway => 9,
        InputField::Ipv6PrimaryDns => 10,
        InputField::Ipv6SecondaryDns => 11,
    }
}

impl InputField {
    /// The number by which the field is told apart on the screen.
    pub fn element_id(self) -> (r: u32)
        ensures
            r == field_number(self),
    {
        match self {
            InputField::Password => 0,
            InputField::BluetoothPin => 1,
            InputField::Ipv4Address => 2,
            InputField::Ipv4Subnet => 3,
            InputField::Ipv4Gateway => 4,
            InputField::Ipv4PrimaryDns => 5,
            InputField::Ipv4SecondaryDns => 6,
            InputField::Ipv6Address => 7,
            InputField::Ipv6Prefix => 8,
            InputField::Ipv6Gateway => 9,
            InputField::Ipv6PrimaryDns => 10,
            InputField::Ipv6SecondaryDns => 11,
        }
    }
}

/// The mark of a network that traffic takes by default.
pub fn default_route_badge(network: &ActiveNetwork) -> (r: Option<&'static str>)
    ensures
        match r {
            None => !network.default_ipv4 && !network.default_ipv6,
            Some(badge) => {
                &&& network.default_ipv4 || network.default_ipv6
                &&& badge@ == (if !network.default_ipv6 {
                    "✓ IPv4"@
                } else if !network.default_ipv4 {
                    "✓ IPv6"@
                } else {
                    "✓ IPv4 / IPv6"@
                })
            },
        },
{
    match (network.default_ipv4, network.default_ipv6) {
        (true, true) => Some("✓ IPv4 / IPv6"),
        (true, false) => Some("✓ IPv4"),
        (false, true) => Some("✓ IPv6"),
        (false, false) => None,
    }
}

/// A dialog in front of the page.
#[derive(Debug)]
pub enum Modal {
    Password {
        network: WifiNetwork,
        password: String,
        message: Option<String>,
        connecting: bool,
    },
    ConfirmNetworkSettings,
}

/// The settings of a connection while they are edited.
#[derive(Debug)]
pub struct NetworkDetails {
    pub network: ActiveNetwork,
    pub settings: NetworkSettings,
    pub message: Option<String>,
    pub saving: bool,
}

/// The dialog in which a device is paired.
#[derive(Debug)]
pub struct BluetoothPairingDialog {
    pub device_path: String,
    pub device_label: String,
    pub prompt: BluetoothPairingPrompt,
    pub pin_code: String,
}

/// Something that is being done with a Bluetooth device.
#[derive(Debug)]
pub struct BluetoothOperation {
    pub device_path: String,
    pub pairing: bool,
}

/// The device control center.
#[derive(Debug)]
pub struct DeviceControlCenter {
    pub snapshot: ControlSnapshot,
    pub page: DeviceControlCenterPage,
    pub selected_ssid: Option<Vec<u8>>,
    pub modal: Option<Modal>,
    pub details: Option<NetworkDetails>,
    pub bluetooth_pairing: Option<BluetoothPairingDialog>,
    pub bluetooth_operations: Vec<BluetoothOperation>,
    pub bluetooth_message: Option<String>,
    pub active_input: Option<InputField>,
}

/// A request to connect to a network.
#[derive(Debug)]
pub struct ConnectRequest {
    pub ssid: Vec<u8>,
    pub password: Option<String>,
}

/// The predicate that holds of what is done with a device.
pub open spec fn of_device(path: Seq<char>) -> spec_fn(BluetoothOperation) -> bool {
    |o: BluetoothOperation| o.device_path@ == path
}

/// What is being done with a device: whether it is paired.
pub open spec fn operation(s: Seq<BluetoothOperation>, path: Seq<char>) -> Option<bool> {
    match find_first(s, of_device(path)) {
        Some(o) => Some(o.pairing),
        None => None,
    }
}

/// Whether no device occurs twice.
pub open spec fn distinct(s: Seq<BluetoothOperation>) -> bool {
    forall|i: int, j: int|
        0 <= i < j < s.len() ==> (#[trigger] s[i]).device_path@ != (#[trigger] s[j]).device_path@
}

/// The index of what is done with a device, or the number of all.
fn operation_index(s: &Vec<BluetoothOperation>, path: &str) -> (r: usize)
    ensures
        r == first_index(s@, of_device(path@)),
        r <= s@.len(),
        r < s@.len() ==> s@[r as int].device_path@ == path@,
{
    let ghost p = of_device(path@);
    let mut i: usize = 0;
    while i < s.len() && !same(s[i].device_path.as_str(), path)
        invariant
            i <= s.len(),
            p == of_device(path@),
            forall|j: int| 0 <= j < i ==> !p(#[trigger] s@[j]),
        decreases s.len() - i,
    {
        i += 1;
    }
    proof {
        lemma_first_index(s@, p, i as nat);
    }
    i
}

/// What is being done with a device.
pub fn operation_of(s: &Vec<BluetoothOperation>, path: &str) -> (r: Option<bool>)
    ensures
        r == operation(s@, path@),
{
    let i = operation_index(s, path);
    if i < s.len() {
        Some(s[i].pairing)
    } else {
        None
    }
}

proof fn lemma_operation_at(s: Seq<BluetoothOperation>, path: Seq<char>, i: int)
    requires
        distinct(s),
        0 <= i < s.len(),
        s[i].device_path@ == path,
    ensures
        operation(s, path) == Some(s[i].pairing),
{
    let p = of_device(path);
    assert forall|j: int| 0 <= j < i implies !p(#[trigger] s[j]) by {}
    lemma_first_index(s, p, i as nat);
}

proof fn lemma_no_operation(s: Seq<BluetoothOperation>, path: Seq<char>)
    requires
        forall|i: int| 0 <= i < s.len() ==> (#[trigger] s[i]).device_path@ != path,
    ensures
        operation(s, path) is None,
{
    let p = of_device(path);
    assert forall|j: int| 0 <= j < s.len() implies !p(#[trigger] s[j]) by {}
    lemma_first_index(s, p, s.len());
}

proof fn lemma_operation_kept(
    a: Seq<BluetoothOperation>,
    b: Seq<BluetoothOperation>,
    path: Seq<char>,
)
    requires
        distinct(a),
        distinct(b),
        forall|i: int|
            0 <= i < a.len() && (#[trigger] a[i]).device_path@ == path ==> exists|j: int|
                0 <= j < b.len() && (#[trigger] b[j]).device_path@ == path && b[j].pairing
                    == a[i].pairing,
        forall|j: int|
            0 <= j < b.len() && (#[trigger] b[j]).device_path@ == path ==> exists|i: int|
                0 <= i < a.len() && (#[trigger] a[i]).device_path@ == path,
    ensures
        operation(a, path) == operation(b, path),
{
    if exists|i: int| 0 <= i < a.len() && (#[trigger] a[i]).device_path@ == path {
        let i = choose|i: int| 0 <= i < a.len() && (#[trigger] a[i]).device_path@ == path;
        lemma_operation_at(a, path, i);
        let j = choose|j: int|
            0 <= j < b.len() && (#[trigger] b[j]).device_path@ == path && b[j].pairing
                == a[i].pairing;
        lemma_operation_at(b, path, j);
    } else {
        lemma_no_operation(a, path);
        lemma_no_operation(b, path);
    }
}

/// What is known of the devices after something began with one of them.
pub open spec fn began(
    before: Seq<BluetoothOperation>,
    after: Seq<BluetoothOperation>,
    path: Seq<char>,
    pairing: bool,
) -> bool {
    forall|other: Seq<char>| #[trigger]
        operation(after, other) == if other == path {
            Some(pairing)
        } else {
            operation(before, other)
        }
}

/// What is known of the devices after something ended with one of them.
pub open spec fn ended(
    before: Seq<BluetoothOperation>,
    after: Seq<BluetoothOperation>,
    path: Seq<char>,
) -> bool {
    forall|other: Seq<char>| #[trigger]
        operation(after, other) == if other == path {
            None
        } else {
            operation(before, other)
        }
}

/// Notes that something began with a device.
fn begin_operation(s: &mut Vec<BluetoothOperation>, path: String, pairing: bool)
    requires
        distinct(old(s)@),
    ensures
        distinct(final(s)@),
        began(old(s)@, final(s)@, path@, pairing),
{
    let ghost before = s@;
    let i = operation_index(s, path.as_str());
    if i < s.len() {
        s[i].pairing = pairing;
        let ghost after = s@;
        proof {
            assert forall|a: int, b: int| 0 <= a < b < after.len() implies (
            #[trigger] after[a]).device_path@ != (#[trigger] after[b]).device_path@ by {
                assert(after[a].device_path@ == before[a].device_path@);
                assert(after[b].device_path@ == before[b].device_path@);
            }
            assert forall|other: Seq<char>| #[trigger]
                operation(after, other) == if other == path@ {
                    Some(pairing)
                } else {
                    operation(before, other)
                } by {
                if other == path@ {
                    lemma_operation_at(after, other, i as int);
                } else {
                    assert forall|a: int|
                        0 <= a < before.len() && (
                        #[trigger] before[a]).device_path@ == other implies exists|b: int|
                        0 <= b < after.len() && (#[trigger] after[b]).device_path@ == other
                            && after[b].pairing == before[a].pairing by {
                        assert(after[a].device_path@ == other);
                    }
                    assert forall|b: int|
                        0 <= b < after.len() && (
                        #[trigger] after[b]).device_path@ == other implies exists|a: int|
                        0 <= a < before.len() && (#[trigger] before[a]).device_path@ == other by {
                        assert(before[b].device_path@ == other);
                    }
                    lemma_operation_kept(before, after, other);
                }
            }
        }
    } else {
        proof {
            lemma_first_index_bounds(before, of_device(path@));
            assert forall|a: int| 0 <= a < before.len() implies (
            #[trigger] before[a]).device_path@ != path@ by {
                assert(!of_device(path@)(before[a]));
            }
        }
        s.push(BluetoothOperation { device_path: path, pairing });
        let ghost after = s@;
        proof {
            assert forall|other: Seq<char>| #[trigger]
                operation(after, other) == if other == path@ {
                    Some(pairing)
                } else {
                    operation(before, other)
                } by {
                if other == path@ {
                    lemma_operation_at(after, other, after.len() - 1);
                } else {
                    assert forall|a: int|
                        0 <= a < before.len() && (
                        #[trigger] before[a]).device_path@ == other implies exists|b: int|
                        0 <= b < after.len() && (#[trigger] after[b]).device_path@ == other
                            && after[b].pairing == before[a].pairing by {
                        assert(after[a] == before[a]);
                    }
                    assert forall|b: int|
                        0 <= b < after.len() && (
                        #[trigger] after[b]).device_path@ == other implies exists|a: int|
                        0 <= a < before.len() && (#[trigger] before[a]).device_path@ == other by {
                        assert(b < before.len());
                        assert(before[b] == after[b]);
                    }
                    lemma_operation_kept(before, after, other);
                }
            }
        }
    }
}

/// Notes that something ended with a device.
fn end_operation(s: &mut Vec<BluetoothOperation>, path: &str)
    requires
        distinct(old(s)@),
    ensures
        distinct(final(s)@),
        ended(old(s)@, final(s)@, path@),
{
    let ghost before = s@;
    let i = operation_index(s, path);
    if i < s.len() {
        s.remove(i);
        let ghost after = s@;
        proof {
            assert(after =~= before.remove(i as int));
            assert forall|a: int, b: int| 0 <= a < b < after.len() implies (
            #[trigger] after[a]).device_path@ != (#[trigger] after[b]).device_path@ by {
                let x = if a < i {
                    a
                } else {
                    a + 1
                };
                let y = if b < i {
                    b
                } else {
                    b + 1
                };
                assert(after[a] == before[x]);
                assert(after[b] == before[y]);
            }
            assert forall|other: Seq<char>| #[trigger]
                operation(after, other) == if other == path@ {
                    None
                } else {
                    operation(before, other)
                } by {
                if other == path@ {
                    assert forall|a: int| 0 <= a < after.len() implies (
                    #[trigger] after[a]).device_path@ != other by {
                        let x = if a < i {
                            a
                        } else {
                            a + 1
                        };
                        assert(after[a] == before[x]);
                        assert(before[i as int].device_path@ == path@);
                    }
                    lemma_no_operation(after, other);
                } else {
                    assert forall|a: int|
                        0 <= a < before.len() && (
                        #[trigger] before[a]).device_path@ == other implies exists|b: int|
                        0 <= b < after.len() && (#[trigger] after[b]).device_path@ == other
                            && after[b].pairing == before[a].pairing by {
                        let b = if a < i {
                            a
                        } else {
                            a - 1
                        };
                        assert(after[b] == before[a]);
                    }
                    assert forall|b: int|
                        0 <= b < after.len() && (
                        #[trigger] after[b]).device_path@ == other implies exists|a: int|
                        0 <= a < before.len() && (#[trigger] before[a]).device_path@ == other by {
                        let a = if b < i {
                            b
                        } else {
                            b + 1
                        };
                        assert(before[a] == after[b]);
                    }
                    lemma_operation_kept(before, after, other);
                }
            }
        }
    } else {
        proof {
            lemma_first_index_bounds(before, of_device(path@));
            assert forall|a: int| 0 <= a < before.len() implies (
            #[trigger] before[a]).device_path@ != path@ by {
                assert(!of_device(path@)(before[a]));
            }
            lemma_no_operation(before, path@);
        }
    }
}

/// The settings that a field belongs to, and the text of the field in them.
pub open spec fn ip_text(s: NetworkSettings, field: InputField) -> Seq<char> {
    match field {
        InputField::Ipv4Address => s.ipv4.address@,
        InputField::Ipv4Subnet => s.ipv4.subnet_or_prefix@,
        InputField::Ipv4Gateway => s.ipv4.gateway@,
        InputField::Ipv4PrimaryDns => s.ipv4.primary_dns@,
        InputField::Ipv4SecondaryDns => s.ipv4.secondary_dns@,
        InputField::Ipv6Address => s.ipv6.address@,
        InputField::Ipv6Prefix => s.ipv6.subnet_or_prefix@,
        InputField::Ipv6Gateway => s.ipv6.gateway@,
        InputField::Ipv6PrimaryDns => s.ipv6.primary_dns@,
        _ => s.ipv6.secondary_dns@,
    }
}

/// Whether a field is one of the fourth version of the protocol.
pub open spec fn is_ipv4_field(field: InputField) -> bool {
    ||| field == InputField::Ipv4Address
    ||| field == InputField::Ipv4Subnet
    ||| field == InputField::Ipv4Gateway
    ||| field == InputField::Ipv4PrimaryDns
    ||| field == InputField::Ipv4SecondaryDns
}

/// The settings that a field belongs to.
pub open spec fn ip_of(s: NetworkSettings, field: InputField) -> IpSettings {
    if is_ipv4_field(field) {
        s.ipv4
    } else {
        s.ipv6
    }
}

/// What stands in a field, where it can be typed into.
pub open spec fn editable(c: DeviceControlCenter, field: InputField) -> Option<Seq<char>> {
    match field {
        InputField::Password => match c.modal {
            Some(Modal::Password { password, .. }) => Some(password@),
            _ => None,
        },
        InputField::BluetoothPin => match c.bluetooth_pairing {
            Some(dialog) => Some(dialog.pin_code@),
            None => None,
        },
        _ => match c.details {
            Some(details) => if ip_of(details.settings, field).automatic {
                None
            } else {
                Some(ip_text(details.settings, field))
            },
            None => None,
        },
    }
}

/// What is shown in a field: of a password only how long it is.
pub open spec fn shown_value(c: DeviceControlCenter, field: InputField) -> Seq<char> {
    match field {
        InputField::Password => match c.modal {
            Some(Modal::Password { password, .. }) => Seq::new(
                password@.len(),
                |i: int| '•',
            ),
            _ => Seq::empty(),
        },
        InputField::BluetoothPin => match c.bluetooth_pairing {
            Some(dialog) => dialog.pin_code@,
            None => Seq::empty(),
        },
        _ => match c.details {
            Some(details) => ip_text(details.settings, field),
            None => Seq::empty(),
        },
    }
}

/// Whether settings differ at most in one field.
pub open spec fn same_but_field(
    before: NetworkSettings,
    after: NetworkSettings,
    field: InputField,
) -> bool {
    match field {
        InputField::Ipv4Address => after == (NetworkSettings {
            ipv4: IpSettings { address: after.ipv4.address, ..before.ipv4 },
            ..before
        }),
        InputField::Ipv4Subnet => after == (NetworkSettings {
            ipv4: IpSettings { subnet_or_prefix: after.ipv4.subnet_or_prefix, ..before.ipv4 },
            ..before
        }),
        InputField::Ipv4Gateway => after == (NetworkSettings {
            ipv4: IpSettings { gateway: after.ipv4.gateway, ..before.ipv4 },
            ..before
        }),
        InputField::Ipv4PrimaryDns => after == (NetworkSettings {
            ipv4: IpSettings { primary_dns: after.ipv4.primary_dns, ..before.ipv4 },
            ..before
        }),
        InputField::Ipv4SecondaryDns => after == (NetworkSettings {
            ipv4: IpSettings { secondary_dns: after.ipv4.secondary_dns, ..before.ipv4 },
            ..before
        }),
        InputField::Ipv6Address => after == (NetworkSettings {
            ipv6: IpSettings { address: after.ipv6.address, ..before.ipv6 },
            ..before
        }),
        InputField::Ipv6Prefix => after == (NetworkSettings {
            ipv6: IpSettings { subnet_or_prefix: after.ipv6.subnet_or_prefix, ..before.ipv6 },
            ..before
        }),
        InputField::Ipv6Gateway => after == (NetworkSettings {
            ipv6: IpSettings { gateway: after.ipv6.gateway, ..before.ipv6 },
            ..before
        }),
        InputField::Ipv6PrimaryDns => after == (NetworkSettings {
            ipv6: IpSettings { primary_dns: after.ipv6.primary_dns, ..before.ipv6 },
            ..before
        }),
        InputField::Ipv6SecondaryDns => after == (NetworkSettings {
            ipv6: IpSettings { secondary_dns: after.ipv6.secondary_dns, ..before.ipv6 },
            ..before
        }),
        _ => after == before,
    }
}

/// Whether a center differs from another at most in the text of one field: of the
/// dialog around it nothing else, and nothing outside of it.
pub open spec fn same_but_text(
    before: DeviceControlCenter,
    after: DeviceControlCenter,
    field: InputField,
) -> bool {
    match field {
        InputField::Password => {
            &&& after == (DeviceControlCenter { modal: after.modal, ..before })
            &&& match before.modal {
                Some(Modal::Password { network, password, message, connecting }) => {
                    &&& after.modal is Some
                    &&& after.modal->0 is Password
                    &&& after.modal->0->Password_network == network
                    &&& after.modal->0->Password_message == message
                    &&& after.modal->0->Password_connecting == connecting
                },
                other => after.modal == other,
            }
        },
        InputField::BluetoothPin => {
            &&& after == (DeviceControlCenter {
                bluetooth_pairing: after.bluetooth_pairing,
                ..before
            })
            &&& match before.bluetooth_pairing {
                Some(dialog) => {
                    &&& after.bluetooth_pairing is Some
                    &&& after.bluetooth_pairing->0 == (BluetoothPairingDialog {
                        pin_code: after.bluetooth_pairing->0.pin_code,
                        ..dialog
                    })
                },
                None => after.bluetooth_pairing is None,
            }
        },
        _ => {
            &&& after == (DeviceControlCenter { details: after.details, ..before })
            &&& match before.details {
                Some(details) => {
                    &&& after.details is Some
                    &&& after.details->0 == (NetworkDetails {
                        settings: after.details->0.settings,
                        ..details
                    })
                    &&& same_but_field(details.settings, after.details->0.settings, field)
                },
                None => after.details is None,
            }
        },
    }
}

/// A text after a key was pressed: one that erases takes the last character, and
/// one that stands for a character adds it.
pub open spec fn typed(text: Seq<char>, key: Seq<char>) -> Seq<char> {
    if key == "backspace"@ {
        if text.len() > 0 {
            text.drop_last()
        } else {
            text
        }
    } else if key.len() == 1 {
        text + key
    } else {
        text
    }
}

/// A text after a key was pressed.
fn typed_text(text: &str, key: &str) -> (r: String)
    ensures
        r@ == typed(text@, key@),
{
    if same(key, "backspace") {
        let chars = chars_of(text);
        if chars.len() == 0 {
            return owned(text);
        }
        let (kept, _) = chars.as_slice().split_at(chars.len() - 1);
        proof {
            assert(kept@ =~= text@.drop_last());
        }
        string_of(kept)
    } else if key.unicode_len() == 1 {
        concat(text, key)
    } else {
        owned(text)
    }
}

/// What a key does.
#[derive(Debug)]
pub enum KeyStep {
    Nothing,
    /// Connect with the password that was typed.
    Connect,
    /// Answer what pairing asks.
    Answer(bool),
    /// Close the dialog.
    Close,
    /// Change what stands in the field.
    Type(InputField),
}

/// What a key does. Escape closes the dialog in front, or rejects the pairing;
/// enter confirms a password or a code; other keys are typed into the field.
pub open spec fn key_step(c: DeviceControlCenter, key: Seq<char>) -> KeyStep {
    if key == "escape"@ {
        if c.modal is Some {
            KeyStep::Close
        } else if c.bluetooth_pairing is Some {
            KeyStep::Answer(false)
        } else {
            KeyStep::Nothing
        }
    } else if key == "enter"@ && c.active_input == Some(InputField::Password) {
        KeyStep::Connect
    } else if key == "enter"@ && c.active_input == Some(InputField::BluetoothPin) {
        KeyStep::Answer(true)
    } else {
        match c.active_input {
            Some(field) => KeyStep::Type(field),
            None => KeyStep::Nothing,
        }
    }
}

/// What choosing a Bluetooth device does.
pub open spec fn device_action(d: BluetoothDevice) -> ControlAction {
    if d.connected {
        ControlAction::DisconnectBluetooth { device_path: d.path }
    } else if d.paired {
        ControlAction::ConnectBluetooth { device_path: d.path }
    } else {
        ControlAction::PairBluetooth { device_path: d.path }
    }
}

/// What choosing a Bluetooth device does: it disconnects one that is connected,
/// connects one that is paired, and pairs any other.
pub fn bluetooth_device_action(device: &BluetoothDevice) -> (r: ControlAction)
    ensures
        r == device_action(*device),
{
    if device.connected {
        ControlAction::DisconnectBluetooth { device_path: device.path.clone() }
    } else if device.paired {
        ControlAction::ConnectBluetooth { device_path: device.path.clone() }
    } else {
        ControlAction::PairBluetooth { device_path: device.path.clone() }
    }
}

/// The predicate that holds of the device of a path.
pub open spec fn at_path(path: Seq<char>) -> spec_fn(BluetoothDevice) -> bool {
    |d: BluetoothDevice| d.path@ == path
}

/// The label of a device of a path.
pub open spec fn device_label(s: Seq<BluetoothDevice>, path: Seq<char>) -> Seq<char> {
    match find_first(s, at_path(path)) {
        Some(d) => d.label@,
        None => "Bluetoothデバイス"@,
    }
}

/// The label of a device of a path.
fn label_of(devices: &Vec<BluetoothDevice>, path: &str) -> (r: String)
    ensures
        r@ == device_label(devices@, path@),
{
    let ghost p = at_path(path@);
    let mut i: usize = 0;
    while i < devices.len() && !same(devices[i].path.as_str(), path)
        invariant
            i <= devices.len(),
            p == at_path(path@),
            forall|j: int| 0 <= j < i ==> !p(#[trigger] devices@[j]),
        decreases devices.len() - i,
    {
        i += 1;
    }
    proof {
        lemma_first_index(devices@, p, i as nat);
    }
    if i < devices.len() {
        devices[i].label.clone()
    } else {
        owned("Bluetoothデバイス")
    }
}

/// Whether wireless networks, and whether Bluetooth devices are looked for while
/// a page is shown.
pub fn discovery(page: DeviceControlCenterPage) -> (r: (bool, bool))
    ensures
        r.0 == (page == DeviceControlCenterPage::Network),
        r.1 == (page == DeviceControlCenterPage::Bluetooth),
{
    (page == DeviceControlCenterPage::Network, page == DeviceControlCenterPage::Bluetooth)
}

/// The control center with a dialog that asks for a network's password.
pub open spec fn asks_password(
    m: Option<Modal>,
    network: WifiNetworkView,
    message: Option<Seq<char>>,
) -> bool {
    match m {
        Some(Modal::Password { network: n, password, message: text, connecting }) => {
            &&& n@ == network
            &&& password@.len() == 0
            &&& opt_view(text) == message
            &&& !connecting
        },
        _ => false,
    }
}

/// The dialog while a connection is asked for: nothing is wrong, and it is under
/// way.
pub open spec fn connecting_modal(m: Option<Modal>) -> Option<Modal> {
    match m {
        Some(Modal::Password { network, password, .. }) => Some(
            Modal::Password { network, password, message: None, connecting: true },
        ),
        _ => m,
    }
}

impl DeviceControlCenter {
    /// Whether no Bluetooth device occurs twice among those that something is
    /// done with.
    pub open spec fn valid(&self) -> bool {
        distinct(self.bluetooth_operations@)
    }

    /// A control center that shows a route.
    pub fn new(snapshot: ControlSnapshot, route: DeviceControlCenterRoute) -> (r: Self)
        ensures
            r.valid(),
            r.snapshot == snapshot,
            r.page == route.page,
            r.selected_ssid == route.ssid,
            r.modal is None,
            r.details is None,
            r.bluetooth_pairing is None,
            r.bluetooth_operations@ == Seq::<BluetoothOperation>::empty(),
            r.bluetooth_message is None,
            r.active_input is None,
    {
        DeviceControlCenter {
            snapshot,
            page: route.page,
            selected_ssid: route.ssid,
            modal: None,
            details: None,
            bluetooth_pairing: None,
            bluetooth_operations: Vec::new(),
            bluetooth_message: None,
            active_input: None,
        }
    }

    /// Shows what the machine reports.
    pub fn set_snapshot(&mut self, snapshot: ControlSnapshot)
        ensures
            *final(self) == (DeviceControlCenter { snapshot, ..*old(self) }),
    {
        self.snapshot = snapshot;
    }

    /// Shows another page, without the dialogs of the one before, and tells
    /// whether it is another.
    pub fn set_page(&mut self, page: DeviceControlCenterPage) -> (r: bool)
        ensures
            r == (old(self).page != page),
            !r ==> *final(self) == *old(self),
            r ==> *final(self) == (DeviceControlCenter {
                page,
                modal: None,
                details: None,
                bluetooth_pairing: None,
                active_input: None,
                ..*old(self)
            }),
    {
        if self.page == page {
            return false;
        }
        self.page = page;
        self.modal = None;
        self.details = None;
        self.bluetooth_pairing = None;
        self.active_input = None;
        true
    }

    /// Chooses a network. One that is not known and protected is asked a
    /// password for, or said not to be supported; for the others the connection
    /// is asked for.
    pub fn select_network(&mut self, network: WifiNetwork) -> (r: Option<ConnectRequest>)
        ensures
            opt_bytes(final(self).selected_ssid) == Some(network.ssid@),
            *final(self) == (DeviceControlCenter {
                selected_ssid: final(self).selected_ssid,
                details: None,
                active_input: None,
                modal: final(self).modal,
                ..*old(self)
            }),
            !network.saved && network.security == WifiSecurity::Unsupported ==> {
                &&& r is None
                &&& asks_password(
                    final(self).modal,
                    network@,
                    Some("このネットワークの認証方式には対応していません"@),
                )
            },
            !network.saved && network.security == WifiSecurity::Personal ==> {
                &&& r is None
                &&& asks_password(final(self).modal, network@, None)
            },
            network.saved || network.security == WifiSecurity::Open ==> {
                &&& r is Some
                &&& r->0.ssid@ == network.ssid@
                &&& r->0.password is None
                &&& final(self).modal == connecting_modal(old(self).modal)
            },
    {
        self.selected_ssid = Some(copy_bytes(&network.ssid));
        self.details = None;
        self.active_input = None;
        if !network.saved && network.security == WifiSecurity::Unsupported {
            self.modal = Some(
                Modal::Password {
                    network,
                    password: String::new(),
                    message: Some(owned("このネットワークの認証方式には対応していません")),
                    connecting: false,
                },
            );
            None
        } else if !network.saved && network.security == WifiSecurity::Personal {
            self.modal = Some(
                Modal::Password {
                    network,
                    password: String::new(),
                    message: None,
                    connecting: false,
                },
            );
            None
        } else {
            self.begin_connection();
            Some(ConnectRequest { ssid: network.ssid, password: None })
        }
    }

    /// Shows in the dialog that the connection is under way.
    fn begin_connection(&mut self)
        ensures
            *final(self) == (DeviceControlCenter {
                modal: connecting_modal(old(self).modal),
                ..*old(self)
            }),
    {
        let modal = self.modal.take();
        self.modal = match modal {
            Some(Modal::Password { network, password, message, connecting }) => Some(
                Modal::Password { network, password, message: None, connecting: true },
            ),
            other => other,
        };
    }

    /// Shows in the dialog that the connection could not be asked for.
    pub fn connection_request_failed(&mut self)
        ensures
            match old(self).modal {
                Some(Modal::Password { network, password, .. }) => {
                    &&& final(self).modal matches Some(
                        Modal::Password { network: n, password: p, message: m, connecting: c },
                    ) && n == network && p == password && opt_view(m) == Some(
                        "接続要求を送信できませんでした"@,
                    ) && !c
                    &&& *final(self) == (DeviceControlCenter {
                        modal: final(self).modal,
                        ..*old(self)
                    })
                },
                _ => *final(self) == *old(self),
            },
    {
        let modal = self.modal.take();
        self.modal = match modal {
            Some(Modal::Password { network, password, message, connecting }) => Some(
                Modal::Password {
                    network,
                    password,
                    message: Some(owned("接続要求を送信できませんでした")),
                    connecting: false,
                },
            ),
            other => other,
        };
    }

    /// Connects with the password that was typed; without one it is asked for.
    pub fn connect_password_network(&mut self) -> (r: Option<ConnectRequest>)
        ensures
            match old(self).modal {
                Some(Modal::Password { network, password, message, connecting }) => {
                    if connecting || network.security == WifiSecurity::Unsupported {
                        r is None && *final(self) == *old(self)
                    } else if password@.len() == 0 {
                        &&& r is None
                        &&& final(self).modal matches Some(
                            Modal::Password { network: n, password: p, message: m, connecting: c },
                        ) && n == network && p == password && opt_view(m) == Some(
                            "パスワードを入力してください"@,
                        ) && !c
                        &&& *final(self) == (DeviceControlCenter {
                            modal: final(self).modal,
                            ..*old(self)
                        })
                    } else {
                        &&& r is Some
                        &&& r->0.ssid@ == network.ssid@
                        &&& opt_view(r->0.password) == Some(password@)
                        &&& *final(self) == (DeviceControlCenter {
                            modal: connecting_modal(old(self).modal),
                            ..*old(self)
                        })
                    }
                },
                _ => r is None && *final(self) == *old(self),
            },
    {
        let modal = self.modal.take();
        match modal {
            Some(Modal::Password { network, password, message, connecting }) => {
                if connecting || network.security == WifiSecurity::Unsupported {
                    self.modal = Some(Modal::Password { network, password, message, connecting });
                    None
                } else if password.as_str().is_empty() {
                    self.modal = Some(
                        Modal::Password {
                            network,
                            password,
                            message: Some(owned("パスワードを入力してください")),
                            connecting,
                        },
                    );
                    None
                } else {
                    let request = ConnectRequest {
                        ssid: copy_bytes(&network.ssid),
                        password: Some(password.clone()),
                    };
                    self.modal = Some(
                        Modal::Password { network, password, message: None, connecting: true },
                    );
                    Some(request)
                }
            },
            other => {
                self.modal = other;
                None
            },
        }
    }

    /// Takes note of how connecting goes, where it is the network of the dialog:
    /// success closes it, a failure is told in it.
    pub fn apply_connection_event(&mut self, event: WifiConnectionEvent)
        ensures
            match old(self).modal {
                Some(Modal::Password { network, password, .. }) => match event {
                    WifiConnectionEvent::Connecting { ssid } => *final(self) == (
                    DeviceControlCenter {
                        modal: if ssid@ == network.ssid@ {
                            connecting_modal(old(self).modal)
                        } else {
                            old(self).modal
                        },
                        ..*old(self)
                    }),
                    WifiConnectionEvent::Succeeded { ssid } => *final(self) == (if ssid@
                        == network.ssid@ {
                        DeviceControlCenter { modal: None, active_input: None, ..*old(self) }
                    } else {
                        *old(self)
                    }),
                    WifiConnectionEvent::Failed { ssid, message } => *final(self) == (
                    DeviceControlCenter {
                        modal: if ssid@ == network.ssid@ {
                            Some(
                                Modal::Password {
                                    network,
                                    password,
                                    message: Some(message),
                                    connecting: false,
                                },
                            )
                        } else {
                            old(self).modal
                        },
                        ..*old(self)
                    }),
                },
                _ => *final(self) == *old(self),
            },
    {
        let modal = self.modal.take();
        match modal {
            Some(Modal::Password { network, password, message: shown, connecting }) => {
                match event {
                    WifiConnectionEvent::Connecting { ssid } => {
                        if same_bytes(&ssid, &network.ssid) {
                            self.modal = Some(
                                Modal::Password {
                                    network,
                                    password,
                                    message: None,
                                    connecting: true,
                                },
                            );
                        } else {
                            self.modal = Some(
                                Modal::Password { network, password, message: shown, connecting },
                            );
                        }
                    },
                    WifiConnectionEvent::Succeeded { ssid } => {
                        if same_bytes(&ssid, &network.ssid) {
                            self.active_input = None;
                        } else {
                            self.modal = Some(
                                Modal::Password { network, password, message: shown, connecting },
                            );
                        }
                    },
                    WifiConnectionEvent::Failed { ssid, message } => {
                        if same_bytes(&ssid, &network.ssid) {
                            self.modal = Some(
                                Modal::Password {
                                    network,
                                    password,
                                    message: Some(message),
                                    connecting: false,
                                },
                            );
                        } else {
                            self.modal = Some(
                                Modal::Password { network, password, message: shown, connecting },
                            );
                        }
                    },
                }
            },
            other => {
                self.modal = other;
            },
        }
    }

    /// Takes note of what came of a change of settings, where it is the
    /// connection that is edited.
    pub fn apply_network_settings_event(&mut self, event: NetworkSettingsEvent)
        ensures
            ({
                let edited = match old(self).details {
                    Some(details) => opt_view(details.network.connection_uuid),
                    None => None,
                };
                let told = match event {
                    NetworkSettingsEvent::Applied { connection_uuid } => connection_uuid@,
                    NetworkSettingsEvent::Failed { connection_uuid, .. } => connection_uuid@,
                };
                if edited == Some(told) {
                    &&& final(self).details is Some
                    &&& opt_view(final(self).details->0.message) == Some(
                        match event {
                            NetworkSettingsEvent::Applied { .. } =>
                                "設定を保存し、接続を再確立しました"@,
                            NetworkSettingsEvent::Failed { message, .. } => message@,
                        },
                    )
                    &&& *final(self) == (DeviceControlCenter {
                        details: Some(
                            NetworkDetails {
                                saving: false,
                                message: final(self).details->0.message,
                                ..old(self).details->0
                            },
                        ),
                        ..*old(self)
                    })
                } else {
                    *final(self) == *old(self)
                }
            }),
    {
        let (uuid, message) = match event {
            NetworkSettingsEvent::Applied { connection_uuid } => (
                connection_uuid,
                owned("設定を保存し、接続を再確立しました"),
            ),
            NetworkSettingsEvent::Failed { connection_uuid, message } => (connection_uuid, message),
        };
        let details = self.details.take();
        if let Some(mut details) = details {
            let here = match &details.network.connection_uuid {
                Some(edited) => same(edited.as_str(), uuid.as_str()),
                None => false,
            };
            if here {
                details.saving = false;
                details.message = Some(message);
            }
            self.details = Some(details);
        }
    }

    /// Chooses how the earbuds treat sound from outside and tells whether to ask
    /// them for it.
    pub fn set_airpods_mode(&mut self, mode: AirPodsListeningMode) -> (r: bool)
        ensures
            r == old(self).snapshot.airpods.ready,
            !r ==> *final(self) == *old(self),
            r ==> *final(self) == (DeviceControlCenter {
                snapshot: ControlSnapshot {
                    airpods: AirPodsStatus {
                        listening_mode: Some(mode),
                        message: None,
                        ..old(self).snapshot.airpods
                    },
                    ..old(self).snapshot
                },
                ..*old(self)
            }),
    {
        if !self.snapshot.airpods.ready {
            return false;
        }
        self.snapshot.airpods.listening_mode = Some(mode);
        self.snapshot.airpods.message = None;
        true
    }

    /// Shows that the earbuds could not be asked.
    pub fn airpods_request_failed(&mut self)
        ensures
            opt_view(final(self).snapshot.airpods.message) == Some(
                "AirPodsへの操作要求を送信できませんでした"@,
            ),
            *final(self) == (DeviceControlCenter {
                snapshot: ControlSnapshot {
                    airpods: AirPodsStatus {
                        message: final(self).snapshot.airpods.message,
                        ..old(self).snapshot.airpods
                    },
                    ..old(self).snapshot
                },
                ..*old(self)
            }),
    {
        self.snapshot.airpods.message = Some(owned("AirPodsへの操作要求を送信できませんでした"));
    }

    /// Chooses a Bluetooth device; one that something is done with already is
    /// left alone.
    pub fn select_bluetooth_device(&self, device: &BluetoothDevice) -> (r: Option<ControlAction>)
        ensures
            r == if operation(self.bluetooth_operations@, device.path@) is Some {
                None
            } else {
                Some(device_action(*device))
            },
    {
        let i = operation_index(&self.bluetooth_operations, device.path.as_str());
        if i < self.bluetooth_operations.len() {
            None
        } else {
            Some(bluetooth_device_action(device))
        }
    }

    /// Shows that a request could not be sent.
    pub fn bluetooth_request_failed(&mut self)
        ensures
            opt_view(final(self).bluetooth_message) == Some(
                "Bluetoothの操作要求を送信できませんでした"@,
            ),
            *final(self) == (DeviceControlCenter {
                bluetooth_message: final(self).bluetooth_message,
                ..*old(self)
            }),
    {
        self.bluetooth_message = Some(owned("Bluetoothの操作要求を送信できませんでした"));
    }

    /// Takes note of what happens with a Bluetooth device. What pairing asks is
    /// shown in a dialog, which an end of any kind closes.
    pub fn apply_bluetooth_event(&mut self, event: BluetoothEvent)
        requires
            old(self).valid(),
        ensures
            final(self).valid(),
            match event {
                BluetoothEvent::OperationStarted { device_path, pairing } => {
                    &&& began(
                        old(self).bluetooth_operations@,
                        final(self).bluetooth_operations@,
                        device_path@,
                        pairing,
                    )
                    &&& *final(self) == (DeviceControlCenter {
                        bluetooth_operations: final(self).bluetooth_operations,
                        bluetooth_message: None,
                        ..*old(self)
                    })
                },
                BluetoothEvent::PairingPrompt { device_path, prompt } => {
                    &&& final(self).bluetooth_pairing is Some
                    &&& final(self).bluetooth_pairing->0.device_path == device_path
                    &&& final(self).bluetooth_pairing->0.device_label@ == device_label(
                        old(self).snapshot.bluetooth_devices@,
                        device_path@,
                    )
                    &&& final(self).bluetooth_pairing->0.prompt == prompt
                    &&& final(self).bluetooth_pairing->0.pin_code@ == Seq::<char>::empty()
                    &&& *final(self) == (DeviceControlCenter {
                        bluetooth_pairing: final(self).bluetooth_pairing,
                        active_input: None,
                        ..*old(self)
                    })
                },
                BluetoothEvent::Succeeded { device_path } => {
                    &&& ended(
                        old(self).bluetooth_operations@,
                        final(self).bluetooth_operations@,
                        device_path@,
                    )
                    &&& *final(self) == (DeviceControlCenter {
                        bluetooth_operations: final(self).bluetooth_operations,
                        bluetooth_pairing: None,
                        active_input: None,
                        ..*old(self)
                    })
                },
                BluetoothEvent::Failed { device_path, message } => {
                    &&& ended(
                        old(self).bluetooth_operations@,
                        final(self).bluetooth_operations@,
                        device_path@,
                    )
                    &&& *final(self) == (DeviceControlCenter {
                        bluetooth_operations: final(self).bluetooth_operations,
                        bluetooth_pairing: None,
                        active_input: None,
                        bluetooth_message: Some(message),
                        ..*old(self)
                    })
                },
            },
    {
        match event {
            BluetoothEvent::OperationStarted { device_path, pairing } => {
                begin_operation(&mut self.bluetooth_operations, device_path, pairing);
                self.bluetooth_message = None;
            },
            BluetoothEvent::PairingPrompt { device_path, prompt } => {
                let device_label = label_of(&self.snapshot.bluetooth_devices, device_path.as_str());
                self.bluetooth_pairing = Some(
                    BluetoothPairingDialog {
                        device_path,
                        device_label,
                        prompt,
                        pin_code: String::new(),
                    },
                );
                self.active_input = None;
            },
            BluetoothEvent::Succeeded { device_path } => {
                end_operation(&mut self.bluetooth_operations, device_path.as_str());
                self.bluetooth_pairing = None;
                self.active_input = None;
            },
            BluetoothEvent::Failed { device_path, message } => {
                end_operation(&mut self.bluetooth_operations, device_path.as_str());
                self.bluetooth_pairing = None;
                self.active_input = None;
                self.bluetooth_message = Some(message);
            },
        }
    }

    /// Answers what pairing asks. A code must be typed before it is sent; what is
    /// only shown needs no answer; a rejection cancels the pairing.
    pub fn respond_bluetooth_pairing(&mut self, accepted: bool) -> (r: Option<
        BluetoothPairingResponse,
    >)
        ensures
            match old(self).bluetooth_pairing {
                None => r is None && *final(self) == *old(self),
                Some(dialog) => {
                    let done = DeviceControlCenter {
                        bluetooth_pairing: None,
                        active_input: None,
                        ..*old(self)
                    };
                    let asks = dialog.prompt is PinCode || dialog.prompt is Passkey;
                    let shows = dialog.prompt is DisplayPinCode || dialog.prompt is DisplayPasskey;
                    if !accepted {
                        &&& r == Some(
                            BluetoothPairingResponse::Cancel { device_path: dialog.device_path },
                        )
                        &&& *final(self) == done
                    } else if asks && trim(dialog.pin_code@).len() == 0 {
                        &&& r is None
                        &&& opt_view(final(self).bluetooth_message) == Some(
                            "PINまたはパスキーを入力してください"@,
                        )
                        &&& *final(self) == (DeviceControlCenter {
                            bluetooth_message: final(self).bluetooth_message,
                            ..*old(self)
                        })
                    } else if asks {
                        &&& r == Some(
                            BluetoothPairingResponse::PinCode {
                                device_path: dialog.device_path,
                                pin_code: dialog.pin_code,
                            },
                        )
                        &&& *final(self) == done
                    } else if shows {
                        r is None && *final(self) == done
                    } else {
                        &&& r == Some(
                            BluetoothPairingResponse::Confirm {
                                device_path: dialog.device_path,
                                accepted: true,
                            },
                        )
                        &&& *final(self) == done
                    }
                },
            },
    {
        let dialog = match self.bluetooth_pairing.take() {
            None => {
                return None;
            },
            Some(dialog) => dialog,
        };
        if !accepted {
            self.active_input = None;
            return Some(BluetoothPairingResponse::Cancel { device_path: dialog.device_path });
        }
        match &dialog.prompt {
            BluetoothPairingPrompt::PinCode | BluetoothPairingPrompt::Passkey => {
                if trim_text(dialog.pin_code.as_str()).as_str().is_empty() {
                    self.bluetooth_pairing = Some(dialog);
                    self.bluetooth_message = Some(owned("PINまたはパスキーを入力してください"));
                    return None;
                }
                self.active_input = None;
                Some(
                    BluetoothPairingResponse::PinCode {
                        device_path: dialog.device_path,
                        pin_code: dialog.pin_code,
                    },
                )
            },
            BluetoothPairingPrompt::DisplayPinCode { .. } | BluetoothPairingPrompt::DisplayPasskey {
                ..
            } => {
                self.active_input = None;
                None
            },
            _ => {
                self.active_input = None;
                Some(
                    BluetoothPairingResponse::Confirm {
                        device_path: dialog.device_path,
                        accepted: true,
                    },
                )
            },
        }
    }

    /// Shows that the answer could not be sent.
    pub fn pairing_response_failed(&mut self)
        ensures
            opt_view(final(self).bluetooth_message) == Some(
                "ペアリング応答を送信できませんでした"@,
            ),
            *final(self) == (DeviceControlCenter {
                bluetooth_message: final(self).bluetooth_message,
                ..*old(self)
            }),
    {
        self.bluetooth_message = Some(owned("ペアリング応答を送信できませんでした"));
    }

    /// Shows the settings of a connection.
    pub fn open_details(&mut self, network: ActiveNetwork)
        ensures
            *final(self) == (DeviceControlCenter {
                details: Some(
                    NetworkDetails {
                        settings: network.settings,
                        network,
                        message: None,
                        saving: false,
                    },
                ),
                active_input: None,
                ..*old(self)
            }),
    {
        let settings = network.settings.clone();
        self.details = Some(NetworkDetails { settings, network, message: None, saving: false });
        self.active_input = None;
    }

    /// Closes the settings.
    pub fn close_details(&mut self)
        ensures
            *final(self) == (DeviceControlCenter {
                details: None,
                active_input: None,
                ..*old(self)
            }),
    {
        self.details = None;
        self.active_input = None;
    }

    /// Makes a field the one that is typed into.
    pub fn focus_input(&mut self, field: InputField)
        ensures
            *final(self) == (DeviceControlCenter { active_input: Some(field), ..*old(self) }),
    {
        self.active_input = Some(field);
    }

    /// Closes the dialog in front.
    pub fn close_modal(&mut self)
        ensures
            *final(self) == (DeviceControlCenter {
                modal: None,
                active_input: None,
                ..*old(self)
            }),
    {
        self.modal = None;
        self.active_input = None;
    }

    /// What a key does, where the dialogs have the focus and no other key is held
    /// with it.
    pub fn input_key_down(&self, key: &str) -> (r: KeyStep)
        ensures
            r == key_step(*self, key@),
    {
        if same(key, "escape") {
            if self.modal.is_some() {
                return KeyStep::Close;
            }
            if self.bluetooth_pairing.is_some() {
                return KeyStep::Answer(false);
            }
            return KeyStep::Nothing;
        }
        match self.active_input {
            None => KeyStep::Nothing,
            Some(field) => {
                let enter = same(key, "enter");
                if enter && field == InputField::Password {
                    KeyStep::Connect
                } else if enter && field == InputField::BluetoothPin {
                    KeyStep::Answer(true)
                } else {
                    KeyStep::Type(field)
                }
            },
        }
    }

    /// Types a key into a field; one that cannot be typed into stays as it is.
    pub fn type_key(&mut self, field: InputField, key: &str)
        ensures
            same_but_text(*old(self), *final(self), field),
            editable(*old(self), field) is None ==> *final(self) == *old(self),
            editable(*old(self), field) is Some ==> editable(*final(self), field) == Some(
                typed(editable(*old(self), field)->0, key@),
            ),
            forall|other: InputField|
                other != field ==> #[trigger] editable(*final(self), other) == editable(
                    *old(self),
                    other,
                ),
            forall|other: InputField|
                other != field ==> #[trigger] shown_value(*final(self), other) == shown_value(
                    *old(self),
                    other,
                ),
    {
        match field {
            InputField::Password => {
                let modal = self.modal.take();
                self.modal = match modal {
                    Some(Modal::Password { network, password, message, connecting }) => {
                        let password = typed_text(password.as_str(), key);
                        Some(Modal::Password { network, password, message, connecting })
                    },
                    other => other,
                };
            },
            InputField::BluetoothPin => {
                if let Some(mut dialog) = self.bluetooth_pairing.take() {
                    dialog.pin_code = typed_text(dialog.pin_code.as_str(), key);
                    self.bluetooth_pairing = Some(dialog);
                }
            },
            _ => {
                if let Some(mut details) = self.details.take() {
                    type_into(&mut details.settings, field, key);
                    self.details = Some(details);
                }
            },
        }
    }

    /// What is shown in a field.
    pub fn input_value(&self, field: InputField) -> (r: String)
        ensures
            r@ == shown_value(*self, field),
    {
        match field {
            InputField::Password => match &self.modal {
                Some(Modal::Password { password, .. }) => dots(password.as_str().unicode_len()),
                _ => String::new(),
            },
            InputField::BluetoothPin => match &self.bluetooth_pairing {
                Some(dialog) => dialog.pin_code.clone(),
                None => String::new(),
            },
            _ => match &self.details {
                Some(details) => field_value(&details.settings, field),
                None => String::new(),
            },
        }
    }

    /// Chooses whether the settings of a version of the protocol are made by
    /// hand.
    pub fn set_manual(&mut self, ipv6: bool, manual: bool)
        ensures
            match old(self).details {
                None => *final(self) == *old(self),
                Some(details) => *final(self) == (DeviceControlCenter {
                    details: Some(
                        NetworkDetails {
                            message: None,
                            settings: if ipv6 {
                                NetworkSettings {
                                    ipv6: IpSettings {
                                        automatic: !manual,
                                        ..details.settings.ipv6
                                    },
                                    ..details.settings
                                }
                            } else {
                                NetworkSettings {
                                    ipv4: IpSettings {
                                        automatic: !manual,
                                        ..details.settings.ipv4
                                    },
                                    ..details.settings
                                }
                            },
                            ..details
                        },
                    ),
                    ..*old(self)
                }),
            },
    {
        if let Some(mut details) = self.details.take() {
            if ipv6 {
                details.settings.ipv6.automatic = !manual;
            } else {
                details.settings.ipv4.automatic = !manual;
            }
            details.message = None;
            self.details = Some(details);
        }
    }

    /// Asks whether to save the settings; without a profile that is said
    /// instead, and while they are saved nothing happens.
    pub fn request_save_network_settings(&mut self)
        ensures
            match old(self).details {
                None => *final(self) == *old(self),
                Some(details) => if details.saving {
                    *final(self) == *old(self)
                } else if details.network.connection_uuid is None {
                    &&& final(self).details is Some
                    &&& opt_view(final(self).details->0.message) == Some(
                        "接続プロファイルが見つかりません"@,
                    )
                    &&& *final(self) == (DeviceControlCenter {
                        details: Some(
                            NetworkDetails {
                                message: final(self).details->0.message,
                                ..details
                            },
                        ),
                        ..*old(self)
                    })
                } else {
                    *final(self) == (DeviceControlCenter {
                        modal: Some(Modal::ConfirmNetworkSettings),
                        active_input: None,
                        ..*old(self)
                    })
                },
            },
    {
        if let Some(mut details) = self.details.take() {
            if !details.saving {
                if details.network.connection_uuid.is_none() {
                    details.message = Some(owned("接続プロファイルが見つかりません"));
                } else {
                    self.modal = Some(Modal::ConfirmNetworkSettings);
                    self.active_input = None;
                }
            }
            self.details = Some(details);
        }
    }

    /// Saves the settings: the profile and the settings that are to be sent.
    pub fn save_network_settings(&mut self) -> (r: Option<(String, NetworkSettings)>)
        ensures
            match old(self).details {
                Some(details) => match details.network.connection_uuid {
                    Some(uuid) => {
                        &&& r == Some((uuid, details.settings))
                        &&& *final(self) == (DeviceControlCenter {
                            details: Some(
                                NetworkDetails { saving: true, message: None, ..details },
                            ),
                            modal: None,
                            ..*old(self)
                        })
                    },
                    None => r is None && *final(self) == *old(self),
                },
                None => r is None && *final(self) == *old(self),
            },
    {
        let mut request: Option<(String, NetworkSettings)> = None;
        if let Some(mut details) = self.details.take() {
            if let Some(uuid) = details.network.connection_uuid.clone() {
                request = Some((uuid, details.settings.clone()));
                details.saving = true;
                details.message = None;
                self.modal = None;
            }
            self.details = Some(details);
        }
        request
    }

    /// Shows that the settings could not be sent.
    pub fn save_request_failed(&mut self)
        ensures
            match old(self).details {
                None => *final(self) == *old(self),
                Some(details) => {
                    &&& final(self).details is Some
                    &&& opt_view(final(self).details->0.message) == Some(
                        "設定の保存要求を送信できませんでした"@,
                    )
                    &&& *final(self) == (DeviceControlCenter {
                        details: Some(
                            NetworkDetails {
                                saving: false,
                                message: final(self).details->0.message,
                                ..details
                            },
                        ),
                        ..*old(self)
                    })
                },
            },
    {
        if let Some(mut details) = self.details.take() {
            details.saving = false;
            details.message = Some(owned("設定の保存要求を送信できませんでした"));
            self.details = Some(details);
        }
    }
}

/// As many dots as a number says.
fn dots(n: usize) -> (r: String)
    ensures
        r@ == Seq::new(n as nat, |i: int| '•'),
{
    let mut out = String::new();
    let mut i: usize = 0;
    proof {
        assert(out@ =~= Seq::new(0, |i: int| '•'));
    }
    while i < n
        invariant
            i <= n,
            out@ == Seq::new(i as nat, |i: int| '•'),
        decreases n - i,
    {
        out.append("•");
        proof {
            reveal_strlit("•");
            assert(out@ =~= Seq::new((i + 1) as nat, |i: int| '•'));
        }
        i += 1;
    }
    out
}

/// The text of a field in settings.
fn field_value(s: &NetworkSettings, field: InputField) -> (r: String)
    ensures
        r@ == ip_text(*s, field),
{
    match field {
        InputField::Ipv4Address => s.ipv4.address.clone(),
        InputField::Ipv4Subnet => s.ipv4.subnet_or_prefix.clone(),
        InputField::Ipv4Gateway => s.ipv4.gateway.clone(),
        InputField::Ipv4PrimaryDns => s.ipv4.primary_dns.clone(),
        InputField::Ipv4SecondaryDns => s.ipv4.secondary_dns.clone(),
        InputField::Ipv6Address => s.ipv6.address.clone(),
        InputField::Ipv6Prefix => s.ipv6.subnet_or_prefix.clone(),
        InputField::Ipv6Gateway => s.ipv6.gateway.clone(),
        InputField::Ipv6PrimaryDns => s.ipv6.primary_dns.clone(),
        _ => s.ipv6.secondary_dns.clone(),
    }
}

/// Types a key into a field of settings, unless they are automatic.
fn type_into(s: &mut NetworkSettings, field: InputField, key: &str)
    requires
        field != InputField::Password,
        field != InputField::BluetoothPin,
    ensures
        same_but_field(*old(s), *final(s), field),
        ip_of(*old(s), field).automatic ==> *final(s) == *old(s),
        !ip_of(*old(s), field).automatic ==> ip_text(*final(s), field) == typed(
            ip_text(*old(s), field),
            key@,
        ),
        forall|other: InputField|
            other != field && other != InputField::Password && other != InputField::BluetoothPin
                ==> #[trigger] ip_text(*final(s), other) == ip_text(*old(s), other),
{
    let ipv4 = match field {
        InputField::Ipv4Address
        | InputField::Ipv4Subnet
        | InputField::Ipv4Gateway
        | InputField::Ipv4PrimaryDns
        | InputField::Ipv4SecondaryDns => true,
        _ => false,
    };
    let automatic = if ipv4 {
        s.ipv4.automatic
    } else {
        s.ipv6.automatic
    };
    if automatic {
        return;
    }
    let text = typed_text(field_value(s, field).as_str(), key);
    match field {
        InputField::Ipv4Address => {
            s.ipv4.address = text;
        },
        InputField::Ipv4Subnet => {
            s.ipv4.subnet_or_prefix = text;
        },
        InputField::Ipv4Gateway => {
            s.ipv4.gateway = text;
        },
        InputField::Ipv4PrimaryDns => {
            s.ipv4.primary_dns = text;
        },
        InputField::Ipv4SecondaryDns => {
            s.ipv4.secondary_dns = text;
        },
        InputField::Ipv6Address => {
            s.ipv6.address = text;
        },
        InputField::Ipv6Prefix => {
            s.ipv6.subnet_or_prefix = text;
        },
        InputField::Ipv6Gateway => {
            s.ipv6.gateway = text;
        },
        InputField::Ipv6PrimaryDns => {
            s.ipv6.primary_dns = text;
        },
        _ => {
            s.ipv6.secondary_dns = text;
        },
    }
}

/// The predicate that holds of networks that are not connected and were used
/// before, or were not.
pub open spec fn idle_and_saved(saved: bool) -> spec_fn(WifiNetworkView) -> bool {
    |n: WifiNetworkView| n.saved == saved && !n.connected
}

/// The networks of the page that are not connected: those that were used before,
/// or the others.
pub fn idle_networks(networks: &Vec<WifiNetwork>, saved: bool) -> (r: Vec<WifiNetwork>)
    ensures
        network_views(r@) == network_views(networks@).filter(idle_and_saved(saved)),
{
    let ghost s = network_views(networks@);
    let ghost p = idle_and_saved(saved);
    let mut out: Vec<WifiNetwork> = Vec::new();
    let mut i: usize = 0;
    proof {
        assert(s.take(0).filter(p) =~= Seq::empty()) by {
            reveal(Seq::filter);
        }
        assert(network_views(out@) =~= Seq::empty());
    }
    while i < networks.len()
        invariant
            i <= networks.len(),
            s == network_views(networks@),
            p == idle_and_saved(saved),
            network_views(out@) == s.take(i as int).filter(p),
        decreases networks.len() - i,
    {
        proof {
            lemma_filter_step(s, p, i as int);
            assert(s[i as int] == networks@[i as int]@);
        }
        if networks[i].saved == saved && !networks[i].connected {
            let ghost before = out@;
            let next = networks[i].clone();
            out.push(next);
            proof {
                assert(network_views(out@) =~= network_views(before).push(next@));
            }
        }
        i += 1;
    }
    proof {
        assert(s.take(i as int) =~= s);
    }
    out
}

/// The predicate that holds of devices that are known, or of those that are not.
pub open spec fn device_is_known(known: bool) -> spec_fn(BluetoothDevice) -> bool {
    |d: BluetoothDevice| (d.connected || d.paired) == known
}

/// The devices of the page: those that are connected or paired, or the others.
pub fn bluetooth_group(devices: &Vec<BluetoothDevice>, known: bool) -> (r: Vec<BluetoothDevice>)
    ensures
        r@ == devices@.filter(device_is_known(known)),
{
    let ghost s = devices@;
    let ghost p = device_is_known(known);
    let mut out: Vec<BluetoothDevice> = Vec::new();
    let mut i: usize = 0;
    proof {
        assert(s.take(0).filter(p) =~= Seq::empty()) by {
            reveal(Seq::filter);
        }
    }
    while i < devices.len()
        invariant
            i <= devices.len(),
            s == devices@,
            p == device_is_known(known),
            out@ == s.take(i as int).filter(p),
        decreases devices.len() - i,
    {
        proof {
            lemma_filter_step(s, p, i as int);
        }
        if (devices[i].connected || devices[i].paired) == known {
            out.push(devices[i].clone());
        }
        i += 1;
    }
    proof {
        assert(s.take(i as int) =~= s);
    }
    out
}

/// What is said of a device's state.
pub open spec fn device_status(d: BluetoothDevice, operation: Option<bool>) -> Seq<char> {
    match operation {
        Some(true) => "ペアリング中…"@,
        Some(false) => "処理中…"@,
        None => if d.connected {
            "接続済み（クリックで切断）"@
        } else if d.paired {
            "ペアリング済み（クリックで接続）"@
        } else {
            "クリックでペアリング・接続"@
        },
    }
}

/// What is said of a device: its state, and the strength of its signal.
pub fn device_status_label(device: &BluetoothDevice, operation: Option<bool>) -> (r: String)
    ensures
        r@ == device_status(*device, operation) + match device.rssi {
            Some(rssi) => " "@ + decimal_int(rssi as int) + " dBm"@,
            None => ""@,
        },
{
    let status = match operation {
        Some(true) => "ペアリング中…",
        Some(false) => "処理中…",
        None => if device.connected {
            "接続済み（クリックで切断）"
        } else if device.paired {
            "ペアリング済み（クリックで接続）"
        } else {
            "クリックでペアリング・接続"
        },
    };
    let signal = match device.rssi {
        Some(rssi) => {
            let mut text = concat(" ", decimal_int_text(rssi as i64).as_str());
            text.append(" dBm");
            text
        },
        None => owned(""),
    };
    concat(status, signal.as_str())
}

/// How high the list of known devices is while none is connected: enough for
/// three of them.
pub fn compact_known_panel_height(known: usize) -> (r: u32)
    ensures
        r == 96 + (if known > 3 {
            3
        } else {
            known as int
        }) * 52,
        r <= 252,
{
    let shown: u32 = if known > 3 {
        3
    } else {
        known as u32
    };
    96 + shown * 52
}

/// A code with at least six digits.
pub open spec fn six_digits(n: nat) -> Seq<char> {
    if n < 10 {
        "00000"@ + decimal(n)
    } else if n < 100 {
        "0000"@ + decimal(n)
    } else if n < 1_000 {
        "000"@ + decimal(n)
    } else if n < 10_000 {
        "00"@ + decimal(n)
    } else if n < 100_000 {
        "0"@ + decimal(n)
    } else {
        decimal(n)
    }
}

/// A code with at least six digits.
fn six_digit_text(n: u32) -> (r: String)
    ensures
        r@ == six_digits(n as nat),
{
    let digits = decimal_text(n as u64);
    if n < 10 {
        concat("00000", digits.as_str())
    } else if n < 100 {
        concat("0000", digits.as_str())
    } else if n < 1_000 {
        concat("000", digits.as_str())
    } else if n < 10_000 {
        concat("00", digits.as_str())
    } else if n < 100_000 {
        concat("0", digits.as_str())
    } else {
        digits
    }
}

/// What pairing tells the user to do.
pub open spec fn instruction(prompt: BluetoothPairingPrompt) -> Seq<char> {
    match prompt {
        BluetoothPairingPrompt::PinCode => "このデバイスのPINを入力してください"@,
        BluetoothPairingPrompt::Passkey => "数字のパスキーを入力してください"@,
        BluetoothPairingPrompt::Confirmation { passkey } =>
            "次のコードがデバイス側と一致することを確認してください: "@ + six_digits(
            passkey as nat,
        ),
        BluetoothPairingPrompt::DisplayPinCode { pin_code } =>
            "デバイス側で次のPINを入力してください: "@ + pin_code@,
        BluetoothPairingPrompt::DisplayPasskey { passkey } =>
            "デバイス側に次のコードが表示されます: "@ + six_digits(passkey as nat),
        BluetoothPairingPrompt::Authorization =>
            "このデバイスとのペアリングを許可しますか？"@,
    }
}

/// The label of the button that agrees.
pub open spec fn confirm_label(prompt: BluetoothPairingPrompt) -> Seq<char> {
    match prompt {
        BluetoothPairingPrompt::PinCode => "送信"@,
        BluetoothPairingPrompt::Passkey => "送信"@,
        BluetoothPairingPrompt::Confirmation { .. } => "承認"@,
        BluetoothPairingPrompt::DisplayPinCode { .. } => "閉じる"@,
        BluetoothPairingPrompt::DisplayPasskey { .. } => "閉じる"@,
        BluetoothPairingPrompt::Authorization => "許可"@,
    }
}

/// What pairing tells the user to do, and the label of the button that agrees.
pub fn pairing_instruction(prompt: &BluetoothPairingPrompt) -> (r: (String, &'static str))
    ensures
        r.0@ == instruction(*prompt),
        r.1@ == confirm_label(*prompt),
{
    match prompt {
        BluetoothPairingPrompt::PinCode => (owned("このデバイスのPINを入力してください"), "送信"),
        BluetoothPairingPrompt::Passkey => (owned("数字のパスキーを入力してください"), "送信"),
        BluetoothPairingPrompt::Confirmation { passkey } => (
            concat(
                "次のコードがデバイス側と一致することを確認してください: ",
                six_digit_text(*passkey).as_str(),
            ),
            "承認",
        ),
        BluetoothPairingPrompt::DisplayPinCode { pin_code } => (
            concat("デバイス側で次のPINを入力してください: ", pin_code.as_str()),
            "閉じる",
        ),
        BluetoothPairingPrompt::DisplayPasskey { passkey } => (
            concat(
                "デバイス側に次のコードが表示されます: ",
                six_digit_text(*passkey).as_str(),
            ),
            "閉じる",
        ),
        BluetoothPairingPrompt::Authorization => (
            owned("このデバイスとのペアリングを許可しますか？"),
            "許可",
        ),
    }
}

/// Whether pairing asks for something to be typed.
pub fn requires_input(prompt: &BluetoothPairingPrompt) -> (r: bool)
    ensures
        r == (*prompt is PinCode || *prompt is Passkey),
{
    match prompt {
        BluetoothPairingPrompt::PinCode | BluetoothPairingPrompt::Passkey => true,
        _ => false,
    }
}

/// A character that is typed is erased again by the key that erases.
pub proof fn law_erasing_takes_back(text: Seq<char>, key: Seq<char>)
    requires
        key.len() == 1,
    ensures
        typed(typed(text, key), "backspace"@) == text,
{
    reveal_strlit("backspace");
    assert("backspace"@.len() == 9);
    assert((text + key).drop_last() =~= text);
}

/// The fields are told apart by their numbers.
pub proof fn law_field_numbers_differ(a: InputField, b: InputField)
    ensures
        field_number(a) == field_number(b) <==> a == b,
{
}

/// Something that began with a device and ended leaves the device as if nothing
/// had begun.
pub proof fn law_operation_ends(
    before: Seq<BluetoothOperation>,
    during: Seq<BluetoothOperation>,
    after: Seq<BluetoothOperation>,
    path: Seq<char>,
    pairing: bool,
    other: Seq<char>,
)
    requires
        began(before, during, path, pairing),
        ended(during, after, path),
    ensures
        operation(after, path) is None,
        other != path ==> operation(after, other) == operation(before, other),
{
    assert(operation(during, other) == operation(during, other));
}

/// Typing into one field of the settings changes no other.
pub proof fn law_other_fields_stay(
    before: NetworkSettings,
    after: NetworkSettings,
    field: InputField,
    other: InputField,
)
    requires
        same_but_field(before, after, field),
        other != field,
        other != InputField::Password,
        other != InputField::BluetoothPin,
    ensures
        ip_text(after, other) == ip_text(before, other),
        after.ipv4.automatic == before.ipv4.automatic,
        after.ipv6.automatic == before.ipv6.automatic,
{
}

/// The fields stand for the parts of the settings: what all of them hold is all that is
/// written there.
pub proof fn law_fields_hold_settings(s: NetworkSettings)
    ensures
        ip_text(s, InputField::Ipv4Address) == s.ipv4.address@,
        ip_text(s, InputField::Ipv4Subnet) == s.ipv4.subnet_or_prefix@,
        ip_text(s, InputField::Ipv4Gateway) == s.ipv4.gateway@,
        ip_text(s, InputField::Ipv4PrimaryDns) == s.ipv4.primary_dns@,
        ip_text(s, InputField::Ipv4SecondaryDns) == s.ipv4.secondary_dns@,
        ip_text(s, InputField::Ipv6Address) == s.ipv6.address@,
        ip_text(s, InputField::Ipv6Prefix) == s.ipv6.subnet_or_prefix@,
        ip_text(s, InputField::Ipv6Gateway) == s.ipv6.gateway@,
        ip_text(s, InputField::Ipv6PrimaryDns) == s.ipv6.primary_dns@,
        ip_text(s, InputField::Ipv6SecondaryDns) == s.ipv6.secondary_dns@,
{
}

/// What can be typed into is shown as it stands, but for a password, of which only the
/// length is shown.
pub proof fn law_what_is_shown(c: DeviceControlCenter, field: InputField)
    ensures
        editable(c, field) matches Some(text) ==> {
            &&& field != InputField::Password ==> shown_value(c, field) == text
            &&& field == InputField::Password ==> shown_value(c, field).len() == text.len()
                && forall|i: int|
                0 <= i < text.len() ==> #[trigger] shown_value(c, field)[i] == '•'
        },
        c.details matches Some(d) ==> {
            &&& d.settings.ipv4.automatic ==> editable(c, InputField::Ipv4Address) is None
                && editable(c, InputField::Ipv4Gateway) is None
            &&& d.settings.ipv6.automatic ==> editable(c, InputField::Ipv6Address) is None
                && editable(c, InputField::Ipv6Gateway) is None
            &&& !d.settings.ipv4.automatic ==> editable(c, InputField::Ipv4Address) is Some
            &&& !d.settings.ipv6.automatic ==> editable(c, InputField::Ipv6Address) is Some
        },
{
}

/// Keys are typed one character at a time; those with longer names, but for the one that
/// erases, change nothing.
pub proof fn law_typed_keys(text: Seq<char>, key: Seq<char>, c: char)
    ensures
        typed(text, seq![c]) == text.push(c),
        key.len() != 1 && key != "backspace"@ ==> typed(text, key) == text,
        typed(text.push(c), "backspace"@) == text,
        typed(Seq::empty(), "backspace"@) == Seq::<char>::empty(),
{
    reveal_strlit("backspace");
    assert("backspace"@.len() == 9);
    assert(text + seq![c] =~= text.push(c));
    assert(text.push(c).drop_last() =~= text);
}

/// Escape closes what is in front and never types; enter confirms what was typed; any
/// other key is typed where something can be.
pub proof fn law_keys_of_dialogs(c: DeviceControlCenter, key: Seq<char>)
    ensures
        c.modal is Some ==> key_step(c, "escape"@) is Close,
        c.modal is None && c.bluetooth_pairing is Some ==> key_step(c, "escape"@)
            == KeyStep::Answer(false),
        c.modal is None && c.bluetooth_pairing is None ==> key_step(c, "escape"@) is Nothing,
        c.active_input == Some(InputField::Password) ==> key_step(c, "enter"@) is Connect,
        c.active_input == Some(InputField::BluetoothPin) ==> key_step(c, "enter"@)
            == KeyStep::Answer(true),
        key != "escape"@ && key != "enter"@ ==> match c.active_input {
            Some(field) => key_step(c, key) == KeyStep::Type(field),
            None => key_step(c, key) is Nothing,
        },
{
    reveal_strlit("escape");
    reveal_strlit("enter");
    assert("escape"@.len() == 6 && "enter"@.len() == 5);
}

/// Choosing a device does the next thing with that device: it is paired, then connected,
/// then disconnected.
pub proof fn law_next_thing_with_a_device(d: BluetoothDevice)
    ensures
        device_action(d) matches ControlAction::PairBluetooth { device_path } ==> !d.connected
            && !d.paired && device_path == d.path,
        device_action(d) matches ControlAction::ConnectBluetooth { device_path } ==> !d.connected
            && d.paired && device_path == d.path,
        device_action(d) matches ControlAction::DisconnectBluetooth { device_path }
            ==> d.connected && device_path == d.path,
        d.connected ==> device_action(d) is DisconnectBluetooth,
        !d.connected && d.paired ==> device_action(d) is ConnectBluetooth,
        !d.connected && !d.paired ==> device_action(d) is PairBluetooth,
{
}

/// A device is told by its own label.
pub proof fn law_label_of_device(s: Seq<BluetoothDevice>, at: int)
    requires
        0 <= at < s.len(),
        forall|j: int| 0 <= j < at ==> (#[trigger] s[j]).path@ != s[at].path@,
    ensures
        device_label(s, s[at].path@) == s[at].label@,
{
    lemma_first_index(s, at_path(s[at].path@), at as nat);
}

/// Every network that is not connected stands in one of the two groups, and a connected
/// one in neither.
pub proof fn law_groups_of_networks(s: Seq<WifiNetworkView>, saved: bool, i: int)
    requires
        0 <= i < s.len(),
    ensures
        s.filter(idle_and_saved(saved)).contains(s[i]) == (s[i].saved == saved && !s[i].connected),
{
    let p = idle_and_saved(saved);
    lemma_filter_members(s, p);
    if p(s[i]) {
        lemma_filter_keeps(s, p, i);
    } else if s.filter(p).contains(s[i]) {
        let k = choose|k: int| 0 <= k < s.filter(p).len() && s.filter(p)[k] == s[i];
        assert(p(s.filter(p)[k]));
    }
}

/// Every device stands in one of the two groups: those that are connected or paired, and
/// the others.
pub proof fn law_groups_of_devices(s: Seq<BluetoothDevice>, known: bool, i: int)
    requires
        0 <= i < s.len(),
    ensures
        s.filter(device_is_known(known)).contains(s[i]) == (known == (s[i].connected
            || s[i].paired)),
{
    let p = device_is_known(known);
    lemma_filter_members(s, p);
    if p(s[i]) {
        lemma_filter_keeps(s, p, i);
    } else if s.filter(p).contains(s[i]) {
        let k = choose|k: int| 0 <= k < s.filter(p).len() && s.filter(p)[k] == s[i];
        assert(p(s.filter(p)[k]));
    }
}

/// What is being done with a device is what was noted last under its path.
pub proof fn law_operation_of_device(s: Seq<BluetoothOperation>, at: int, path: Seq<char>)
    requires
        distinct(s),
    ensures
        0 <= at < s.len() ==> operation(s, s[at].device_path@) == Some(s[at].pairing),
        (forall|j: int| 0 <= j < s.len() ==> (#[trigger] s[j]).device_path@ != path) ==> operation(
            s,
            path,
        ) is None,
{
    if 0 <= at < s.len() {
        lemma_first_index(s, of_device(s[at].device_path@), at as nat);
    }
    if forall|j: int| 0 <= j < s.len() ==> (#[trigger] s[j]).device_path@ != path {
        lemma_first_index(s, of_device(path), s.len());
    }
}

/// A code below a million is written with six digits, zeros first.
pub proof fn law_codes_have_six_digits(n: nat)
    requires
        n < 1_000_000,
    ensures
        six_digits(n).len() == 6,
        decimal(n).is_suffix_of(six_digits(n)),
        forall|i: int| 0 <= i < 6 - decimal(n).len() ==> six_digits(n)[i] == '0',
{
    reveal_strlit("0");
    reveal_strlit("00");
    reveal_strlit("000");
    reveal_strlit("0000");
    reveal_strlit("00000");
    reveal_with_fuel(decimal, 6);
    let r = six_digits(n);
    let d = decimal(n);
    assert("0"@.len() == 1 && "00"@.len() == 2 && "000"@.len() == 3 && "0000"@.len() == 4
        && "00000"@.len() == 5);
    assert(d =~= r.subrange(r.len() - d.len(), r.len() as int));
}

/// Where a code is to be compared or typed elsewhere, it is told.
pub proof fn law_codes_are_told(prompt: BluetoothPairingPrompt)
    ensures
        prompt matches BluetoothPairingPrompt::Confirmation { passkey } ==> six_digits(
            passkey as nat,
        ).is_suffix_of(instruction(prompt)),
        prompt matches BluetoothPairingPrompt::DisplayPasskey { passkey } ==> six_digits(
            passkey as nat,
        ).is_suffix_of(instruction(prompt)),
        prompt matches BluetoothPairingPrompt::DisplayPinCode { pin_code }
            ==> pin_code@.is_suffix_of(instruction(prompt)),
{
    let r = instruction(prompt);
    match prompt {
        BluetoothPairingPrompt::Confirmation { passkey } => {
            let d = six_digits(passkey as nat);
            assert(d =~= r.subrange(r.len() - d.len(), r.len() as int));
        },
        BluetoothPairingPrompt::DisplayPasskey { passkey } => {
            let d = six_digits(passkey as nat);
            assert(d =~= r.subrange(r.len() - d.len(), r.len() as int));
        },
        BluetoothPairingPrompt::DisplayPinCode { pin_code } => {
            let d = pin_code@;
            assert(d =~= r.subrange(r.len() - d.len(), r.len() as int));
        },
        _ => {},
    }
}

/// Typing into a field changes what stands in no other field.
pub proof fn law_typing_changes_one_field(
    before: DeviceControlCenter,
    after: DeviceControlCenter,
    field: InputField,
    other: InputField,
)
    requires
        same_but_text(before, after, field),
        other != field,
    ensures
        editable(after, other) == editable(before, other),
        after.snapshot == before.snapshot && after.page == before.page && after.active_input
            == before.active_input,
{
}

/// A dialog that asks for a password begins without one and tells what went wrong; while
/// a connection is asked for nothing is wrong, and what was typed stays.
pub proof fn law_password_dialog(m: Option<Modal>, network: WifiNetworkView, message: Option<Seq<char>>)
    ensures
        asks_password(m, network, message) ==> {
            &&& m matches Some(Modal::Password { network: n, password, message: text, connecting })
            &&& n@ == network && password@.len() == 0 && !connecting
            &&& opt_view(text) == message
        },
        m matches Some(Modal::Password { network: n, password, message: text, connecting }) ==> (
        connecting_modal(m) matches Some(
            Modal::Password { network: n2, password: p2, message: t2, connecting: c2 },
        ) && n2 == n && p2 == password && t2 is None && c2),
        !(m is Some && m->0 is Password) ==> connecting_modal(m) == m,
{
}

} // verus!
