//! The popover with the networks in reach: which are shown, how large it is, and
//! what choosing one does.

use vstd::prelude::*;
use vstd::string::*;

use crate::bar::{clamped, columns, law_widest, text_columns, widest, PixelSize};
use crate::bytes::{copy_bytes, is_bytes, opt_bytes, same_bytes};
use crate::modules::system_controls::{
    network_views, ControlSnapshot, WifiConnectionEvent, WifiNetwork, WifiNetworkView,
    WifiSecurity,
};
use crate::seqs::{lemma_filter_keeps, lemma_filter_members, lemma_filter_step};
use crate::text::owned;

verus! {

/// How many networks of a kind are shown.
pub const NETWORKS_PER_GROUP: usize = 5;

/// What went wrong with a network, as contracts speak of it.
pub open spec fn error_views(s: Seq<(Vec<u8>, String)>) -> Seq<(Seq<u8>, Seq<char>)> {
    s.map_values(|e: (Vec<u8>, String)| (e.0@, e.1@))
}

/// The predicate that holds of networks that were used before, or of others.
pub open spec fn saved_is(saved: bool) -> spec_fn(WifiNetworkView) -> bool {
    |n: WifiNetworkView| n.saved == saved
}

/// The first five, or all where there are fewer.
pub open spec fn first_five<A>(s: Seq<A>) -> Seq<A> {
    if s.len() > 5 {
        s.take(5)
    } else {
        s
    }
}

/// The networks of a kind that are shown.
pub open spec fn shown_group(s: ControlSnapshot, saved: bool) -> Seq<WifiNetworkView> {
    if s.wifi.available && s.wifi.enabled {
        first_five(network_views(s.wifi_networks@).filter(saved_is(saved)))
    } else {
        Seq::empty()
    }
}

/// The first five networks that were used before, or of the others.
fn group_of(networks: &Vec<WifiNetwork>, saved: bool) -> (r: Vec<WifiNetwork>)
    ensures
        network_views(r@) == first_five(network_views(networks@).filter(saved_is(saved))),
{
    let ghost s = network_views(networks@);
    let ghost p = saved_is(saved);
    let mut out: Vec<WifiNetwork> = Vec::new();
    let mut i: usize = 0;
    proof {
        assert(s.take(0).filter(p) =~= Seq::empty()) by {
            reveal(Seq::filter);
        }
        assert(network_views(out@) =~= Seq::empty());
    }
    while i < networks.len()
        invariant
            i <= networks.len(),
            s == network_views(networks@),
            p == saved_is(saved),
            network_views(out@) == first_five(s.take(i as int).filter(p)),
        decreases networks.len() - i,
    {
        let ghost f = s.take(i as int).filter(p);
        proof {
            lemma_filter_step(s, p, i as int);
            assert(s[i as int] == networks@[i as int]@);
            assert(network_views(out@).len() == out@.len());
        }
        if networks[i].saved == saved {
            if out.len() < NETWORKS_PER_GROUP {
                let ghost before = out@;
                let next = networks[i].clone();
                out.push(next);
                proof {
                    assert(network_views(out@) =~= network_views(before).push(next@));
                    assert(first_five(f.push(next@)) =~= f.push(next@));
                    assert(first_five(f) =~= f);
                }
            } else {
                proof {
                    assert(first_five(f.push(s[i as int])) =~= first_five(f));
                }
            }
        }
        i += 1;
    }
    proof {
        assert(s.take(i as int) =~= s);
    }
    out
}

/// The networks that are shown: at most five that were used before, and at most
/// five others.
pub fn visible_network_groups(controls: &ControlSnapshot) -> (r: (
    Vec<WifiNetwork>,
    Vec<WifiNetwork>,
))
    ensures
        network_views(r.0@) == shown_group(*controls, true),
        network_views(r.1@) == shown_group(*controls, false),
{
    if !controls.wifi.available || !controls.wifi.enabled {
        let none: (Vec<WifiNetwork>, Vec<WifiNetwork>) = (Vec::new(), Vec::new());
        proof {
            assert(network_views(none.0@) =~= Seq::empty());
            assert(network_views(none.1@) =~= Seq::empty());
        }
        return none;
    }
    (group_of(&controls.wifi_networks, true), group_of(&controls.wifi_networks, false))
}

/// Whether a network of that name is among some.
pub open spec fn has_ssid(s: Seq<WifiNetworkView>, ssid: Seq<u8>) -> bool {
    exists|i: int| 0 <= i < s.len() && (#[trigger] s[i]).ssid == ssid
}

/// The predicate that holds of errors of networks that are shown.
pub open spec fn of_shown(s: ControlSnapshot) -> spec_fn((Seq<u8>, Seq<char>)) -> bool {
    |e: (Seq<u8>, Seq<char>)|
        has_ssid(shown_group(s, true), e.0) || has_ssid(shown_group(s, false), e.0)
}

/// The errors that are shown.
pub open spec fn shown_errors(
    s: ControlSnapshot,
    errors: Seq<(Seq<u8>, Seq<char>)>,
) -> Seq<(Seq<u8>, Seq<char>)> {
    errors.filter(of_shown(s))
}

/// The greater of two numbers.
pub open spec fn greater(a: nat, b: nat) -> nat {
    if a > b {
        a
    } else {
        b
    }
}

/// The width of the widest label of some networks, in columns.
pub open spec fn widest_label(s: Seq<WifiNetworkView>) -> nat {
    widest(s.map_values(|n: WifiNetworkView| n.label))
}

/// The width of the widest message of some errors, in columns.
pub open spec fn widest_message(s: Seq<(Seq<u8>, Seq<char>)>) -> nat {
    widest(s.map_values(|e: (Seq<u8>, Seq<char>)| e.1))
}

/// The labels that may always be shown.
pub open spec fn fixed_labels() -> Seq<Seq<char>> {
    seq![
        "有線接続"@,
        "ネットワークを検索中…"@,
        "Wi-Fiは利用できません"@,
        "Wi-Fiはオフです"@,
        "接続したことのあるネットワーク"@,
        "ほかのネットワーク"@,
        "なし"@,
        "その他"@,
    ]
}

/// The width of the widest text that is shown, in columns.
pub open spec fn popover_columns(
    s: ControlSnapshot,
    errors: Seq<(Seq<u8>, Seq<char>)>,
) -> nat {
    greater(
        greater(
            greater(widest_label(shown_group(s, true)), widest_label(shown_group(s, false))),
            widest_message(shown_errors(s, errors)),
        ),
        widest(fixed_labels()),
    )
}

/// How many rows a group takes: one that says so where it is empty.
pub open spec fn group_rows(n: nat) -> nat {
    if n == 0 {
        1
    } else {
        n
    }
}

/// How high the list of networks is, and how many things stand in it, without
/// the errors.
pub open spec fn list_extent(s: ControlSnapshot) -> (nat, nat) {
    if !(s.wifi.available && s.wifi.enabled) {
        (32, 1)
    } else {
        let saved = shown_group(s, true).len();
        let other = shown_group(s, false).len();
        let first = (22 + group_rows(saved) * 32, 1 + group_rows(saved));
        if other > 0 || saved == 0 {
            (
                (first.0 + 9 + 22 + group_rows(other) * 32) as nat,
                (first.1 + 2 + group_rows(other)) as nat,
            )
        } else {
            (first.0 as nat, first.1 as nat)
        }
    }
}

/// How high the popover is: its padding, the rows that are always there, the
/// wired connection where there is one, the networks, the errors, and two pixels
/// between any two things.
pub open spec fn popover_height(s: ControlSnapshot, errors: Seq<(Seq<u8>, Seq<char>)>) -> nat {
    let wired: (nat, nat) = if s.wired_active {
        (41, 2)
    } else {
        (0, 0)
    };
    let list = list_extent(s);
    let failures = shown_errors(s, errors).len();
    let things = 3 + wired.1 + list.1 + failures;
    (93 + wired.0 + list.0 + failures * 34 + (things - 1) * 2) as nat
}

/// The width of the widest of some networks' labels.
fn widest_of(networks: &Vec<WifiNetwork>) -> (r: u128)
    ensures
        r == widest_label(network_views(networks@)),
{
    let ghost labels = network_views(networks@).map_values(|n: WifiNetworkView| n.label);
    let mut max: u128 = 0;
    let mut i: usize = 0;
    proof {
        assert(labels.take(0) =~= Seq::empty());
    }
    while i < networks.len()
        invariant
            i <= networks.len(),
            labels == network_views(networks@).map_values(|n: WifiNetworkView| n.label),
            max == widest(labels.take(i as int)),
        decreases networks.len() - i,
    {
        proof {
            assert(labels[i as int] == networks@[i as int].label@);
            assert(labels.take(i + 1).drop_last() =~= labels.take(i as int));
        }
        let width = text_columns(networks[i].label.as_str());
        if width > max {
            max = width;
        }
        i += 1;
    }
    proof {
        assert(labels.take(i as int) =~= labels);
    }
    max
}

/// Whether a network of that name is among some.
fn contains_ssid(networks: &Vec<WifiNetwork>, ssid: &Vec<u8>) -> (r: bool)
    ensures
        r == has_ssid(network_views(networks@), ssid@),
{
    let ghost s = network_views(networks@);
    let mut i: usize = 0;
    while i < networks.len()
        invariant
            i <= networks.len(),
            s == network_views(networks@),
            forall|j: int| 0 <= j < i ==> (#[trigger] s[j]).ssid != ssid@,
        decreases networks.len() - i,
    {
        proof {
            assert(s[i as int].ssid == networks@[i as int].ssid@);
        }
        if same_bytes(&networks[i].ssid, ssid) {
            return true;
        }
        i += 1;
    }
    false
}

/// The width of the widest fixed label.
fn widest_fixed() -> (r: u128)
    ensures
        r == widest(fixed_labels()),
{
    let mut max: u128 = 0;
    let labels: Vec<&str> = vec![
        "有線接続",
        "ネットワークを検索中…",
        "Wi-Fiは利用できません",
        "Wi-Fiはオフです",
        "接続したことのあるネットワーク",
        "ほかのネットワーク",
        "なし",
        "その他",
    ];
    let ghost all = fixed_labels();
    let mut i: usize = 0;
    proof {
        assert(all.take(0) =~= Seq::empty());
        assert(labels@.map_values(|l: &str| l@) =~= all);
    }
    while i < labels.len()
        invariant
            i <= labels.len(),
            labels@.map_values(|l: &str| l@) == all,
            max == widest(all.take(i as int)),
        decreases labels.len() - i,
    {
        proof {
            assert(all[i as int] == labels@[i as int]@);
            assert(all.take(i + 1).drop_last() =~= all.take(i as int));
        }
        let width = text_columns(labels[i]);
        if width > max {
            max = width;
        }
        i += 1;
    }
    proof {
        assert(all.take(i as int) =~= all);
        assert(all.len() == labels.len());
    }
    max
}

/// How many errors belong to shown networks, and the width of the widest of their
/// messages.
fn shown_failures(
    controls: &ControlSnapshot,
    saved: &Vec<WifiNetwork>,
    other: &Vec<WifiNetwork>,
    errors: &[(Vec<u8>, String)],
) -> (r: (u128, u128))
    requires
        network_views(saved@) == shown_group(*controls, true),
        network_views(other@) == shown_group(*controls, false),
    ensures
        r.0 == shown_errors(*controls, error_views(errors@)).len(),
        r.0 <= usize::MAX,
        r.1 == widest_message(shown_errors(*controls, error_views(errors@))),
{
    let ghost all = error_views(errors@);
    let ghost p = of_shown(*controls);
    let mut failures: u128 = 0;
    let mut max_message: u128 = 0;
    let mut i: usize = 0;
    proof {
        assert(all.take(0).filter(p) =~= Seq::empty()) by {
            reveal(Seq::filter);
        }
        assert(Seq::<(Seq<u8>, Seq<char>)>::empty().map_values(
            |e: (Seq<u8>, Seq<char>)| e.1,
        ) =~= Seq::empty());
    }
    while i < errors.len()
        invariant
            i <= errors.len(),
            all == error_views(errors@),
            p == of_shown(*controls),
            network_views(saved@) == shown_group(*controls, true),
            network_views(other@) == shown_group(*controls, false),
            failures == all.take(i as int).filter(p).len(),
            failures <= i,
            max_message == widest_message(all.take(i as int).filter(p)),
        decreases errors.len() - i,
    {
        let ghost f = all.take(i as int).filter(p);
        proof {
            lemma_filter_step(all, p, i as int);
            assert(all[i as int] == (errors@[i as int].0@, errors@[i as int].1@));
            let m = |e: (Seq<u8>, Seq<char>)| e.1;
            assert(f.push(all[i as int]).map_values(m).drop_last() =~= f.map_values(m));
        }
        if contains_ssid(saved, &errors[i].0) || contains_ssid(other, &errors[i].0) {
            failures += 1;
            let width = text_columns(errors[i].1.as_str());
            if width > max_message {
                max_message = width;
            }
        }
        i += 1;
    }
    proof {
        assert(all.take(i as int) =~= all);
    }
    (failures, max_message)
}

/// How high the list of networks is, and how many things stand in it.
fn list_size(shown: bool, saved: usize, other: usize) -> (r: (u128, u128))
    ensures
        !shown ==> r == (32u128, 1u128),
        shown ==> ({
            let first = (22 + group_rows(saved as nat) * 32, 1 + group_rows(saved as nat));
            if other > 0 || saved == 0 {
                r.0 == first.0 + 31 + group_rows(other as nat) * 32 && r.1 == first.1 + 2
                    + group_rows(other as nat)
            } else {
                r.0 == first.0 && r.1 == first.1
            }
        }),
        r.0 <= 1_000 + 64 * usize::MAX,
        r.1 <= 10 + 2 * usize::MAX,
{
    if !shown {
        return (32, 1);
    }
    let saved_rows: u128 = if saved == 0 {
        1
    } else {
        saved as u128
    };
    if other > 0 || saved == 0 {
        let other_rows: u128 = if other == 0 {
            1
        } else {
            other as u128
        };
        (53 + saved_rows * 32 + other_rows * 32, 3 + saved_rows + other_rows)
    } else {
        (22 + saved_rows * 32, 1 + saved_rows)
    }
}

/// The size of the popover.
pub fn window_size(controls: &ControlSnapshot, errors: &[(Vec<u8>, String)]) -> (r: PixelSize)
    ensures
        r.width == clamped(
            (popover_columns(*controls, error_views(errors@)) * 7 + 64) as int,
            180,
            360,
        ),
        r.height == popover_height(*controls, error_views(errors@)),
{
    let (saved, other) = visible_network_groups(controls);
    proof {
        assert(network_views(saved@).len() == saved@.len());
        assert(network_views(other@).len() == other@.len());
    }
    let (failures, max_message) = shown_failures(controls, &saved, &other, errors);
    let mut max: u128 = widest_of(&saved);
    let other_width = widest_of(&other);
    if other_width > max {
        max = other_width;
    }
    if max_message > max {
        max = max_message;
    }
    let fixed = widest_fixed();
    if fixed > max {
        max = fixed;
    }
    let width: u128 = if max > 42 {
        360
    } else if max * 7 + 64 < 180 {
        180
    } else {
        max * 7 + 64
    };
    let list = list_size(
        controls.wifi.available && controls.wifi.enabled,
        saved.len(),
        other.len(),
    );
    let wired: (u128, u128) = if controls.wired_active {
        (41, 2)
    } else {
        (0, 0)
    };
    let things: u128 = 3 + wired.1 + list.1 + failures;
    let height: u128 = 93 + wired.0 + list.0 + failures * 34 + (things - 1) * 2;
    PixelSize { width, height }
}

/// The popover with the networks.
pub struct NetworkPopover {
    pub controls: ControlSnapshot,
    pub errors: Vec<(Vec<u8>, String)>,
    pub connecting: Option<Vec<u8>>,
}

/// What choosing a network does.
pub enum PopoverStep {
    /// Nothing: it is connected, or being connected to.
    Nothing,
    /// Its password is asked for elsewhere, and the popover closes.
    OpenControlCenter(Vec<u8>),
    /// It is connected to.
    Connect(Vec<u8>),
}

/// The predicate that holds of errors of other networks.
pub open spec fn of_others(ssid: Seq<u8>) -> spec_fn((Seq<u8>, Seq<char>)) -> bool {
    |e: (Seq<u8>, Seq<char>)| e.0 != ssid
}

/// Errors without those of a network.
pub open spec fn without(
    errors: Seq<(Seq<u8>, Seq<char>)>,
    ssid: Seq<u8>,
) -> Seq<(Seq<u8>, Seq<char>)> {
    errors.filter(of_others(ssid))
}

/// Whether choosing a network leads to where its password is asked for.
pub open spec fn needs_password(n: WifiNetworkView) -> bool {
    !n.saved && n.security != WifiSecurity::Open
}

impl NetworkPopover {
    /// A popover that shows what is known.
    pub fn new(controls: ControlSnapshot) -> (r: Self)
        ensures
            r.controls == controls,
            r.errors@ == Seq::<(Vec<u8>, String)>::empty(),
            r.connecting is None,
    {
        NetworkPopover { controls, errors: Vec::new(), connecting: None }
    }

    /// Shows what is known now.
    pub fn set_controls(&mut self, controls: ControlSnapshot)
        ensures
            *final(self) == (NetworkPopover { controls, ..*old(self) }),
    {
        self.controls = controls;
    }

    /// Removes the errors of a network.
    pub fn clear_error(&mut self, ssid: &Vec<u8>)
        ensures
            final(self).controls == old(self).controls,
            final(self).connecting == old(self).connecting,
            error_views(final(self).errors@) == without(error_views(old(self).errors@), ssid@),
    {
        let ghost all = error_views(self.errors@);
        let ghost p = of_others(ssid@);
        let mut kept: Vec<(Vec<u8>, String)> = Vec::new();
        let mut i: usize = 0;
        proof {
            assert(all.take(0).filter(p) =~= Seq::empty()) by {
                reveal(Seq::filter);
            }
            assert(error_views(kept@) =~= Seq::empty());
        }
        while i < self.errors.len()
            invariant
                i <= self.errors.len(),
                self.controls == old(self).controls,
                self.connecting == old(self).connecting,
                self.errors == old(self).errors,
                all == error_views(self.errors@),
                p == of_others(ssid@),
                error_views(kept@) == all.take(i as int).filter(p),
            decreases self.errors.len() - i,
        {
            proof {
                lemma_filter_step(all, p, i as int);
                assert(all[i as int] == (self.errors@[i as int].0@, self.errors@[i as int].1@));
            }
            if !same_bytes(&self.errors[i].0, ssid) {
                let ghost before = kept@;
                let next = (copy_bytes(&self.errors[i].0), self.errors[i].1.clone());
                kept.push(next);
                proof {
                    assert(error_views(kept@) =~= error_views(before).push((next.0@, next.1@)));
                }
            }
            i += 1;
        }
        proof {
            assert(all.take(i as int) =~= all);
        }
        self.errors = kept;
    }

    /// Takes note of how connecting to a network goes. A network's errors go with
    /// every news of it; a failure is its new error, and ends the connecting.
    pub fn apply_wifi_event(&mut self, event: WifiConnectionEvent)
        ensures
            final(self).controls == old(self).controls,
            match event {
                WifiConnectionEvent::Connecting { ssid } => {
                    &&& error_views(final(self).errors@) == without(
                        error_views(old(self).errors@),
                        ssid@,
                    )
                    &&& opt_bytes(final(self).connecting) == Some(ssid@)
                },
                WifiConnectionEvent::Succeeded { ssid } => {
                    &&& error_views(final(self).errors@) == without(
                        error_views(old(self).errors@),
                        ssid@,
                    )
                    &&& opt_bytes(final(self).connecting) == (if opt_bytes(old(self).connecting)
                        == Some(ssid@) {
                        None
                    } else {
                        opt_bytes(old(self).connecting)
                    })
                },
                WifiConnectionEvent::Failed { ssid, message } => {
                    &&& error_views(final(self).errors@) == without(
                        error_views(old(self).errors@),
                        ssid@,
                    ).push((ssid@, message@))
                    &&& opt_bytes(final(self).connecting) == (if opt_bytes(old(self).connecting)
                        == Some(ssid@) {
                        None
                    } else {
                        opt_bytes(old(self).connecting)
                    })
                },
            },
    {
        match event {
            WifiConnectionEvent::Connecting { ssid } => {
                self.clear_error(&ssid);
                self.connecting = Some(ssid);
            },
            WifiConnectionEvent::Succeeded { ssid } => {
                self.clear_error(&ssid);
                if is_bytes(&self.connecting, &ssid) {
                    self.connecting = None;
                }
            },
            WifiConnectionEvent::Failed { ssid, message } => {
                self.clear_error(&ssid);
                let ghost before = self.errors@;
                if is_bytes(&self.connecting, &ssid) {
                    self.connecting = None;
                }
                self.errors.push((ssid, message));
                proof {
                    assert(error_views(self.errors@) =~= error_views(before).push(
                        (ssid@, message@),
                    ));
                }
            },
        }
    }

    /// What choosing a network does.
    pub fn select_network(&mut self, network: &WifiNetwork) -> (r: PopoverStep)
        ensures
            final(self).controls == old(self).controls,
            ({
                let busy = network.connected || opt_bytes(old(self).connecting) == Some(
                    network.ssid@,
                );
                &&& busy ==> r is Nothing && *final(self) == *old(self)
                &&& !busy && needs_password(network@) ==> {
                    &&& r is OpenControlCenter
                    &&& r->OpenControlCenter_0@ == network.ssid@
                    &&& *final(self) == *old(self)
                }
                &&& !busy && !needs_password(network@) ==> {
                    &&& r is Connect
                    &&& r->Connect_0@ == network.ssid@
                    &&& opt_bytes(final(self).connecting) == Some(network.ssid@)
                    &&& error_views(final(self).errors@) == without(
                        error_views(old(self).errors@),
                        network.ssid@,
                    )
                }
            }),
    {
        if network.connected || is_bytes(&self.connecting, &network.ssid) {
            return PopoverStep::Nothing;
        }
        if !network.saved && network.security != WifiSecurity::Open {
            return PopoverStep::OpenControlCenter(copy_bytes(&network.ssid));
        }
        self.clear_error(&network.ssid);
        self.connecting = Some(copy_bytes(&network.ssid));
        PopoverStep::Connect(copy_bytes(&network.ssid))
    }

    /// Takes note that the request to connect could not be sent.
    pub fn connection_request_failed(&mut self, ssid: Vec<u8>)
        ensures
            final(self).controls == old(self).controls,
            final(self).connecting is None,
            error_views(final(self).errors@) == error_views(old(self).errors@).push(
                (ssid@, "接続要求を送信できませんでした"@),
            ),
    {
        let ghost before = self.errors@;
        self.connecting = None;
        let message = owned("接続要求を送信できませんでした");
        self.errors.push((ssid, message));
        proof {
            assert(error_views(self.errors@) =~= error_views(before).push((ssid@, message@)));
        }
    }

    /// Whether the wireless part can be switched.
    pub fn can_toggle_wifi(&self) -> (r: bool)
        ensures
            r == self.controls.wifi.available,
    {
        self.controls.wifi.available
    }
}

proof fn lemma_no_errors_of(errors: Seq<(Seq<u8>, Seq<char>)>, ssid: Seq<u8>)
    ensures
        forall|i: int|
            0 <= i < without(errors, ssid).len() ==> (#[trigger] without(errors, ssid)[i]).0 != ssid,
{
    crate::seqs::lemma_filter_members(errors, of_others(ssid));
    assert forall|i: int| 0 <= i < without(errors, ssid).len() implies (#[trigger] without(
        errors,
        ssid,
    )[i]).0 != ssid by {
        assert(of_others(ssid)(without(errors, ssid)[i]));
    }
}

/// After a failure a network has exactly one error, the newest.
pub proof fn law_one_error_per_network(
    errors: Seq<(Seq<u8>, Seq<char>)>,
    ssid: Seq<u8>,
    message: Seq<char>,
)
    ensures
        ({
            let after = without(errors, ssid).push((ssid, message));
            &&& after.last() == (ssid, message)
            &&& forall|i: int| 0 <= i < after.len() - 1 ==> (#[trigger] after[i]).0 != ssid
        }),
{
    lemma_no_errors_of(errors, ssid);
    let kept = without(errors, ssid);
    let after = kept.push((ssid, message));
    assert forall|i: int| 0 <= i < after.len() - 1 implies (#[trigger] after[i]).0 != ssid by {
        assert(after[i] == kept[i]);
    }
}

/// An error of a network that is shown makes the popover higher.
pub proof fn law_errors_grow_popover(
    s: ControlSnapshot,
    errors: Seq<(Seq<u8>, Seq<char>)>,
    error: (Seq<u8>, Seq<char>),
)
    requires
        of_shown(s)(error),
    ensures
        popover_height(s, errors.push(error)) == popover_height(s, errors) + 36,
        popover_columns(s, errors.push(error)) >= popover_columns(s, errors),
{
    let p = of_shown(s);
    let more = errors.push(error);
    assert(more.drop_last() =~= errors);
    assert(more.filter(p) =~= errors.filter(p).push(error)) by {
        reveal(Seq::filter);
    }
    let m = |e: (Seq<u8>, Seq<char>)| e.1;
    assert(more.filter(p).map_values(m).drop_last() =~= errors.filter(p).map_values(m));
}

/// The groups show networks of their kind and no others, in their order and five at most;
/// with fewer than five none is left out. Where the wireless part is off none is shown.
pub proof fn law_shown_networks(s: ControlSnapshot, saved: bool, i: int)
    requires
        0 <= i < s.wifi_networks@.len(),
    ensures
        shown_group(s, saved).len() <= 5,
        s.wifi.available && s.wifi.enabled && s.wifi_networks@[i]@.saved == saved && shown_group(
            s,
            saved,
        ).len() < 5 ==> shown_group(s, saved).contains(s.wifi_networks@[i]@),
        forall|k: int|
            0 <= k < shown_group(s, saved).len() ==> (#[trigger] shown_group(s, saved)[k]).saved
                == saved && network_views(s.wifi_networks@).contains(shown_group(s, saved)[k]),
        !s.wifi.available || !s.wifi.enabled ==> shown_group(s, saved).len() == 0,
{
    let all = network_views(s.wifi_networks@);
    let p = saved_is(saved);
    lemma_filter_members(all, p);
    if s.wifi.available && s.wifi.enabled {
        let f = all.filter(p);
        assert forall|k: int| 0 <= k < shown_group(s, saved).len() implies (
        #[trigger] shown_group(s, saved)[k]).saved == saved && all.contains(
            shown_group(s, saved)[k],
        ) by {
            assert(shown_group(s, saved)[k] == f[k]);
            assert(p(f[k]));
        }
        if s.wifi_networks@[i]@.saved == saved {
            assert(p(all[i]));
            lemma_filter_keeps(all, p, i);
        }
    }
}

/// The networks that are shown are the first of their kind: those that are left out come
/// after them.
pub proof fn law_first_networks_are_shown(s: ControlSnapshot, saved: bool)
    requires
        s.wifi.available,
        s.wifi.enabled,
    ensures
        shown_group(s, saved).is_prefix_of(
            network_views(s.wifi_networks@).filter(|n: WifiNetworkView| n.saved == saved),
        ),
{
    let f = network_views(s.wifi_networks@).filter(saved_is(saved));
    assert(saved_is(saved) =~= (|n: WifiNetworkView| n.saved == saved));
    assert(shown_group(s, saved) =~= f.subrange(0, shown_group(s, saved).len() as int));
}

/// Removing the errors of a network leaves those of all others.
pub proof fn law_other_errors_stay(errors: Seq<(Seq<u8>, Seq<char>)>, ssid: Seq<u8>, i: int)
    requires
        0 <= i < errors.len(),
    ensures
        without(errors, ssid).contains(errors[i]) == (errors[i].0 != ssid),
{
    lemma_no_errors_of(errors, ssid);
    if errors[i].0 != ssid {
        lemma_filter_keeps(errors, of_others(ssid), i);
    }
}

/// A password is asked for exactly where a network is new and secured.
pub proof fn law_when_a_password_is_asked_for(n: WifiNetworkView)
    ensures
        n.saved || n.security is Open ==> !needs_password(n),
        !n.saved && !(n.security is Open) ==> needs_password(n),
{
}

/// The height without errors follows from what is shown: a wired connection takes 45
/// pixels more, each further network 34, and the second group with its heading 35 and
/// its rows.
pub proof fn law_height_of_popover(s: ControlSnapshot)
    ensures
        ({
            let saved = shown_group(s, true).len() as int;
            let other = shown_group(s, false).len() as int;
            let wired: int = if s.wired_active {
                45
            } else {
                0
            };
            let none = Seq::<(Seq<u8>, Seq<char>)>::empty();
            &&& !(s.wifi.available && s.wifi.enabled) ==> popover_height(s, none) == 131 + wired
            &&& s.wifi.available && s.wifi.enabled && saved > 0 && other == 0 ==> popover_height(
                s,
                none,
            ) == 121 + wired + 34 * saved
            &&& s.wifi.available && s.wifi.enabled && saved > 0 && other > 0 ==> popover_height(
                s,
                none,
            ) == 156 + wired + 34 * saved + 34 * other
            &&& s.wifi.available && s.wifi.enabled && saved == 0 && other > 0 ==> popover_height(
                s,
                none,
            ) == 190 + wired + 34 * other
        }),
{
    reveal(Seq::filter);
}

/// The popover is wide enough for every text that it shows, as far as its width goes.
pub proof fn law_texts_fit(s: ControlSnapshot, errors: Seq<(Seq<u8>, Seq<char>)>, saved: bool, i: int)
    ensures
        0 <= i < shown_group(s, saved).len() ==> columns(shown_group(s, saved)[i].label)
            <= popover_columns(s, errors),
        0 <= i < shown_errors(s, errors).len() ==> columns(shown_errors(s, errors)[i].1)
            <= popover_columns(s, errors),
        0 <= i < fixed_labels().len() ==> columns(fixed_labels()[i]) <= popover_columns(s, errors),
{
    let g = shown_group(s, saved);
    if 0 <= i < g.len() {
        let labels = g.map_values(|n: WifiNetworkView| n.label);
        let k = law_widest(labels, i);
        assert(labels[i] == g[i].label);
    }
    let e = shown_errors(s, errors);
    if 0 <= i < e.len() {
        let messages = e.map_values(|x: (Seq<u8>, Seq<char>)| x.1);
        let k = law_widest(messages, i);
        assert(messages[i] == e[i].1);
        assert(messages =~= e.map_values(|e: (Seq<u8>, Seq<char>)| e.1));
    }
    if 0 <= i < fixed_labels().len() {
        let k = law_widest(fixed_labels(), i);
    }
}

} // verus!
