//! What the popover of networks and that of the earbuds show.

use vstd::prelude::*;
use vstd::string::*;

use crate::airpods_popover::{charge_label, charges_label};
use crate::bytes::{copy_bytes, is_bytes, opt_bytes, same_bytes};
use crate::modules::airpods::AirPodsStatus;
use crate::modules::system_controls::{
    network_views, ControlSnapshot, WifiNetwork, WifiNetworkView,
};
use crate::network_popover::{
    error_views, has_ssid, list_extent, of_shown, popover_height, shown_errors,
    shown_group, visible_network_groups, NetworkPopover,
};
use crate::seqs::{find_first, lemma_first_index, lemma_first_index_bounds};
use crate::text::opt_view;
use crate::views::center_view::{airpods_note, earbuds_note, mode_buttons, mode_choices, ModeButton};

verus! {

/// A row of the popover of networks.
pub enum PopoverRow {
    /// The wired connection.
    Wired,
    Separator,
    /// The switch of the wireless network.
    WifiSwitch(bool),
    Note(&'static str),
    Title(&'static str),
    Network { ssid: Vec<u8>, label: String, connecting: bool, connected: bool },
    /// Why a network was not connected to.
    Error { ssid: Vec<u8>, message: String },
    /// What leads to the control center.
    More,
}

/// The contents of a row.
pub enum PopoverRowView {
    Wired,
    Separator,
    WifiSwitch(bool),
    Note(Seq<char>),
    Title(Seq<char>),
    Network { ssid: Seq<u8>, label: Seq<char>, connecting: bool, connected: bool },
    Error { ssid: Seq<u8>, message: Seq<char> },
    More,
}

impl View for PopoverRow {
    type V = PopoverRowView;

    open spec fn view(&self) -> PopoverRowView {
        match self {
            PopoverRow::Wired => PopoverRowView::Wired,
            PopoverRow::Separator => PopoverRowView::Separator,
            PopoverRow::WifiSwitch(on) => PopoverRowView::WifiSwitch(*on),
            PopoverRow::Note(text) => PopoverRowView::Note(text@),
            PopoverRow::Title(text) => PopoverRowView::Title(text@),
            PopoverRow::Network { ssid, label, connecting, connected } => PopoverRowView::Network {
                ssid: ssid@,
                label: label@,
                connecting: *connecting,
                connected: *connected,
            },
            PopoverRow::Error { ssid, message } => PopoverRowView::Error {
                ssid: ssid@,
                message: message@,
            },
            PopoverRow::More => PopoverRowView::More,
        }
    }
}

/// The contents of some rows.
pub open spec fn row_views(s: Seq<PopoverRow>) -> Seq<PopoverRowView> {
    s.map_values(|r: PopoverRow| r@)
}

/// The predicate that holds of errors of a network.
pub open spec fn of_network(ssid: Seq<u8>) -> spec_fn((Seq<u8>, Seq<char>)) -> bool {
    |e: (Seq<u8>, Seq<char>)| e.0 == ssid
}

/// The rows of one network: itself, and its error where there is one.
pub open spec fn network_shows(
    n: WifiNetworkView,
    connecting: Option<Seq<u8>>,
    errors: Seq<(Seq<u8>, Seq<char>)>,
) -> Seq<PopoverRowView> {
    let row = PopoverRowView::Network {
        ssid: n.ssid,
        label: n.label,
        connecting: connecting == Some(n.ssid),
        connected: n.connected,
    };
    match find_first(errors, of_network(n.ssid)) {
        Some(error) => seq![row, PopoverRowView::Error { ssid: n.ssid, message: error.1 }],
        None => seq![row],
    }
}

/// The rows of some networks.
pub open spec fn group_shows(
    networks: Seq<WifiNetworkView>,
    connecting: Option<Seq<u8>>,
    errors: Seq<(Seq<u8>, Seq<char>)>,
) -> Seq<PopoverRowView>
    decreases networks.len(),
{
    if networks.len() == 0 {
        Seq::empty()
    } else {
        group_shows(networks.drop_last(), connecting, errors) + network_shows(
            networks.last(),
            connecting,
            errors,
        )
    }
}

/// The rows of the wireless networks: those that were connected to once, and the
/// others unless there are only the former.
pub open spec fn wifi_shows(
    s: ControlSnapshot,
    connecting: Option<Seq<u8>>,
    errors: Seq<(Seq<u8>, Seq<char>)>,
) -> Seq<PopoverRowView> {
    let saved = shown_group(s, true);
    let other = shown_group(s, false);
    if !s.wifi.available {
        seq![PopoverRowView::Note("Wi-Fiは利用できません"@)]
    } else if !s.wifi.enabled {
        seq![PopoverRowView::Note("Wi-Fiはオフです"@)]
    } else {
        seq![PopoverRowView::Title("接続したことのあるネットワーク"@)] + group_shows(
            saved,
            connecting,
            errors,
        ) + (if saved.len() == 0 {
            seq![PopoverRowView::Note("なし"@)]
        } else {
            Seq::empty()
        }) + (if other.len() > 0 || saved.len() == 0 {
            seq![PopoverRowView::Separator, PopoverRowView::Title("ほかのネットワーク"@)]
                + group_shows(other, connecting, errors) + (if other.len() == 0 {
                seq![PopoverRowView::Note("ネットワークを検索中…"@)]
            } else {
                Seq::empty()
            })
        } else {
            Seq::empty()
        })
    }
}

/// What the popover shows.
pub open spec fn popover_shows(
    s: ControlSnapshot,
    connecting: Option<Seq<u8>>,
    errors: Seq<(Seq<u8>, Seq<char>)>,
) -> Seq<PopoverRowView> {
    (if s.wired_active {
        seq![PopoverRowView::Wired, PopoverRowView::Separator]
    } else {
        Seq::empty()
    }) + seq![PopoverRowView::WifiSwitch(s.wifi.enabled), PopoverRowView::Separator] + wifi_shows(
        s,
        connecting,
        errors,
    ) + seq![PopoverRowView::More]
}

/// The index of the first error of a network, or the number of all.
fn error_index(errors: &Vec<(Vec<u8>, String)>, ssid: &Vec<u8>) -> (r: usize)
    ensures
        r <= errors@.len(),
        find_first(error_views(errors@), of_network(ssid@)) == if r < errors@.len() {
            Some((errors@[r as int].0@, errors@[r as int].1@))
        } else {
            None
        },
{
    let ghost all = error_views(errors@);
    let ghost p = of_network(ssid@);
    let mut i: usize = 0;
    while i < errors.len() && !same_bytes(&errors[i].0, ssid)
        invariant
            i <= errors.len(),
            all == error_views(errors@),
            p == of_network(ssid@),
            forall|j: int| 0 <= j < i ==> !p(#[trigger] all[j]),
        decreases errors.len() - i,
    {
        proof {
            assert(all[i as int] == (errors@[i as int].0@, errors@[i as int].1@));
        }
        i += 1;
    }
    proof {
        assert(i < errors@.len() ==> p(all[i as int]));
        lemma_first_index(all, p, i as nat);
    }
    i
}

/// Adds the rows of some networks.
fn push_group(
    rows: &mut Vec<PopoverRow>,
    networks: &Vec<WifiNetwork>,
    connecting: &Option<Vec<u8>>,
    errors: &Vec<(Vec<u8>, String)>,
)
    ensures
        row_views(final(rows)@) == row_views(old(rows)@) + group_shows(
            network_views(networks@),
            opt_bytes(*connecting),
            error_views(errors@),
        ),
{
    let ghost all = network_views(networks@);
    let ghost start = row_views(rows@);
    let ghost c = opt_bytes(*connecting);
    let ghost e = error_views(errors@);
    let mut i: usize = 0;
    proof {
        assert(all.take(0) =~= Seq::empty());
        assert(start + Seq::empty() =~= start);
    }
    while i < networks.len()
        invariant
            i <= networks.len(),
            all == network_views(networks@),
            c == opt_bytes(*connecting),
            e == error_views(errors@),
            row_views(rows@) == start + group_shows(all.take(i as int), c, e),
        decreases networks.len() - i,
    {
        let network = &networks[i];
        let ghost before = row_views(rows@);
        proof {
            assert(all.take(i + 1).drop_last() =~= all.take(i as int));
            assert(all.take(i + 1).last() == networks@[i as int]@);
        }
        let at = error_index(errors, &network.ssid);
        rows.push(
            PopoverRow::Network {
                ssid: copy_bytes(&network.ssid),
                label: network.label.clone(),
                connecting: is_bytes(connecting, &network.ssid),
                connected: network.connected,
            },
        );
        if at < errors.len() {
            rows.push(
                PopoverRow::Error {
                    ssid: copy_bytes(&network.ssid),
                    message: errors[at].1.clone(),
                },
            );
        }
        proof {
            let shown = network_shows(networks@[i as int]@, c, e);
            assert(row_views(rows@) =~= before + shown);
            assert(before + shown =~= start + (group_shows(all.take(i as int), c, e) + shown));
        }
        i += 1;
    }
    proof {
        assert(all.take(i as int) =~= all);
    }
}

/// Adds a row.
fn push_row(rows: &mut Vec<PopoverRow>, row: PopoverRow)
    ensures
        row_views(final(rows)@) == row_views(old(rows)@).push(row@),
{
    let ghost before = rows@;
    rows.push(row);
    proof {
        assert(row_views(rows@) =~= row_views(before).push(row@));
    }
}

/// Adds the rows of the wireless networks.
fn push_wifi(rows: &mut Vec<PopoverRow>, popover: &NetworkPopover)
    ensures
        row_views(final(rows)@) == row_views(old(rows)@) + wifi_shows(
            popover.controls,
            opt_bytes(popover.connecting),
            error_views(popover.errors@),
        ),
{
    let controls = &popover.controls;
    let (saved, other) = visible_network_groups(controls);
    let ghost c = opt_bytes(popover.connecting);
    let ghost e = error_views(popover.errors@);
    let ghost head = row_views(rows@);
    proof {
        assert(network_views(saved@).len() == saved@.len());
        assert(network_views(other@).len() == other@.len());
    }
    if !controls.wifi.available {
        push_row(rows, PopoverRow::Note("Wi-Fiは利用できません"));
    } else if !controls.wifi.enabled {
        push_row(rows, PopoverRow::Note("Wi-Fiはオフです"));
    } else {
        push_row(rows, PopoverRow::Title("接続したことのあるネットワーク"));
        push_group(rows, &saved, &popover.connecting, &popover.errors);
        if saved.len() == 0 {
            push_row(rows, PopoverRow::Note("なし"));
        }
        if other.len() > 0 || saved.len() == 0 {
            push_row(rows, PopoverRow::Separator);
            push_row(rows, PopoverRow::Title("ほかのネットワーク"));
            push_group(rows, &other, &popover.connecting, &popover.errors);
            if other.len() == 0 {
                push_row(rows, PopoverRow::Note("ネットワークを検索中…"));
            }
        }
    }
    proof {
        assert(row_views(rows@) =~= head + wifi_shows(*controls, c, e));
    }
}

/// What the popover shows.
pub fn popover_rows(popover: &NetworkPopover) -> (r: Vec<PopoverRow>)
    ensures
        row_views(r@) == popover_shows(
            popover.controls,
            opt_bytes(popover.connecting),
            error_views(popover.errors@),
        ),
{
    let controls = &popover.controls;
    let ghost shown = popover_shows(
        *controls,
        opt_bytes(popover.connecting),
        error_views(popover.errors@),
    );
    let mut rows: Vec<PopoverRow> = Vec::new();
    proof {
        assert(row_views(rows@) =~= Seq::empty());
    }
    if controls.wired_active {
        push_row(&mut rows, PopoverRow::Wired);
        push_row(&mut rows, PopoverRow::Separator);
    }
    push_row(&mut rows, PopoverRow::WifiSwitch(controls.wifi.enabled));
    push_row(&mut rows, PopoverRow::Separator);
    push_wifi(&mut rows, popover);
    push_row(&mut rows, PopoverRow::More);
    proof {
        assert(row_views(rows@) =~= shown);
    }
    rows
}

/// What the popover of the earbuds shows.
pub struct AirPodsView {
    pub average: Option<u8>,
    pub charges: String,
    pub ready: bool,
    pub buttons: Vec<ModeButton>,
    pub note: Option<String>,
}

/// What the popover of the earbuds shows.
pub fn airpods_view(status: &AirPodsStatus) -> (r: AirPodsView)
    ensures
        r.average == status.average_percent,
        r.charges@ == charge_label(status.left_percent) + "% / "@ + charge_label(
            status.right_percent,
        ) + "%"@,
        r.ready == status.ready,
        r.buttons@.map_values(|b: ModeButton| (b.id@, b.label@, b.glyph@, b.mode))
            == mode_choices(),
        forall|i: int|
            0 <= i < r.buttons@.len() ==> (#[trigger] r.buttons@[i]).selected == (
            status.listening_mode == Some(r.buttons@[i].mode)),
        opt_view(r.note) == earbuds_note(*status),
{
    AirPodsView {
        average: status.average_percent,
        charges: charges_label(status.left_percent, status.right_percent),
        ready: status.ready,
        buttons: mode_buttons(status.listening_mode),
        note: airpods_note(status),
    }
}

/// Whether no two networks of a list have the same name.
pub open spec fn differing(s: Seq<WifiNetworkView>) -> bool {
    forall|i: int, j: int|
        0 <= i < j < s.len() ==> (#[trigger] s[i]).ssid != (#[trigger] s[j]).ssid
}

/// Whether no two errors belong to the same network.
pub open spec fn one_each(s: Seq<(Seq<u8>, Seq<char>)>) -> bool {
    forall|i: int, j: int| 0 <= i < j < s.len() ==> (#[trigger] s[i]).0 != (#[trigger] s[j]).0
}

/// How many networks of a list have an error.
pub open spec fn troubled(
    networks: Seq<WifiNetworkView>,
    errors: Seq<(Seq<u8>, Seq<char>)>,
) -> nat
    decreases networks.len(),
{
    if networks.len() == 0 {
        0
    } else {
        troubled(networks.drop_last(), errors) + (if find_first(
            errors,
            of_network(networks.last().ssid),
        ) is Some {
            1nat
        } else {
            0
        })
    }
}

proof fn lemma_group_length(
    networks: Seq<WifiNetworkView>,
    connecting: Option<Seq<u8>>,
    errors: Seq<(Seq<u8>, Seq<char>)>,
)
    ensures
        group_shows(networks, connecting, errors).len() == networks.len() + troubled(
            networks,
            errors,
        ),
    decreases networks.len(),
{
    if networks.len() > 0 {
        lemma_group_length(networks.drop_last(), connecting, errors);
    }
}

proof fn lemma_found(errors: Seq<(Seq<u8>, Seq<char>)>, ssid: Seq<u8>)
    ensures
        find_first(errors, of_network(ssid)) is Some <==> exists|i: int|
            0 <= i < errors.len() && (#[trigger] errors[i]).0 == ssid,
{
    let p = of_network(ssid);
    lemma_first_index_bounds(errors, p);
    if exists|i: int| 0 <= i < errors.len() && (#[trigger] errors[i]).0 == ssid {
        let i = choose|i: int| 0 <= i < errors.len() && (#[trigger] errors[i]).0 == ssid;
        assert(p(errors[i]));
    }
}

/// One more error makes one more network of a list troubled, if it belongs to it.
proof fn lemma_troubled_push(
    networks: Seq<WifiNetworkView>,
    errors: Seq<(Seq<u8>, Seq<char>)>,
    error: (Seq<u8>, Seq<char>),
)
    requires
        differing(networks),
        one_each(errors.push(error)),
    ensures
        troubled(networks, errors.push(error)) == troubled(networks, errors) + (if has_ssid(
            networks,
            error.0,
        ) {
            1nat
        } else {
            0
        }),
    decreases networks.len(),
{
    let more = errors.push(error);
    if networks.len() > 0 {
        let rest = networks.drop_last();
        let n = networks.last();
        lemma_troubled_push(rest, errors, error);
        lemma_found(errors, n.ssid);
        lemma_found(more, n.ssid);
        assert(more[errors.len() as int] == error);
        assert forall|i: int| 0 <= i < errors.len() implies more[i] == errors[i] by {}
        if n.ssid == error.0 {
            assert(forall|i: int|
                0 <= i < errors.len() ==> (#[trigger] errors[i]).0 != error.0) by {
                assert forall|i: int| 0 <= i < errors.len() implies (#[trigger] errors[i]).0
                    != error.0 by {
                    assert(more[i].0 != more[errors.len() as int].0);
                }
            }
            assert(networks[networks.len() - 1].ssid == error.0);
            assert forall|i: int| 0 <= i < rest.len() implies (#[trigger] rest[i]).ssid
                != error.0 by {
                assert(networks[i].ssid != networks[networks.len() - 1].ssid);
            }
        } else {
            if has_ssid(networks, error.0) {
                let i = choose|i: int|
                    0 <= i < networks.len() && (#[trigger] networks[i]).ssid == error.0;
                assert(rest[i].ssid == error.0);
            }
            if has_ssid(rest, error.0) {
                let i = choose|i: int|
                    0 <= i < rest.len() && (#[trigger] rest[i]).ssid == error.0;
                assert(networks[i].ssid == error.0);
            }
            if exists|i: int| 0 <= i < errors.len() && (#[trigger] errors[i]).0 == n.ssid {
                let i = choose|i: int| 0 <= i < errors.len() && (#[trigger] errors[i]).0 == n.ssid;
                assert(more[i].0 == n.ssid);
            }
        }
    }
}

proof fn lemma_none_troubled(networks: Seq<WifiNetworkView>)
    ensures
        troubled(networks, Seq::empty()) == 0,
    decreases networks.len(),
{
    if networks.len() > 0 {
        lemma_none_troubled(networks.drop_last());
        lemma_found(Seq::empty(), networks.last().ssid);
    }
}

/// The networks of both groups are troubled by as many errors as are shown.
proof fn lemma_troubled_total(s: ControlSnapshot, errors: Seq<(Seq<u8>, Seq<char>)>)
    requires
        differing(shown_group(s, true) + shown_group(s, false)),
        one_each(errors),
    ensures
        troubled(shown_group(s, true), errors) + troubled(shown_group(s, false), errors)
            == shown_errors(s, errors).len(),
    decreases errors.len(),
{
    let saved = shown_group(s, true);
    let other = shown_group(s, false);
    let both = saved + other;
    if errors.len() == 0 {
        assert(errors =~= Seq::empty());
        lemma_none_troubled(saved);
        lemma_none_troubled(other);
        assert(errors.filter(of_shown(s)).len() == 0) by {
            reveal(Seq::filter);
        }
    } else {
        let rest = errors.drop_last();
        let error = errors.last();
        assert(rest.push(error) =~= errors);
        assert(one_each(rest)) by {
            assert forall|i: int, j: int| 0 <= i < j < rest.len() implies (#[trigger] rest[i]).0
                != (#[trigger] rest[j]).0 by {
                assert(errors[i].0 != errors[j].0);
            }
        }
        lemma_troubled_total(s, rest);
        assert(differing(saved)) by {
            assert forall|i: int, j: int| 0 <= i < j < saved.len() implies (
            #[trigger] saved[i]).ssid != (#[trigger] saved[j]).ssid by {
                assert(both[i].ssid != both[j].ssid);
            }
        }
        assert(differing(other)) by {
            assert forall|i: int, j: int| 0 <= i < j < other.len() implies (
            #[trigger] other[i]).ssid != (#[trigger] other[j]).ssid by {
                assert(both[saved.len() + i].ssid != both[saved.len() + j].ssid);
            }
        }
        lemma_troubled_push(saved, rest, error);
        lemma_troubled_push(other, rest, error);
        if has_ssid(saved, error.0) && has_ssid(other, error.0) {
            let i = choose|i: int| 0 <= i < saved.len() && (#[trigger] saved[i]).ssid == error.0;
            let j = choose|j: int| 0 <= j < other.len() && (#[trigger] other[j]).ssid == error.0;
            assert(both[i].ssid != both[saved.len() + j].ssid);
        }
        assert(errors.filter(of_shown(s)).len() == rest.filter(of_shown(s)).len() + (if of_shown(
            s,
        )(error) {
            1nat
        } else {
            0
        })) by {
            reveal(Seq::filter);
        }
    }
}

/// The popover is as high as what it shows needs: where no two networks have the
/// same name and no network has two errors, it makes room for each row, with two
/// pixels between any two of them.
pub proof fn law_height_fits_rows(
    s: ControlSnapshot,
    connecting: Option<Seq<u8>>,
    errors: Seq<(Seq<u8>, Seq<char>)>,
)
    requires
        differing(shown_group(s, true) + shown_group(s, false)),
        one_each(errors),
    ensures
        ({
            let rows = popover_shows(s, connecting, errors).len();
            let wired: nat = if s.wired_active {
                41
            } else {
                0
            };
            popover_height(s, errors) == 93 + wired + list_extent(s).0 + shown_errors(
                s,
                errors,
            ).len() * 34 + (rows - 1) * 2
        }),
{
    let saved = shown_group(s, true);
    let other = shown_group(s, false);
    lemma_group_length(saved, connecting, errors);
    lemma_group_length(other, connecting, errors);
    lemma_troubled_total(s, errors);
    if !(s.wifi.available && s.wifi.enabled) {
        assert(saved.len() == 0 && other.len() == 0);
    } else if other.len() == 0 {
        assert(troubled(other, errors) == 0);
    }
}

/// A network is shown with whether it is connected, or is being connected to; its error
/// follows it where there is one.
pub proof fn law_rows_of_network(
    n: WifiNetworkView,
    connecting: Option<Seq<u8>>,
    errors: Seq<(Seq<u8>, Seq<char>)>,
    at: int,
)
    requires
        0 <= at <= errors.len(),
        forall|j: int| 0 <= j < at ==> (#[trigger] errors[j]).0 != n.ssid,
        at < errors.len() ==> errors[at].0 == n.ssid,
    ensures
        ({
            let r = network_shows(n, connecting, errors);
            &&& r[0] == (PopoverRowView::Network {
                ssid: n.ssid,
                label: n.label,
                connecting: connecting is Some && connecting->0 == n.ssid,
                connected: n.connected,
            })
            &&& at == errors.len() ==> r.len() == 1
            &&& at < errors.len() ==> r.len() == 2 && r[1] == (PopoverRowView::Error {
                ssid: n.ssid,
                message: errors[at].1,
            })
        }),
{
    lemma_first_index(errors, of_network(n.ssid), at as nat);
}

/// Every network of a group is shown, in the order of the group.
pub proof fn law_networks_of_group_are_shown(
    networks: Seq<WifiNetworkView>,
    connecting: Option<Seq<u8>>,
    errors: Seq<(Seq<u8>, Seq<char>)>,
    i: int,
    j: int,
) -> (r: (int, int))
    requires
        0 <= i < j < networks.len(),
    ensures
        0 <= r.0 < r.1 < group_shows(networks, connecting, errors).len(),
        group_shows(networks, connecting, errors)[r.0] is Network,
        group_shows(networks, connecting, errors)[r.0]->Network_ssid == networks[i].ssid,
        group_shows(networks, connecting, errors)[r.1] is Network,
        group_shows(networks, connecting, errors)[r.1]->Network_ssid == networks[j].ssid,
    decreases networks.len(),
{
    let rest = networks.drop_last();
    if j < rest.len() {
        law_networks_of_group_are_shown(rest, connecting, errors, i, j)
    } else {
        let k = lemma_network_is_shown(rest, connecting, errors, i);
        (k, group_shows(rest, connecting, errors).len() as int)
    }
}

proof fn lemma_network_is_shown(
    networks: Seq<WifiNetworkView>,
    connecting: Option<Seq<u8>>,
    errors: Seq<(Seq<u8>, Seq<char>)>,
    i: int,
) -> (k: int)
    requires
        0 <= i < networks.len(),
    ensures
        0 <= k < group_shows(networks, connecting, errors).len(),
        group_shows(networks, connecting, errors)[k] is Network,
        group_shows(networks, connecting, errors)[k]->Network_ssid == networks[i].ssid,
    decreases networks.len(),
{
    let rest = networks.drop_last();
    if i < rest.len() {
        lemma_network_is_shown(rest, connecting, errors, i)
    } else {
        group_shows(rest, connecting, errors).len() as int
    }
}

/// The popover begins with the wired connection where there is one, goes on with the
/// switch, and ends with what leads further; without the wireless part it says why there
/// are no networks.
pub proof fn law_frame_of_popover(
    s: ControlSnapshot,
    connecting: Option<Seq<u8>>,
    errors: Seq<(Seq<u8>, Seq<char>)>,
)
    ensures
        ({
            let r = popover_shows(s, connecting, errors);
            let at: int = if s.wired_active {
                2
            } else {
                0
            };
            &&& s.wired_active ==> r[0] is Wired && r[1] is Separator
            &&& r[at] == PopoverRowView::WifiSwitch(s.wifi.enabled)
            &&& r[at + 1] is Separator
            &&& r.last() is More
            &&& !s.wifi.available ==> r.len() == at + 4 && r[at + 2] == PopoverRowView::Note(
                "Wi-Fiは利用できません"@,
            )
            &&& s.wifi.available && !s.wifi.enabled ==> r.len() == at + 4 && r[at + 2]
                == PopoverRowView::Note("Wi-Fiはオフです"@)
            &&& s.wifi.available && s.wifi.enabled ==> r[at + 2] == PopoverRowView::Title(
                "接続したことのあるネットワーク"@,
            )
        }),
{
}

} // verus!
