//! What one instance of the program tells another: which page to show, and what
//! to do with the window switcher or the clipboard.

use vstd::prelude::*;
use vstd::string::*;
use vstd::utf8::{encode_scalar, encode_utf8};

use crate::bytes::{copy_bytes, opt_bytes};
use crate::text::{
    black, concat, is_white, lemma_position, owned, push_char, same, starts_with,
    text_strip_prefix, trim, trim_end, trim_start, trim_text,
};

verus! {

/// How the program is called.
pub const USAGE: &'static str = "usage: bah [--memusg] [--wgpu-backend BACKENDS] [--vk-driver-files PATH] [notifications COMMAND|switcher COMMAND|clipboard COMMAND|screenshot|window config|window device-control-center [network|bluetooth|display]|wallpaper [set PATH|unset]]";

/// A message with how the program is called below it.
pub open spec fn with_usage(message: Seq<char>) -> Seq<char> {
    message + "\n"@ + USAGE@
}

/// A message with how the program is called below it.
pub fn usage_error(message: &str) -> (r: String)
    ensures
        r@ == with_usage(message@),
{
    let mut out = owned(message);
    out.append("\n");
    out.append(USAGE);
    out
}

/// The value of a hexadecimal digit.
pub open spec fn hex_value(b: u8) -> Option<u8> {
    if 48 <= b <= 57 {
        Some((b - 48) as u8)
    } else if 97 <= b <= 102 {
        Some((b - 87) as u8)
    } else if 65 <= b <= 70 {
        Some((b - 55) as u8)
    } else {
        None
    }
}

/// The value of two digits, or of one behind a plus sign.
pub open spec fn pair_value(high: u8, low: u8) -> Option<u8> {
    match (hex_value(high), hex_value(low)) {
        (Some(h), Some(l)) => Some((h * 16 + l) as u8),
        (None, Some(l)) => if high == 43 {
            Some(l)
        } else {
            None
        },
        _ => None,
    }
}

/// The bytes that pairs of digits denote.
pub open spec fn pairs_value(digits: Seq<u8>) -> Option<Seq<u8>>
    decreases digits.len(),
{
    if digits.len() < 2 {
        Some(Seq::empty())
    } else {
        match (
            pairs_value(digits.take(digits.len() - 2)),
            pair_value(digits[digits.len() - 2], digits[digits.len() - 1]),
        ) {
            (Some(before), Some(b)) => Some(before.push(b)),
            _ => None,
        }
    }
}

/// The bytes that a text denotes in hexadecimal, or what is wrong with it.
pub open spec fn decoded(text: Seq<char>) -> Result<Seq<u8>, Seq<char>> {
    let digits = encode_utf8(text);
    if digits.len() == 0 || digits.len() % 2 != 0 {
        Err(with_usage("--ssid-hex must contain complete byte pairs"@))
    } else {
        match pairs_value(digits) {
            Some(bytes) => Ok(bytes),
            None => Err(with_usage("--ssid-hex must be hexadecimal"@)),
        }
    }
}

/// The value of a hexadecimal digit.
fn hex_digit_value(b: u8) -> (r: Option<u8>)
    ensures
        r == hex_value(b),
{
    if 48 <= b && b <= 57 {
        Some(b - 48)
    } else if 97 <= b && b <= 102 {
        Some(b - 87)
    } else if 65 <= b && b <= 70 {
        Some(b - 55)
    } else {
        None
    }
}

/// The value of two digits, or of one behind a plus sign.
fn hex_pair_value(high: u8, low: u8) -> (r: Option<u8>)
    ensures
        r == pair_value(high, low),
{
    match (hex_digit_value(high), hex_digit_value(low)) {
        (Some(h), Some(l)) => Some(h * 16 + l),
        (None, Some(l)) => if high == 43 {
            Some(l)
        } else {
            None
        },
        _ => None,
    }
}

proof fn lemma_pairs_none(digits: Seq<u8>, k: int)
    requires
        0 <= k <= digits.len(),
        k % 2 == digits.len() % 2,
        k >= 2,
        pairs_value(digits.take(k)) is None,
    ensures
        pairs_value(digits) is None,
    decreases digits.len() - k,
{
    if k < digits.len() {
        assert(digits.take(k + 2).take(k) =~= digits.take(k));
        lemma_pairs_none(digits, k + 2);
    } else {
        assert(digits.take(k) =~= digits);
    }
}

/// The bytes that a text denotes in hexadecimal.
pub fn decode_hex_ssid(value: &str) -> (r: Result<Vec<u8>, String>)
    ensures
        match r {
            Ok(bytes) => decoded(value@) == Ok::<Seq<u8>, Seq<char>>(bytes@),
            Err(e) => decoded(value@) == Err::<Seq<u8>, Seq<char>>(e@),
        },
{
    let digits = value.as_bytes();
    let ghost d = encode_utf8(value@);
    if digits.len() == 0 || digits.len() % 2 != 0 {
        return Err(usage_error("--ssid-hex must contain complete byte pairs"));
    }
    let mut out: Vec<u8> = Vec::new();
    let mut i: usize = 0;
    proof {
        assert(d.take(0) =~= Seq::empty());
    }
    while i < digits.len()
        invariant
            i <= digits.len(),
            i % 2 == 0,
            digits.len() % 2 == 0,
            digits.len() > 0,
            d == digits@,
            d == encode_utf8(value@),
            pairs_value(d.take(i as int)) == Some(out@),
        decreases digits.len() - i,
    {
        proof {
            assert(d.take(i + 2).take(i as int) =~= d.take(i as int));
        }
        match hex_pair_value(digits[i], digits[i + 1]) {
            Some(b) => {
                out.push(b);
            },
            None => {
                proof {
                    lemma_pairs_none(d, i + 2);
                }
                return Err(usage_error("--ssid-hex must be hexadecimal"));
            },
        }
        i += 2;
    }
    proof {
        assert(d.take(i as int) =~= d);
    }
    Ok(out)
}

/// The digit of a value.
pub open spec fn hex_char(n: u8) -> char {
    if n < 10 {
        (n + 48) as char
    } else {
        (n + 87) as char
    }
}

/// The hexadecimal digits of bytes, two of each.
pub open spec fn hex_text(bytes: Seq<u8>) -> Seq<char>
    decreases bytes.len(),
{
    if bytes.len() == 0 {
        Seq::empty()
    } else {
        hex_text(bytes.drop_last()).push(hex_char(bytes.last() / 16)).push(
            hex_char(bytes.last() % 16),
        )
    }
}

/// The digit of a value.
fn hex_digit(n: u8) -> (r: char)
    requires
        n < 16,
    ensures
        r == hex_char(n),
{
    if n < 10 {
        (n + 48) as char
    } else {
        (n + 87) as char
    }
}

/// The hexadecimal digits of bytes, two of each.
pub fn encode_hex_ssid(ssid: &Vec<u8>) -> (r: String)
    ensures
        r@ == hex_text(ssid@),
{
    let mut out = String::new();
    let mut i: usize = 0;
    proof {
        assert(ssid@.take(0) =~= Seq::empty());
        assert(out@ =~= hex_text(ssid@.take(0)));
    }
    while i < ssid.len()
        invariant
            i <= ssid.len(),
            out@ == hex_text(ssid@.take(i as int)),
        decreases ssid.len() - i,
    {
        proof {
            assert(ssid@.take(i + 1).drop_last() =~= ssid@.take(i as int));
        }
        push_char(&mut out, hex_digit(ssid[i] / 16));
        push_char(&mut out, hex_digit(ssid[i] % 16));
        i += 1;
    }
    proof {
        assert(ssid@.take(i as int) =~= ssid@);
    }
    out
}

/// A page of the device control center.
#[derive(Clone, Copy, Debug, PartialEq, Eq, Structural)]
pub enum DeviceControlCenterPage {
    Network,
    Bluetooth,
    Display,
}

impl Default for DeviceControlCenterPage {
    fn default() -> (r: Self)
        ensures
            r == DeviceControlCenterPage::Network,
    {
        DeviceControlCenterPage::Network
    }
}

/// What the device control center is to show: a page, and on that of the
/// network the one that is selected.
#[derive(Debug, PartialEq, Eq)]
pub struct DeviceControlCenterRoute {
    pub page: DeviceControlCenterPage,
    pub ssid: Option<Vec<u8>>,
}

/// A route as contracts speak of it.
#[verifier::ext_equal]
pub struct RouteView {
    pub page: DeviceControlCenterPage,
    pub ssid: Option<Seq<u8>>,
}

impl View for DeviceControlCenterRoute {
    type V = RouteView;

    open spec fn view(&self) -> RouteView {
        RouteView { page: self.page, ssid: opt_bytes(self.ssid) }
    }
}

impl Default for DeviceControlCenterRoute {
    fn default() -> (r: Self)
        ensures
            r@ == page_route(DeviceControlCenterPage::Network),
    {
        DeviceControlCenterRoute { page: DeviceControlCenterPage::Network, ssid: None }
    }
}

impl Clone for DeviceControlCenterRoute {
    fn clone(&self) -> (r: Self)
        ensures
            r@ == self@,
    {
        DeviceControlCenterRoute {
            page: self.page,
            ssid: match &self.ssid {
                Some(ssid) => Some(copy_bytes(ssid)),
                None => None,
            },
        }
    }
}

/// The route to a page.
pub open spec fn page_route(page: DeviceControlCenterPage) -> RouteView {
    RouteView { page, ssid: None }
}

/// How a route is told.
pub open spec fn payload(route: RouteView) -> Seq<char> {
    match route.page {
        DeviceControlCenterPage::Network => match route.ssid {
            Some(ssid) => "network:"@ + hex_text(ssid),
            None => "network"@,
        },
        DeviceControlCenterPage::Bluetooth => "bluetooth"@,
        DeviceControlCenterPage::Display => "display"@,
    }
}

/// How a route is told.
pub fn route_payload(route: &DeviceControlCenterRoute) -> (r: String)
    ensures
        r@ == payload(route@),
{
    match route.page {
        DeviceControlCenterPage::Network => match &route.ssid {
            Some(ssid) => concat("network:", encode_hex_ssid(ssid).as_str()),
            None => owned("network"),
        },
        DeviceControlCenterPage::Bluetooth => owned("bluetooth"),
        DeviceControlCenterPage::Display => owned("display"),
    }
}

/// A text without a prefix that it may have.
pub open spec fn without_prefix(s: Seq<char>, prefix: Seq<char>) -> Seq<char> {
    if starts_with(s, prefix) {
        s.skip(prefix.len() as int)
    } else {
        s
    }
}

/// The route that a request names, or what is wrong with it.
pub open spec fn requested_route(request: Seq<char>) -> Result<RouteView, Seq<char>> {
    let value = trim(request);
    if value == ""@ || value == "network"@ {
        Ok(page_route(DeviceControlCenterPage::Network))
    } else if value == "bluetooth"@ {
        Ok(page_route(DeviceControlCenterPage::Bluetooth))
    } else if value == "display"@ {
        Ok(page_route(DeviceControlCenterPage::Display))
    } else {
        match decoded(without_prefix(value, "network:"@)) {
            Ok(ssid) => Ok(RouteView { page: DeviceControlCenterPage::Network, ssid: Some(ssid) }),
            Err(e) => Err(e),
        }
    }
}

/// The route that a request names.
pub fn parse_route(request: &str) -> (r: Result<DeviceControlCenterRoute, String>)
    ensures
        match r {
            Ok(route) => requested_route(request@) == Ok::<RouteView, Seq<char>>(route@),
            Err(e) => requested_route(request@) == Err::<RouteView, Seq<char>>(e@),
        },
{
    let value = trim_text(request);
    if same(value.as_str(), "") || same(value.as_str(), "network") {
        return Ok(DeviceControlCenterRoute::default());
    }
    if same(value.as_str(), "bluetooth") {
        return Ok(
            DeviceControlCenterRoute { page: DeviceControlCenterPage::Bluetooth, ssid: None },
        );
    }
    if same(value.as_str(), "display") {
        return Ok(DeviceControlCenterRoute { page: DeviceControlCenterPage::Display, ssid: None });
    }
    let digits = match text_strip_prefix(value.as_str(), "network:") {
        Some(rest) => rest,
        None => value,
    };
    match decode_hex_ssid(digits.as_str()) {
        Ok(ssid) => Ok(
            DeviceControlCenterRoute { page: DeviceControlCenterPage::Network, ssid: Some(ssid) },
        ),
        Err(e) => Err(e),
    }
}

/// What the clipboard history is told.
#[derive(Clone, Copy, Debug, PartialEq, Eq, Structural)]
pub enum ClipboardCommand {
    Toggle,
    Open,
    Close,
    Previous,
    Next,
    Select,
    Clear,
}

/// The word for a command of the clipboard.
pub open spec fn clipboard_word(c: ClipboardCommand) -> Seq<char> {
    match c {
        ClipboardCommand::Toggle => "toggle"@,
        ClipboardCommand::Open => "open"@,
        ClipboardCommand::Close => "close"@,
        ClipboardCommand::Previous => "previous"@,
        ClipboardCommand::Next => "next"@,
        ClipboardCommand::Select => "select"@,
        ClipboardCommand::Clear => "clear"@,
    }
}

proof fn lemma_clipboard_words_differ(a: ClipboardCommand, b: ClipboardCommand)
    requires
        clipboard_word(a) == clipboard_word(b),
    ensures
        a == b,
{
    reveal_strlit("toggle");
    reveal_strlit("open");
    reveal_strlit("close");
    reveal_strlit("previous");
    reveal_strlit("next");
    reveal_strlit("select");
    reveal_strlit("clear");
    assert("toggle"@[0] == 't');
    assert("open"@[0] == 'o');
    assert("close"@[0] == 'c' && "close"@[2] == 'o');
    assert("previous"@[0] == 'p');
    assert("next"@[0] == 'n');
    assert("select"@[0] == 's');
    assert("clear"@[0] == 'c' && "clear"@[2] == 'e');
    assert(clipboard_word(a)[0] == clipboard_word(b)[0]);
    assert(clipboard_word(a)[2] == clipboard_word(b)[2]);
}

impl ClipboardCommand {
    /// The command that a word stands for.
    pub fn parse(value: &str) -> (r: Option<Self>)
        ensures
            match r {
                Some(c) => clipboard_word(c) == value@,
                None => forall|c: ClipboardCommand| clipboard_word(c) != value@,
            },
    {
        if same(value, "toggle") {
            Some(ClipboardCommand::Toggle)
        } else if same(value, "open") {
            Some(ClipboardCommand::Open)
        } else if same(value, "close") {
            Some(ClipboardCommand::Close)
        } else if same(value, "previous") {
            Some(ClipboardCommand::Previous)
        } else if same(value, "next") {
            Some(ClipboardCommand::Next)
        } else if same(value, "select") {
            Some(ClipboardCommand::Select)
        } else if same(value, "clear") {
            Some(ClipboardCommand::Clear)
        } else {
            None
        }
    }

    /// The word for the command.
    pub fn as_wire(self) -> (r: &'static str)
        ensures
            r@ == clipboard_word(self),
    {
        match self {
            ClipboardCommand::Toggle => "toggle",
            ClipboardCommand::Open => "open",
            ClipboardCommand::Close => "close",
            ClipboardCommand::Previous => "previous",
            ClipboardCommand::Next => "next",
            ClipboardCommand::Select => "select",
            ClipboardCommand::Clear => "clear",
        }
    }
}

/// What the window switcher is told.
#[derive(Clone, Copy, Debug, PartialEq, Eq, Structural)]
pub enum SwitcherCommand {
    Open,
    Cycle,
    CycleReverse,
    SelectPrevious,
    SelectNext,
    Commit,
    Close,
    Refresh,
}

/// The word for a command of the window switcher.
pub open spec fn switcher_word(c: SwitcherCommand) -> Seq<char> {
    match c {
        SwitcherCommand::Open => "open"@,
        SwitcherCommand::Cycle => "cycle"@,
        SwitcherCommand::CycleReverse => "cycle-reverse"@,
        SwitcherCommand::SelectPrevious => "select-previous"@,
        SwitcherCommand::SelectNext => "select-next"@,
        SwitcherCommand::Commit => "commit"@,
        SwitcherCommand::Close => "close"@,
        SwitcherCommand::Refresh => "refresh"@,
    }
}

proof fn lemma_switcher_words_differ(a: SwitcherCommand, b: SwitcherCommand)
    requires
        switcher_word(a) == switcher_word(b),
    ensures
        a == b,
{
    reveal_strlit("open");
    reveal_strlit("cycle");
    reveal_strlit("cycle-reverse");
    reveal_strlit("select-previous");
    reveal_strlit("select-next");
    reveal_strlit("commit");
    reveal_strlit("close");
    reveal_strlit("refresh");
    assert("open"@.len() == 4);
    assert("cycle"@.len() == 5 && "cycle"@[1] == 'y');
    assert("cycle-reverse"@.len() == 13);
    assert("select-previous"@.len() == 15);
    assert("select-next"@.len() == 11);
    assert("commit"@.len() == 6);
    assert("close"@.len() == 5 && "close"@[1] == 'l');
    assert("refresh"@.len() == 7);
    assert(switcher_word(a).len() == switcher_word(b).len());
    assert(switcher_word(a)[1] == switcher_word(b)[1]);
}

impl SwitcherCommand {
    /// The command that a word stands for.
    pub fn parse(value: &str) -> (r: Option<Self>)
        ensures
            match r {
                Some(c) => switcher_word(c) == value@,
                None => forall|c: SwitcherCommand| switcher_word(c) != value@,
            },
    {
        if same(value, "open") {
            Some(SwitcherCommand::Open)
        } else if same(value, "cycle") {
            Some(SwitcherCommand::Cycle)
        } else if same(value, "cycle-reverse") {
            Some(SwitcherCommand::CycleReverse)
        } else if same(value, "select-previous") {
            Some(SwitcherCommand::SelectPrevious)
        } else if same(value, "select-next") {
            Some(SwitcherCommand::SelectNext)
        } else if same(value, "commit") {
            Some(SwitcherCommand::Commit)
        } else if same(value, "close") {
            Some(SwitcherCommand::Close)
        } else if same(value, "refresh") {
            Some(SwitcherCommand::Refresh)
        } else {
            None
        }
    }

    /// The word for the command.
    pub fn as_wire(self) -> (r: &'static str)
        ensures
            r@ == switcher_word(self),
    {
        match self {
            SwitcherCommand::Open => "open",
            SwitcherCommand::Cycle => "cycle",
            SwitcherCommand::CycleReverse => "cycle-reverse",
            SwitcherCommand::SelectPrevious => "select-previous",
            SwitcherCommand::SelectNext => "select-next",
            SwitcherCommand::Commit => "commit",
            SwitcherCommand::Close => "close",
            SwitcherCommand::Refresh => "refresh",
        }
    }
}

/// Whether a request is for a screenshot.
pub fn is_capture_request(request: &str) -> (r: bool)
    ensures
        r == (trim(request@) == "capture"@),
{
    same(trim_text(request).as_str(), "capture")
}

proof fn lemma_hex_pair(b: u8)
    ensures
        pair_value(hex_char(b / 16) as u8, hex_char(b % 16) as u8) == Some(b),
        (hex_char(b / 16) as u32) < 128,
        (hex_char(b % 16) as u32) < 128,
        !is_white(hex_char(b / 16)),
        !is_white(hex_char(b % 16)),
{
}

/// A character below the first hundred and twenty-eight is one byte.
proof fn lemma_ascii_scalar(c: char)
    requires
        (c as u32) < 128,
    ensures
        encode_scalar(c as u32) == seq![c as u8],
{
    let v = c as u32;
    assert((v & 0x7F) as u8 == v as u8) by (bit_vector)
        requires
            v < 128,
    ;
    assert(encode_scalar(v) =~= seq![c as u8]);
}

/// The bytes of a text and a character more.
proof fn lemma_bytes_push(s: Seq<char>, c: char)
    requires
        (c as u32) < 128,
    ensures
        encode_utf8(s.push(c)) == encode_utf8(s).push(c as u8),
    decreases s.len(),
{
    lemma_ascii_scalar(c);
    if s.len() == 0 {
        assert(s.push(c)[0] == c);
        assert(s.push(c).drop_first() =~= Seq::<char>::empty());
        assert(encode_utf8(Seq::<char>::empty()) =~= Seq::<u8>::empty());
        assert(s =~= Seq::<char>::empty());
        assert(encode_utf8(s.push(c)) =~= encode_utf8(s).push(c as u8));
    } else {
        lemma_bytes_push(s.drop_first(), c);
        assert(s.push(c).drop_first() =~= s.drop_first().push(c));
        assert(s.push(c)[0] == s[0]);
        assert(encode_utf8(s.push(c)) =~= encode_utf8(s).push(c as u8));
    }
}

proof fn lemma_hex_bytes(bytes: Seq<u8>)
    ensures
        encode_utf8(hex_text(bytes)).len() == 2 * bytes.len(),
        pairs_value(encode_utf8(hex_text(bytes))) == Some(bytes),
    decreases bytes.len(),
{
    if bytes.len() == 0 {
        assert(encode_utf8(hex_text(bytes)) =~= Seq::empty());
        assert(bytes =~= Seq::empty());
    } else {
        let before = bytes.drop_last();
        let b = bytes.last();
        lemma_hex_bytes(before);
        lemma_hex_pair(b);
        let s = hex_text(before);
        lemma_bytes_push(s, hex_char(b / 16));
        lemma_bytes_push(s.push(hex_char(b / 16)), hex_char(b % 16));
        let d = encode_utf8(hex_text(bytes));
        assert(d.take(d.len() - 2) =~= encode_utf8(s));
        assert(before.push(b) =~= bytes);
    }
}

/// What is written in hexadecimal is read back from it.
pub proof fn law_hex_round_trip(bytes: Seq<u8>)
    requires
        bytes.len() > 0,
    ensures
        decoded(hex_text(bytes)) == Ok::<Seq<u8>, Seq<char>>(bytes),
{
    lemma_hex_bytes(bytes);
}

/// A command is read back from the word that is sent for it.
pub proof fn law_clipboard_round_trip(c: ClipboardCommand, other: ClipboardCommand)
    ensures
        clipboard_word(c) == clipboard_word(other) <==> c == other,
{
    if clipboard_word(c) == clipboard_word(other) {
        lemma_clipboard_words_differ(c, other);
    }
}

/// A command of the window switcher is read back from the word that is sent for
/// it.
pub proof fn law_switcher_round_trip(c: SwitcherCommand, other: SwitcherCommand)
    ensures
        switcher_word(c) == switcher_word(other) <==> c == other,
{
    if switcher_word(c) == switcher_word(other) {
        lemma_switcher_words_differ(c, other);
    }
}

proof fn lemma_trim_line(s: Seq<char>)
    requires
        s.len() > 0,
        !is_white(s[0]),
        !is_white(s.last()),
    ensures
        trim(s + "\n"@) == s,
{
    reveal_strlit("\n");
    let t = s + "\n"@;
    lemma_position(t, black(), 0);
    assert(t.skip(0) =~= t);
    assert(t.drop_last() =~= s);
    assert(t.last() == '\n');
    assert(trim_start(t) == t);
    assert(trim_end(s) == s);
    assert(trim_end(t) == trim_end(s));
}

proof fn lemma_hex_not_white(bytes: Seq<u8>)
    ensures
        forall|i: int| 0 <= i < hex_text(bytes).len() ==> !is_white(#[trigger] hex_text(bytes)[i]),
        hex_text(bytes).len() == 2 * bytes.len(),
    decreases bytes.len(),
{
    if bytes.len() > 0 {
        lemma_hex_not_white(bytes.drop_last());
        lemma_hex_pair(bytes.last());
    }
}

/// The route that was sent, with a line end behind it, is the route that is
/// read. What cannot be told is left out: a selected network without a name, and
/// one on a page that is not that of the network.
pub proof fn law_route_round_trip(route: RouteView)
    requires
        route.page == DeviceControlCenterPage::Network ==> (route.ssid is Some ==> route.ssid->0.len()
            > 0),
        route.page != DeviceControlCenterPage::Network ==> route.ssid is None,
    ensures
        requested_route(payload(route) + "\n"@) == Ok::<RouteView, Seq<char>>(route),
{
    reveal_strlit("network");
    reveal_strlit("network:");
    reveal_strlit("bluetooth");
    reveal_strlit("display");
    reveal_strlit("");
    match route.page {
        DeviceControlCenterPage::Network => match route.ssid {
            Some(ssid) => {
                lemma_hex_not_white(ssid);
                let s = payload(route);
                assert(s.last() == hex_text(ssid).last());
                lemma_trim_line(s);
                assert(s[7] == ':');
                assert(s != "network"@);
                assert(s != "bluetooth"@) by {
                    assert(s[0] != "bluetooth"@[0]);
                }
                assert(s != "display"@) by {
                    assert(s[0] != "display"@[0]);
                }
                assert(s != ""@);
                assert(s.take(8) =~= "network:"@);
                assert(starts_with(s, "network:"@));
                assert(s.skip(8) =~= hex_text(ssid));
                law_hex_round_trip(ssid);
            },
            None => {
                lemma_trim_line("network"@);
            },
        },
        DeviceControlCenterPage::Bluetooth => {
            lemma_trim_line("bluetooth"@);
            assert("bluetooth"@[0] != "network"@[0]);
        },
        DeviceControlCenterPage::Display => {
            lemma_trim_line("display"@);
            assert("display"@[0] != "network"@[0]);
            assert("display"@[0] != "bluetooth"@[0]);
        },
    }
}

/// Each word of the clipboard says what its command does.
pub proof fn law_clipboard_words(c: ClipboardCommand)
    ensures
        clipboard_word(c) == "toggle"@ <==> c is Toggle,
        clipboard_word(c) == "open"@ <==> c is Open,
        clipboard_word(c) == "close"@ <==> c is Close,
        clipboard_word(c) == "previous"@ <==> c is Previous,
        clipboard_word(c) == "next"@ <==> c is Next,
        clipboard_word(c) == "select"@ <==> c is Select,
        clipboard_word(c) == "clear"@ <==> c is Clear,
{
    law_clipboard_round_trip(c, ClipboardCommand::Toggle);
    law_clipboard_round_trip(c, ClipboardCommand::Open);
    law_clipboard_round_trip(c, ClipboardCommand::Close);
    law_clipboard_round_trip(c, ClipboardCommand::Previous);
    law_clipboard_round_trip(c, ClipboardCommand::Next);
    law_clipboard_round_trip(c, ClipboardCommand::Select);
    law_clipboard_round_trip(c, ClipboardCommand::Clear);
}

/// Each word of the window switcher says what its command does.
pub proof fn law_switcher_words(c: SwitcherCommand)
    ensures
        switcher_word(c) == "open"@ <==> c is Open,
        switcher_word(c) == "cycle"@ <==> c is Cycle,
        switcher_word(c) == "cycle-reverse"@ <==> c is CycleReverse,
        switcher_word(c) == "select-previous"@ <==> c is SelectPrevious,
        switcher_word(c) == "select-next"@ <==> c is SelectNext,
        switcher_word(c) == "commit"@ <==> c is Commit,
        switcher_word(c) == "close"@ <==> c is Close,
        switcher_word(c) == "refresh"@ <==> c is Refresh,
{
    law_switcher_round_trip(c, SwitcherCommand::Open);
    law_switcher_round_trip(c, SwitcherCommand::Cycle);
    law_switcher_round_trip(c, SwitcherCommand::CycleReverse);
    law_switcher_round_trip(c, SwitcherCommand::SelectPrevious);
    law_switcher_round_trip(c, SwitcherCommand::SelectNext);
    law_switcher_round_trip(c, SwitcherCommand::Commit);
    law_switcher_round_trip(c, SwitcherCommand::Close);
    law_switcher_round_trip(c, SwitcherCommand::Refresh);
}

/// Each byte is written with two digits, the higher one first.
pub proof fn law_hex_digits(bytes: Seq<u8>, b: u8)
    ensures
        hex_text(Seq::empty()) == Seq::<char>::empty(),
        hex_text(bytes.push(b)) == hex_text(bytes) + seq![
            "0123456789abcdef"@[b as int / 16],
            "0123456789abcdef"@[b as int % 16],
        ],
{
    reveal_strlit("0123456789abcdef");
    assert(bytes.push(b).drop_last() =~= bytes);
    lemma_hex_table((b / 16) as u8);
    lemma_hex_table((b % 16) as u8);
    assert(hex_text(bytes.push(b)) =~= hex_text(bytes) + seq![
        hex_char(b / 16),
        hex_char(b % 16),
    ]);
}

proof fn lemma_hex_table(n: u8)
    requires
        n < 16,
    ensures
        hex_char(n) == "0123456789abcdef"@[n as int],
{
    reveal_strlit("0123456789abcdef");
    let t = "0123456789abcdef"@;
    assert(t[0] == '0' && t[1] == '1' && t[2] == '2' && t[3] == '3' && t[4] == '4' && t[5] == '5'
        && t[6] == '6' && t[7] == '7' && t[8] == '8' && t[9] == '9' && t[10] == 'a' && t[11] == 'b'
        && t[12] == 'c' && t[13] == 'd' && t[14] == 'e' && t[15] == 'f');
}

/// Digits may be of either case; nothing else is a digit.
pub proof fn law_hex_values(b: u8)
    ensures
        48 <= b <= 57 ==> hex_value(b) == Some((b - 48) as u8),
        97 <= b <= 102 ==> hex_value(b) == hex_value((b - 32) as u8) && hex_value(b) == Some(
            (b - 97 + 10) as u8,
        ),
        hex_value(b) matches Some(v) ==> v < 16 && (48 <= b <= 57 || 97 <= b <= 102 || 65 <= b
            <= 70),
{
}

/// A text without a whole number of pairs denotes no bytes, and neither does one with
/// a pair whose second half is no digit.
pub proof fn law_not_hexadecimal(text: Seq<char>)
    ensures
        encode_utf8(text).len() % 2 != 0 || encode_utf8(text).len() == 0 ==> decoded(text) is Err,
        decoded(text) matches Ok(bytes) ==> 2 * bytes.len() == encode_utf8(text).len(),
{
    lemma_pairs_len(encode_utf8(text));
}

proof fn lemma_pairs_len(digits: Seq<u8>)
    ensures
        pairs_value(digits) matches Some(bytes) ==> bytes.len() == digits.len() / 2,
    decreases digits.len(),
{
    if digits.len() >= 2 {
        lemma_pairs_len(digits.take(digits.len() - 2));
    }
}

/// The pages of the device control center are told by their names, and a request that
/// says nothing asks for the network.
pub proof fn law_names_of_pages(request: Seq<char>)
    ensures
        trim(request) == "bluetooth"@ ==> requested_route(request) == Ok::<RouteView, Seq<char>>(
            RouteView { page: DeviceControlCenterPage::Bluetooth, ssid: None },
        ),
        trim(request) == "display"@ ==> requested_route(request) == Ok::<RouteView, Seq<char>>(
            RouteView { page: DeviceControlCenterPage::Display, ssid: None },
        ),
        trim(request) == "network"@ || trim(request).len() == 0 ==> requested_route(request)
            == Ok::<RouteView, Seq<char>>(
            RouteView { page: DeviceControlCenterPage::Network, ssid: None },
        ),
{
    reveal_strlit("");
    reveal_strlit("network");
    reveal_strlit("bluetooth");
    reveal_strlit("display");
    assert("network"@.len() == 7 && "bluetooth"@.len() == 9 && "display"@.len() == 7);
    assert("network"@[0] == 'n' && "display"@[0] == 'd');
    if trim(request).len() == 0 {
        assert(trim(request) =~= ""@);
    }
}

} // verus!
