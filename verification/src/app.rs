//! How the program is started: its options, what it is to run, and which files
//! and outputs it uses.

use vstd::prelude::*;
use vstd::string::*;
use vstd::utf8::encode_utf8;

use crate::bytes::{copy_bytes, same_bytes};
use crate::hyprland::display::OutputWallpaper;
use crate::paths::{join_path, joined};
use crate::routes::{
    clipboard_word, decode_hex_ssid, decoded, hex_text, law_clipboard_round_trip,
    law_hex_round_trip, law_switcher_round_trip,
    page_route, switcher_word, usage_error, with_usage, ClipboardCommand,
    DeviceControlCenterPage, DeviceControlCenterRoute, RouteView, SwitcherCommand, USAGE,
};
use crate::seqs::{first_index, lemma_first_index};
use crate::text::{
    ascii_lowercase, ascii_lowercase_text, concat, opt_view, owned, parse_i32, parse_signed, same,
    split_on, split_text, trim, trim_text, views,
};

verus! {

/// An argument of the command line: a text, or bytes that are none.
#[derive(Debug, PartialEq, Eq)]
pub enum Argument {
    Text(String),
    Raw(Vec<u8>),
}

/// An argument as contracts speak of it.
pub enum ArgumentView {
    Text(Seq<char>),
    Raw(Seq<u8>),
}

impl View for Argument {
    type V = ArgumentView;

    open spec fn view(&self) -> ArgumentView {
        match self {
            Argument::Text(s) => ArgumentView::Text(s@),
            Argument::Raw(b) => ArgumentView::Raw(b@),
        }
    }
}

impl Clone for Argument {
    fn clone(&self) -> (r: Self)
        ensures
            r@ == self@,
    {
        match self {
            Argument::Text(s) => Argument::Text(s.clone()),
            Argument::Raw(b) => Argument::Raw(copy_bytes(b)),
        }
    }
}

/// Arguments as contracts speak of them.
pub open spec fn argument_views(s: Seq<Argument>) -> Seq<ArgumentView> {
    s.map_values(|a: Argument| a@)
}

/// An argument that may be missing, as contracts speak of it.
pub open spec fn argument_view(a: Option<Argument>) -> Option<ArgumentView> {
    match a {
        Some(a) => Some(a@),
        None => None,
    }
}

/// Whether an argument is a certain text.
pub open spec fn is_text(a: ArgumentView, s: Seq<char>) -> bool {
    a == ArgumentView::Text(s)
}

impl Argument {
    /// Whether it is a certain text.
    pub fn is(&self, s: &str) -> (r: bool)
        ensures
            r == is_text(self@, s@),
    {
        match self {
            Argument::Text(t) => same(t.as_str(), s),
            Argument::Raw(_) => false,
        }
    }
}

/// What the program is to run.
#[derive(Debug, PartialEq, Eq)]
pub enum RunMode {
    Bar,
    ConfigWindow,
    DeviceControlCenter(DeviceControlCenterRoute),
    Notifications(Vec<Argument>),
    Switcher(SwitcherCommand),
    Clipboard(ClipboardCommand),
    Screenshot,
    Wallpaper,
    WallpaperSet(Argument),
    WallpaperUnset,
}

/// What the program is to run, as contracts speak of it.
pub enum RunModeView {
    Bar,
    ConfigWindow,
    DeviceControlCenter(RouteView),
    Notifications(Seq<ArgumentView>),
    Switcher(SwitcherCommand),
    Clipboard(ClipboardCommand),
    Screenshot,
    Wallpaper,
    WallpaperSet(ArgumentView),
    WallpaperUnset,
}

impl View for RunMode {
    type V = RunModeView;

    open spec fn view(&self) -> RunModeView {
        match self {
            RunMode::Bar => RunModeView::Bar,
            RunMode::ConfigWindow => RunModeView::ConfigWindow,
            RunMode::DeviceControlCenter(route) => RunModeView::DeviceControlCenter(route@),
            RunMode::Notifications(arguments) => RunModeView::Notifications(
                argument_views(arguments@),
            ),
            RunMode::Switcher(c) => RunModeView::Switcher(*c),
            RunMode::Clipboard(c) => RunModeView::Clipboard(*c),
            RunMode::Screenshot => RunModeView::Screenshot,
            RunMode::Wallpaper => RunModeView::Wallpaper,
            RunMode::WallpaperSet(path) => RunModeView::WallpaperSet(path@),
            RunMode::WallpaperUnset => RunModeView::WallpaperUnset,
        }
    }
}

/// The command of the window switcher that an argument stands for.
pub open spec fn switcher_command(a: ArgumentView) -> Option<SwitcherCommand> {
    if exists|c: SwitcherCommand| a == ArgumentView::Text(switcher_word(c)) {
        Some(choose|c: SwitcherCommand| a == ArgumentView::Text(switcher_word(c)))
    } else {
        None
    }
}

/// The command of the clipboard that an argument stands for.
pub open spec fn clipboard_command(a: ArgumentView) -> Option<ClipboardCommand> {
    if exists|c: ClipboardCommand| a == ArgumentView::Text(clipboard_word(c)) {
        Some(choose|c: ClipboardCommand| a == ArgumentView::Text(clipboard_word(c)))
    } else {
        None
    }
}

/// The bytes that an argument denotes in hexadecimal, or what is wrong with it.
pub open spec fn decoded_argument(a: ArgumentView) -> Result<Seq<u8>, Seq<char>> {
    match a {
        ArgumentView::Text(s) => decoded(s),
        ArgumentView::Raw(_) => Err(with_usage("--ssid-hex must be valid UTF-8"@)),
    }
}

/// What is to be run for the arguments that are no options, or what is wrong
/// with them.
pub open spec fn run_mode(s: Seq<ArgumentView>) -> Result<RunModeView, Seq<char>> {
    let network = page_route(DeviceControlCenterPage::Network);
    if s.len() == 0 {
        Ok(RunModeView::Bar)
    } else if is_text(s[0], "notifications"@) {
        Ok(RunModeView::Notifications(s.skip(1)))
    } else if s.len() == 2 && is_text(s[0], "switcher"@) {
        match switcher_command(s[1]) {
            Some(c) => Ok(RunModeView::Switcher(c)),
            None => Err(USAGE@),
        }
    } else if s.len() == 2 && is_text(s[0], "clipboard"@) {
        match clipboard_command(s[1]) {
            Some(c) => Ok(RunModeView::Clipboard(c)),
            None => Err(USAGE@),
        }
    } else if s.len() == 1 && is_text(s[0], "screenshot"@) {
        Ok(RunModeView::Screenshot)
    } else if s.len() == 2 && is_text(s[0], "window"@) && is_text(s[1], "config"@) {
        Ok(RunModeView::ConfigWindow)
    } else if s.len() >= 2 && is_text(s[0], "window"@) && is_text(s[1], "device-control-center"@)
        && s.len() != 4 && s.len() <= 5 {
        if s.len() == 2 {
            Ok(RunModeView::DeviceControlCenter(network))
        } else if s.len() == 3 && is_text(s[2], "network"@) {
            Ok(RunModeView::DeviceControlCenter(network))
        } else if s.len() == 3 && is_text(s[2], "bluetooth"@) {
            Ok(RunModeView::DeviceControlCenter(page_route(DeviceControlCenterPage::Bluetooth)))
        } else if s.len() == 3 && is_text(s[2], "display"@) {
            Ok(RunModeView::DeviceControlCenter(page_route(DeviceControlCenterPage::Display)))
        } else if s.len() == 5 && is_text(s[2], "network"@) && is_text(s[3], "--ssid-hex"@) {
            match decoded_argument(s[4]) {
                Ok(ssid) => Ok(
                    RunModeView::DeviceControlCenter(RouteView { ssid: Some(ssid), ..network }),
                ),
                Err(e) => Err(e),
            }
        } else {
            Err(USAGE@)
        }
    } else if s.len() == 1 && is_text(s[0], "wallpaper"@) {
        Ok(RunModeView::Wallpaper)
    } else if s.len() == 3 && is_text(s[0], "wallpaper"@) && is_text(s[1], "set"@) {
        Ok(RunModeView::WallpaperSet(s[2]))
    } else if s.len() == 2 && is_text(s[0], "wallpaper"@) && is_text(s[1], "unset"@) {
        Ok(RunModeView::WallpaperUnset)
    } else {
        Err(USAGE@)
    }
}

/// Whether an outcome is the one that is specified.
pub open spec fn is_mode(
    r: Result<RunMode, String>,
    expected: Result<RunModeView, Seq<char>>,
) -> bool {
    match r {
        Ok(mode) => expected == Ok::<RunModeView, Seq<char>>(mode@),
        Err(e) => expected == Err::<RunModeView, Seq<char>>(e@),
    }
}

/// The arguments behind the first.
fn rest_of(arguments: &Vec<Argument>) -> (r: Vec<Argument>)
    requires
        arguments@.len() > 0,
    ensures
        argument_views(r@) == argument_views(arguments@).skip(1),
{
    let mut out: Vec<Argument> = Vec::new();
    let ghost all = argument_views(arguments@);
    let mut i: usize = 1;
    while i < arguments.len()
        invariant
            1 <= i <= arguments.len(),
            all == argument_views(arguments@),
            argument_views(out@) =~= all.subrange(1, i as int),
        decreases arguments.len() - i,
    {
        let ghost before = out@;
        let next = arguments[i].clone();
        out.push(next);
        proof {
            assert(argument_views(out@) =~= argument_views(before).push(next@));
            assert(all.subrange(1, i + 1) =~= all.subrange(1, i as int).push(all[i as int]));
        }
        i += 1;
    }
    proof {
        assert(all.subrange(1, i as int) =~= all.skip(1));
    }
    out
}

/// What the switcher is told by an argument.
fn switcher_mode(argument: &Argument) -> (r: Result<RunMode, String>)
    ensures
        is_mode(
            r,
            match switcher_command(argument@) {
                Some(c) => Ok(RunModeView::Switcher(c)),
                None => Err(USAGE@),
            },
        ),
{
    match argument {
        Argument::Text(s) => match SwitcherCommand::parse(s.as_str()) {
            Some(c) => {
                proof {
                    assert(argument@ == ArgumentView::Text(switcher_word(c)));
                    let d = choose|d: SwitcherCommand|
                        argument@ == ArgumentView::Text(switcher_word(d));
                    law_switcher_round_trip(c, d);
                }
                Ok(RunMode::Switcher(c))
            },
            None => Err(owned(USAGE)),
        },
        Argument::Raw(_) => Err(owned(USAGE)),
    }
}

/// What the clipboard is told by an argument.
fn clipboard_mode(argument: &Argument) -> (r: Result<RunMode, String>)
    ensures
        is_mode(
            r,
            match clipboard_command(argument@) {
                Some(c) => Ok(RunModeView::Clipboard(c)),
                None => Err(USAGE@),
            },
        ),
{
    match argument {
        Argument::Text(s) => match ClipboardCommand::parse(s.as_str()) {
            Some(c) => {
                proof {
                    assert(argument@ == ArgumentView::Text(clipboard_word(c)));
                    let d = choose|d: ClipboardCommand|
                        argument@ == ArgumentView::Text(clipboard_word(d));
                    law_clipboard_round_trip(c, d);
                }
                Ok(RunMode::Clipboard(c))
            },
            None => Err(owned(USAGE)),
        },
        Argument::Raw(_) => Err(owned(USAGE)),
    }
}

/// The page that is to be shown with a network selected.
fn selected_network_mode(argument: &Argument) -> (r: Result<RunMode, String>)
    ensures
        is_mode(
            r,
            match decoded_argument(argument@) {
                Ok(ssid) => Ok(
                    RunModeView::DeviceControlCenter(
                        RouteView { page: DeviceControlCenterPage::Network, ssid: Some(ssid) },
                    ),
                ),
                Err(e) => Err(e),
            },
        ),
{
    match argument {
        Argument::Text(s) => match decode_hex_ssid(s.as_str()) {
            Ok(ssid) => Ok(
                RunMode::DeviceControlCenter(
                    DeviceControlCenterRoute {
                        page: DeviceControlCenterPage::Network,
                        ssid: Some(ssid),
                    },
                ),
            ),
            Err(e) => Err(e),
        },
        Argument::Raw(_) => Err(usage_error("--ssid-hex must be valid UTF-8")),
    }
}

impl RunMode {
    /// What is to be run for the arguments that are no options.
    pub fn from_args(arguments: &Vec<Argument>) -> (r: Result<Self, String>)
        ensures
            is_mode(r, run_mode(argument_views(arguments@))),
    {
        let n = arguments.len();
        let ghost s = argument_views(arguments@);
        proof {
            assert(s.len() == n);
            assert(forall|i: int| 0 <= i < n ==> #[trigger] s[i] == arguments@[i]@);
        }
        if n == 0 {
            return Ok(RunMode::Bar);
        }
        if arguments[0].is("notifications") {
            return Ok(RunMode::Notifications(rest_of(arguments)));
        }
        if n == 2 && arguments[0].is("switcher") {
            return switcher_mode(&arguments[1]);
        }
        if n == 2 && arguments[0].is("clipboard") {
            return clipboard_mode(&arguments[1]);
        }
        if n == 1 && arguments[0].is("screenshot") {
            return Ok(RunMode::Screenshot);
        }
        if n == 2 && arguments[0].is("window") && arguments[1].is("config") {
            return Ok(RunMode::ConfigWindow);
        }
        if n >= 2 && arguments[0].is("window") && arguments[1].is("device-control-center") && n != 4
            && n <= 5 {
            if n == 2 || (n == 3 && arguments[2].is("network")) {
                return Ok(RunMode::DeviceControlCenter(DeviceControlCenterRoute::default()));
            }
            if n == 3 && arguments[2].is("bluetooth") {
                return Ok(
                    RunMode::DeviceControlCenter(
                        DeviceControlCenterRoute {
                            page: DeviceControlCenterPage::Bluetooth,
                            ssid: None,
                        },
                    ),
                );
            }
            if n == 3 && arguments[2].is("display") {
                return Ok(
                    RunMode::DeviceControlCenter(
                        DeviceControlCenterRoute {
                            page: DeviceControlCenterPage::Display,
                            ssid: None,
                        },
                    ),
                );
            }
            if n == 5 && arguments[2].is("network") && arguments[3].is("--ssid-hex") {
                return selected_network_mode(&arguments[4]);
            }
            return Err(owned(USAGE));
        }
        if n == 1 && arguments[0].is("wallpaper") {
            return Ok(RunMode::Wallpaper);
        }
        if n == 3 && arguments[0].is("wallpaper") && arguments[1].is("set") {
            return Ok(RunMode::WallpaperSet(arguments[2].clone()));
        }
        if n == 2 && arguments[0].is("wallpaper") && arguments[1].is("unset") {
            return Ok(RunMode::WallpaperUnset);
        }
        Err(owned(USAGE))
    }
}

/// Options that are applied before anything is drawn.
#[derive(Debug, PartialEq, Eq)]
pub struct StartupOptions {
    pub mode: RunMode,
    pub memory_usage: bool,
    pub wgpu_backend: Option<String>,
    pub vk_driver_files: Option<Argument>,
}

/// The names of the graphics backends.
pub open spec fn is_backend(name: Seq<char>) -> bool {
    ||| name == "vulkan"@
    ||| name == "vk"@
    ||| name == "dx12"@
    ||| name == "d3d12"@
    ||| name == "metal"@
    ||| name == "mtl"@
    ||| name == "opengl"@
    ||| name == "gles"@
    ||| name == "gl"@
    ||| name == "webgpu"@
    ||| name == "noop"@
}

/// Whether a text lists graphics backends: at least one, and nothing else.
pub open spec fn are_backends(value: Seq<char>) -> bool {
    &&& value.len() > 0
    &&& forall|i: int|
        0 <= i < split_on(value, ',').len() ==> is_backend(
            ascii_lowercase(trim(#[trigger] split_on(value, ',')[i])),
        )
}

/// What is wrong with a list of graphics backends.
pub open spec fn backends_error(a: ArgumentView) -> Option<Seq<char>> {
    match a {
        ArgumentView::Raw(_) => Some(with_usage("--wgpu-backend must be valid UTF-8"@)),
        ArgumentView::Text(s) => if are_backends(s) {
            None
        } else {
            Some(with_usage("--wgpu-backend contains an unknown backend: "@ + s))
        },
    }
}

/// Whether a text names a graphics backend.
fn names_backend(name: &str) -> (r: bool)
    ensures
        r == is_backend(name@),
{
    same(name, "vulkan") || same(name, "vk") || same(name, "dx12") || same(name, "d3d12") || same(
        name,
        "metal",
    ) || same(name, "mtl") || same(name, "opengl") || same(name, "gles") || same(name, "gl")
        || same(name, "webgpu") || same(name, "noop")
}

/// Whether an argument lists graphics backends; the list where it does.
pub fn validate_wgpu_backend(value: &Argument) -> (r: Result<String, String>)
    ensures
        match r {
            Ok(s) => backends_error(value@) is None && value@ == ArgumentView::Text(s@),
            Err(e) => backends_error(value@) == Some(e@),
        },
{
    let text = match value {
        Argument::Raw(_) => {
            return Err(usage_error("--wgpu-backend must be valid UTF-8"));
        },
        Argument::Text(text) => text,
    };
    let ghost items = split_on(text@, ',');
    let mut valid = text.as_str().unicode_len() > 0;
    let parts = split_text(text.as_str(), ',');
    let mut i: usize = 0;
    while i < parts.len()
        invariant
            i <= parts.len(),
            items == views(parts@),
            items == split_on(text@, ','),
            valid == (text@.len() > 0 && forall|j: int|
                0 <= j < i ==> is_backend(ascii_lowercase(trim(#[trigger] items[j])))),
        decreases parts.len() - i,
    {
        proof {
            assert(items[i as int] == parts@[i as int]@);
        }
        let name = ascii_lowercase_text(trim_text(parts[i].as_str()).as_str());
        let known = names_backend(name.as_str());
        proof {
            if !known {
                assert(!is_backend(ascii_lowercase(trim(items[i as int]))));
            }
        }
        valid = valid && known;
        i += 1;
    }
    if valid {
        Ok(text.clone())
    } else {
        Err(
            usage_error(
                concat("--wgpu-backend contains an unknown backend: ", text.as_str()).as_str(),
            ),
        )
    }
}

/// What was read of the command line so far.
pub struct Scan {
    pub positional: Seq<ArgumentView>,
    pub memory: bool,
    pub backend: Option<Seq<char>>,
    pub driver: Option<ArgumentView>,
}

/// Whether an argument asks for memory to be logged.
pub open spec fn is_memory_flag(a: ArgumentView) -> bool {
    is_text(a, "--memusg"@) || is_text(a, "--bah-memusg"@) || is_text(a, "--bah_memusg"@)
}

/// Whether an argument announces the graphics backends.
pub open spec fn is_backend_flag(a: ArgumentView) -> bool {
    is_text(a, "--wgpu-backend"@) || is_text(a, "--wgpu_backend"@)
}

/// Whether an argument announces the driver's files.
pub open spec fn is_driver_flag(a: ArgumentView) -> bool {
    is_text(a, "--vk-driver-files"@) || is_text(a, "--vk_driver_files"@)
}

/// Whether an argument is empty.
pub open spec fn is_empty_argument(a: ArgumentView) -> bool {
    match a {
        ArgumentView::Text(s) => s.len() == 0,
        ArgumentView::Raw(b) => b.len() == 0,
    }
}

/// What the rest of the command line adds to what was read, or what is wrong
/// with it. Options may stand anywhere, each at most once.
pub open spec fn scanned(rest: Seq<ArgumentView>, scan: Scan) -> Result<Scan, Seq<char>>
    decreases rest.len(),
{
    if rest.len() == 0 {
        Ok(scan)
    } else if is_memory_flag(rest[0]) {
        if scan.memory {
            Err(with_usage("--memusg may only be specified once"@))
        } else {
            scanned(rest.skip(1), Scan { memory: true, ..scan })
        }
    } else if is_backend_flag(rest[0]) {
        if scan.backend is Some {
            Err(with_usage("--wgpu-backend may only be specified once"@))
        } else if rest.len() < 2 {
            Err(with_usage("--wgpu-backend requires a value"@))
        } else {
            match (backends_error(rest[1]), rest[1]) {
                (Some(e), _) => Err(e),
                (None, ArgumentView::Text(s)) => scanned(
                    rest.skip(2),
                    Scan { backend: Some(s), ..scan },
                ),
                (None, ArgumentView::Raw(_)) => Err(
                    with_usage("--wgpu-backend must be valid UTF-8"@),
                ),
            }
        }
    } else if is_driver_flag(rest[0]) {
        if scan.driver is Some {
            Err(with_usage("--vk-driver-files may only be specified once"@))
        } else if rest.len() < 2 {
            Err(with_usage("--vk-driver-files requires a path"@))
        } else if is_empty_argument(rest[1]) {
            Err(with_usage("--vk-driver-files requires a non-empty path"@))
        } else {
            scanned(rest.skip(2), Scan { driver: Some(rest[1]), ..scan })
        }
    } else {
        scanned(rest.skip(1), Scan { positional: scan.positional.push(rest[0]), ..scan })
    }
}

/// What was read before anything is read.
pub open spec fn nothing_scanned() -> Scan {
    Scan { positional: Seq::empty(), memory: false, backend: None, driver: None }
}

/// Whether an outcome is the one that the command line gives.
pub open spec fn is_startup(r: Result<StartupOptions, String>, s: Seq<ArgumentView>) -> bool {
    match scanned(s, nothing_scanned()) {
        Err(e) => r is Err && r->Err_0@ == e,
        Ok(scan) => match run_mode(scan.positional) {
            Err(e) => r is Err && r->Err_0@ == e,
            Ok(mode) => {
                &&& r is Ok
                &&& r->Ok_0.mode@ == mode
                &&& r->Ok_0.memory_usage == scan.memory
                &&& opt_view(r->Ok_0.wgpu_backend) == scan.backend
                &&& argument_view(r->Ok_0.vk_driver_files) == scan.driver
            },
        },
    }
}

impl StartupOptions {
    /// The options and the mode that a command line gives.
    pub fn from_args(arguments: &Vec<Argument>) -> (r: Result<Self, String>)
        ensures
            is_startup(r, argument_views(arguments@)),
    {
        let ghost all = argument_views(arguments@);
        let mut positional: Vec<Argument> = Vec::new();
        let mut memory_usage = false;
        let mut wgpu_backend: Option<String> = None;
        let mut vk_driver_files: Option<Argument> = None;
        let mut i: usize = 0;
        proof {
            assert(all.skip(0) =~= all);
            assert(argument_views(positional@) =~= Seq::empty());
        }
        while i < arguments.len()
            invariant
                i <= arguments.len(),
                all == argument_views(arguments@),
                scanned(all, nothing_scanned()) == scanned(
                    all.skip(i as int),
                    Scan {
                        positional: argument_views(positional@),
                        memory: memory_usage,
                        backend: opt_view(wgpu_backend),
                        driver: argument_view(vk_driver_files),
                    },
                ),
            decreases arguments.len() - i,
        {
            let argument = &arguments[i];
            proof {
                let rest = all.skip(i as int);
                assert(rest[0] == all[i as int]);
                assert(all[i as int] == arguments@[i as int]@);
                assert(rest.skip(1) =~= all.skip(i + 1));
                if i + 1 < arguments@.len() {
                    assert(rest[1] == arguments@[i + 1]@);
                    assert(rest.skip(2) =~= all.skip(i + 2));
                }
            }
            if argument.is("--memusg") || argument.is("--bah-memusg") || argument.is(
                "--bah_memusg",
            ) {
                if memory_usage {
                    return Err(usage_error("--memusg may only be specified once"));
                }
                memory_usage = true;
                i += 1;
            } else if argument.is("--wgpu-backend") || argument.is("--wgpu_backend") {
                if wgpu_backend.is_some() {
                    return Err(usage_error("--wgpu-backend may only be specified once"));
                }
                if i + 1 >= arguments.len() {
                    return Err(usage_error("--wgpu-backend requires a value"));
                }
                match validate_wgpu_backend(&arguments[i + 1]) {
                    Ok(value) => {
                        wgpu_backend = Some(value);
                    },
                    Err(e) => {
                        return Err(e);
                    },
                }
                i += 2;
            } else if argument.is("--vk-driver-files") || argument.is("--vk_driver_files") {
                if vk_driver_files.is_some() {
                    return Err(usage_error("--vk-driver-files may only be specified once"));
                }
                if i + 1 >= arguments.len() {
                    return Err(usage_error("--vk-driver-files requires a path"));
                }
                let empty = match &arguments[i + 1] {
                    Argument::Text(s) => s.as_str().is_empty(),
                    Argument::Raw(b) => b.len() == 0,
                };
                if empty {
                    return Err(usage_error("--vk-driver-files requires a non-empty path"));
                }
                vk_driver_files = Some(arguments[i + 1].clone());
                i += 2;
            } else {
                let ghost before = positional@;
                let next = argument.clone();
                positional.push(next);
                proof {
                    assert(argument_views(positional@) =~= argument_views(before).push(next@));
                }
                i += 1;
            }
        }
        match RunMode::from_args(&positional) {
            Ok(mode) => Ok(StartupOptions { mode, memory_usage, wgpu_backend, vk_driver_files }),
            Err(e) => Err(e),
        }
    }
}

/// Whether there is any wallpaper to show: one for all outputs, or one for some.
pub fn wallpaper_is_configured(
    wallpaper: &Option<String>,
    wallpapers: &Vec<OutputWallpaper>,
) -> (r: bool)
    ensures
        r == (wallpaper is Some || wallpapers@.len() > 0),
{
    wallpaper.is_some() || wallpapers.len() > 0
}

/// The number of the process that shows the wallpaper, from the file in which
/// it is noted.
pub fn wallpaper_pid(contents: &str) -> (r: Option<i32>)
    ensures
        match r {
            Some(n) => parse_signed(trim(contents@), i32::MIN as int, i32::MAX as int) == Some(
                n as int,
            ),
            None => parse_signed(trim(contents@), i32::MIN as int, i32::MAX as int) is None,
        },
{
    parse_i32(trim_text(contents).as_str())
}

/// The pieces of bytes between zeros.
pub open spec fn between_zeros(bytes: Seq<u8>) -> Seq<Seq<u8>>
    decreases bytes.len(),
{
    if bytes.len() == 0 {
        seq![Seq::empty()]
    } else {
        let before = between_zeros(bytes.drop_last());
        if bytes.last() == 0 {
            before.push(Seq::empty())
        } else {
            before.update(before.len() - 1, before.last().push(bytes.last()))
        }
    }
}

/// Whether a command line is that of a process that shows the wallpaper.
pub fn runs_wallpaper(command_line: &Vec<u8>) -> (r: bool)
    ensures
        r == between_zeros(command_line@).contains(encode_utf8("wallpaper"@)),
{
    let wanted = "wallpaper".as_bytes();
    let ghost w = encode_utf8("wallpaper"@);
    let ghost bytes = command_line@;
    let mut found = false;
    let mut piece: Vec<u8> = Vec::new();
    let mut i: usize = 0;
    proof {
        assert(bytes.take(0) =~= Seq::empty());
    }
    while i < command_line.len()
        invariant
            i <= command_line.len(),
            bytes == command_line@,
            wanted@ == w,
            between_zeros(bytes.take(i as int)).len() > 0,
            between_zeros(bytes.take(i as int)).last() == piece@,
            found == between_zeros(bytes.take(i as int)).drop_last().contains(w),
        decreases command_line.len() - i,
    {
        let ghost pieces = between_zeros(bytes.take(i as int));
        let ghost next = between_zeros(bytes.take(i + 1));
        proof {
            assert(bytes.take(i + 1).drop_last() =~= bytes.take(i as int));
        }
        if command_line[i] == 0 {
            let here = is_slice(&piece, wanted);
            proof {
                assert(next.drop_last() =~= pieces);
                lemma_contains_last(pieces, w);
            }
            found = found || here;
            piece = Vec::new();
        } else {
            piece.push(command_line[i]);
            proof {
                assert(next.drop_last() =~= pieces.drop_last());
            }
        }
        i += 1;
    }
    proof {
        assert(bytes.take(i as int) =~= bytes);
        lemma_contains_last(between_zeros(bytes), w);
    }
    found || is_slice(&piece, wanted)
}

proof fn lemma_contains_last(s: Seq<Seq<u8>>, w: Seq<u8>)
    requires
        s.len() > 0,
    ensures
        s.contains(w) == (s.drop_last().contains(w) || s.last() == w),
{
    if s.drop_last().contains(w) {
        let i = choose|i: int| 0 <= i < s.drop_last().len() && s.drop_last()[i] == w;
        assert(s[i] == w);
    }
    if s.contains(w) && s.last() != w {
        let i = choose|i: int| 0 <= i < s.len() && s[i] == w;
        assert(s.drop_last()[i] == w);
    }
    if s.last() == w {
        assert(s[s.len() - 1] == w);
    }
}

/// Whether some bytes are those of a slice.
fn is_slice(a: &Vec<u8>, b: &[u8]) -> (r: bool)
    ensures
        r == (a@ == b@),
{
    if a.len() != b.len() {
        return false;
    }
    let mut i: usize = 0;
    while i < a.len()
        invariant
            i <= a.len(),
            a.len() == b.len(),
            forall|j: int| 0 <= j < i ==> a@[j] == b@[j],
        decreases a.len() - i,
    {
        if a[i] != b[i] {
            return false;
        }
        i += 1;
    }
    proof {
        assert(a@ =~= b@);
    }
    true
}

/// The path of a file that lives as long as the session: below the session's
/// directory, or else below the one for temporary files.
pub fn runtime_lock_path(runtime_directory: Option<&str>, temporary: &str, name: &str) -> (r:
    String)
    ensures
        r@ == joined(
            match runtime_directory {
                Some(d) => d@,
                None => temporary@,
            },
            name@,
        ),
{
    match runtime_directory {
        Some(directory) => join_path(directory, name),
        None => join_path(temporary, name),
    }
}

/// The path of the log: the one that is asked for, or one below the directory
/// for states.
pub open spec fn log_path(
    file: Option<Seq<char>>,
    state_home: Option<Seq<char>>,
    home: Option<Seq<char>>,
) -> Seq<char> {
    match (file, state_home, home) {
        (Some(f), _, _) => f,
        (None, Some(s), _) => joined(s, "bah/bah.log"@),
        (None, None, Some(h)) => joined(joined(h, ".local/state"@), "bah/bah.log"@),
        (None, None, None) => joined("/tmp"@, "bah/bah.log"@),
    }
}

/// A text that may be missing, as contracts speak of it.
pub open spec fn str_view(s: Option<&str>) -> Option<Seq<char>> {
    match s {
        Some(s) => Some(s@),
        None => None,
    }
}

/// The path of the log.
pub fn log_file_path(file: Option<&str>, state_home: Option<&str>, home: Option<&str>) -> (r: String)
    ensures
        r@ == log_path(str_view(file), str_view(state_home), str_view(home)),
{
    if let Some(file) = file {
        return owned(file);
    }
    let state = match state_home {
        Some(state) => owned(state),
        None => match home {
            Some(home) => join_path(home, ".local/state"),
            None => owned("/tmp"),
        },
    };
    join_path(state.as_str(), "bah/bah.log")
}

/// The identifier by which an output of a name is known.
pub uninterp spec fn output_identifier(name: Seq<u8>) -> Seq<u8>;

/// `uuid::Uuid::new_v5` in the namespace of domain names: the bytes of the
/// identifier that it makes of the bytes of a name; the name stands for them.
#[verifier::external_body]
fn output_identifier_of(name: &[u8]) -> (r: Vec<u8>)
    ensures
        r@ == output_identifier(name@),
{
    uuid::Uuid::new_v5(&uuid::Uuid::NAMESPACE_DNS, name).as_bytes().to_vec()
}

/// Identifiers of displays, as contracts speak of them.
pub open spec fn identifier_views(s: Seq<Option<Vec<u8>>>) -> Seq<Option<Seq<u8>>> {
    s.map_values(
        |d: Option<Vec<u8>>|
            match d {
                Some(b) => Some(b@),
                None => None,
            },
    )
}

/// The index of the first display that has an identifier.
pub open spec fn display_with(displays: Seq<Option<Seq<u8>>>, id: Seq<u8>) -> Option<nat> {
    let at = first_index(displays, |d: Option<Seq<u8>>| d == Some(id));
    if at < displays.len() {
        Some(at)
    } else {
        None
    }
}

/// The index of the first display that has an identifier.
pub fn display_with_identifier(displays: &Vec<Option<Vec<u8>>>, id: &Vec<u8>) -> (r: Option<usize>)
    ensures
        match r {
            Some(at) => display_with(identifier_views(displays@), id@) == Some(at as nat),
            None => display_with(identifier_views(displays@), id@) is None,
        },
{
    let ghost ds = identifier_views(displays@);
    let ghost p = |d: Option<Seq<u8>>| d == Some(id@);
    let mut i: usize = 0;
    while i < displays.len()
        invariant
            i <= displays.len(),
            ds == identifier_views(displays@),
            p == (|d: Option<Seq<u8>>| d == Some(id@)),
            forall|j: int| 0 <= j < i ==> !p(#[trigger] ds[j]),
        decreases displays.len() - i,
    {
        let here = match &displays[i] {
            Some(other) => same_bytes(other, id),
            None => false,
        };
        if here {
            proof {
                lemma_first_index(ds, p, i as nat);
            }
            return Some(i);
        }
        i += 1;
    }
    proof {
        lemma_first_index(ds, p, i as nat);
    }
    None
}

/// The index of the display that shows an output.
pub fn display_id_for_output(displays: &Vec<Option<Vec<u8>>>, output: &str) -> (r: Option<usize>)
    ensures
        match r {
            Some(at) => display_with(
                identifier_views(displays@),
                output_identifier(encode_utf8(output@)),
            ) == Some(at as nat),
            None => display_with(
                identifier_views(displays@),
                output_identifier(encode_utf8(output@)),
            ) is None,
        },
{
    let id = output_identifier_of(output.as_bytes());
    display_with_identifier(displays, &id)
}

/// Whether every output that a surface is for is shown by some display.
pub fn wallpaper_outputs_ready(
    displays: &Vec<Option<Vec<u8>>>,
    outputs: &Vec<Option<String>>,
) -> (r: bool)
    ensures
        r == forall|i: int|
            0 <= i < outputs@.len() ==> ((#[trigger] outputs@[i]) is Some ==> display_with(
                identifier_views(displays@),
                output_identifier(encode_utf8(outputs@[i]->0@)),
            ) is Some),
{
    let mut i: usize = 0;
    while i < outputs.len()
        invariant
            i <= outputs.len(),
            forall|j: int|
                0 <= j < i ==> ((#[trigger] outputs@[j]) is Some ==> display_with(
                    identifier_views(displays@),
                    output_identifier(encode_utf8(outputs@[j]->0@)),
                ) is Some),
        decreases outputs.len() - i,
    {
        if let Some(output) = &outputs[i] {
            if display_id_for_output(displays, output.as_str()).is_none() {
                proof {
                    assert(outputs@[i as int] is Some);
                }
                return false;
            }
        }
        i += 1;
    }
    true
}

/// The name by which the compositor knows the layer of a wallpaper.
pub fn wallpaper_namespace(output: &Option<String>) -> (r: String)
    ensures
        r@ == match output {
            Some(o) => "bah-wallpaper-"@ + o@,
            None => "bah-wallpaper"@,
        },
{
    match output {
        Some(output) => concat("bah-wallpaper-", output.as_str()),
        None => owned("bah-wallpaper"),
    }
}

/// Arguments that are no options stand where they stood: with none of the
/// options among them nothing is wrong with a command line before its mode is
/// looked at.
pub proof fn law_plain_arguments(s: Seq<ArgumentView>, scan: Scan)
    requires
        plain(s),
    ensures
        scanned(s, scan) == Ok::<Scan, Seq<char>>(
            Scan { positional: scan.positional + s, ..scan },
        ),
    decreases s.len(),
{
    if s.len() == 0 {
        assert(scan.positional + s =~= scan.positional);
    } else {
        let rest = s.skip(1);
        assert forall|i: int| 0 <= i < rest.len() implies !is_memory_flag(#[trigger] rest[i])
            && !is_backend_flag(rest[i]) && !is_driver_flag(rest[i]) by {
            assert(rest[i] == s[i + 1]);
        }
        law_plain_arguments(rest, Scan { positional: scan.positional.push(s[0]), ..scan });
        assert(scan.positional.push(s[0]) + rest =~= scan.positional + s);
    }
}

/// Whether no argument is an option.
pub open spec fn plain(s: Seq<ArgumentView>) -> bool {
    forall|i: int|
        0 <= i < s.len() ==> !is_memory_flag(#[trigger] s[i]) && !is_backend_flag(s[i])
            && !is_driver_flag(s[i])
}

/// The options have different names.
proof fn lemma_flags_differ(flag: ArgumentView)
    ensures
        is_memory_flag(flag) ==> !is_backend_flag(flag) && !is_driver_flag(flag),
        is_backend_flag(flag) ==> !is_driver_flag(flag),
{
    reveal_strlit("--memusg");
    reveal_strlit("--bah-memusg");
    reveal_strlit("--bah_memusg");
    reveal_strlit("--wgpu-backend");
    reveal_strlit("--wgpu_backend");
    reveal_strlit("--vk-driver-files");
    reveal_strlit("--vk_driver_files");
    assert("--memusg"@.len() == 8);
    assert("--bah-memusg"@.len() == 12);
    assert("--bah_memusg"@.len() == 12);
    assert("--wgpu-backend"@.len() == 14);
    assert("--wgpu_backend"@.len() == 14);
    assert("--vk-driver-files"@.len() == 17);
    assert("--vk_driver_files"@.len() == 17);
}

/// The driver option may stand anywhere among the arguments that are no options,
/// and always means the same.
pub proof fn law_driver_anywhere(
    before: Seq<ArgumentView>,
    flag: ArgumentView,
    value: ArgumentView,
    after: Seq<ArgumentView>,
)
    requires
        is_driver_flag(flag),
        !is_empty_argument(value),
        plain(before),
        plain(after),
    ensures
        scanned(before + (seq![flag, value] + after), nothing_scanned()) == Ok::<Scan, Seq<char>>(
            Scan { positional: before + after, driver: Some(value), ..nothing_scanned() },
        ),
{
    lemma_flags_differ(flag);
    let tail = seq![flag, value] + after;
    lemma_scan_prefix(before, tail, nothing_scanned());
    assert(nothing_scanned().positional + before =~= before);
    assert(tail[0] == flag && tail[1] == value);
    assert(tail.skip(2) =~= after);
    law_plain_arguments(
        after,
        Scan { positional: before, driver: Some(value), ..nothing_scanned() },
    );
}

/// The option of the graphics backends may stand anywhere among the arguments that
/// are no options, and always means the same.
pub proof fn law_backend_anywhere(
    before: Seq<ArgumentView>,
    flag: ArgumentView,
    value: Seq<char>,
    after: Seq<ArgumentView>,
)
    requires
        is_backend_flag(flag),
        backends_error(ArgumentView::Text(value)) is None,
        plain(before),
        plain(after),
    ensures
        scanned(
            before + (seq![flag, ArgumentView::Text(value)] + after),
            nothing_scanned(),
        ) == Ok::<Scan, Seq<char>>(
            Scan { positional: before + after, backend: Some(value), ..nothing_scanned() },
        ),
{
    lemma_flags_differ(flag);
    let tail = seq![flag, ArgumentView::Text(value)] + after;
    lemma_scan_prefix(before, tail, nothing_scanned());
    assert(nothing_scanned().positional + before =~= before);
    assert(tail[0] == flag && tail[1] == ArgumentView::Text(value));
    assert(tail.skip(2) =~= after);
    law_plain_arguments(
        after,
        Scan { positional: before, backend: Some(value), ..nothing_scanned() },
    );
}

/// The option of the memory usage may stand anywhere among the arguments that are
/// no options, and always means the same.
pub proof fn law_memory_anywhere(
    before: Seq<ArgumentView>,
    flag: ArgumentView,
    after: Seq<ArgumentView>,
)
    requires
        is_memory_flag(flag),
        plain(before),
        plain(after),
    ensures
        scanned(before + (seq![flag] + after), nothing_scanned()) == Ok::<Scan, Seq<char>>(
            Scan { positional: before + after, memory: true, ..nothing_scanned() },
        ),
{
    let tail = seq![flag] + after;
    lemma_scan_prefix(before, tail, nothing_scanned());
    assert(nothing_scanned().positional + before =~= before);
    assert(tail[0] == flag);
    assert(tail.skip(1) =~= after);
    law_plain_arguments(after, Scan { positional: before, memory: true, ..nothing_scanned() });
}

/// Arguments that are no options are read one after the other.
proof fn lemma_scan_prefix(s: Seq<ArgumentView>, tail: Seq<ArgumentView>, scan: Scan)
    requires
        plain(s),
    ensures
        scanned(s + tail, scan) == scanned(
            tail,
            Scan { positional: scan.positional + s, ..scan },
        ),
    decreases s.len(),
{
    if s.len() == 0 {
        assert(s + tail =~= tail);
        assert(scan.positional + s =~= scan.positional);
    } else {
        let rest = s.skip(1);
        assert forall|i: int| 0 <= i < rest.len() implies !is_memory_flag(#[trigger] rest[i])
            && !is_backend_flag(rest[i]) && !is_driver_flag(rest[i]) by {
            assert(rest[i] == s[i + 1]);
        }
        lemma_scan_prefix(rest, tail, Scan { positional: scan.positional.push(s[0]), ..scan });
        assert((s + tail)[0] == s[0]);
        assert((s + tail).skip(1) =~= rest + tail);
        assert(scan.positional.push(s[0]) + rest =~= scan.positional + s);
    }
}

/// A word of the command line.
pub open spec fn word(s: Seq<char>) -> ArgumentView {
    ArgumentView::Text(s)
}

/// How it is told what is to be run.
pub open spec fn mode_told(m: RunModeView) -> Seq<ArgumentView> {
    match m {
        RunModeView::Bar => Seq::empty(),
        RunModeView::ConfigWindow => seq![word("window"@), word("config"@)],
        RunModeView::DeviceControlCenter(route) => match (route.page, route.ssid) {
            (DeviceControlCenterPage::Network, None) => seq![
                word("window"@),
                word("device-control-center"@),
                word("network"@),
            ],
            (DeviceControlCenterPage::Network, Some(ssid)) => seq![
                word("window"@),
                word("device-control-center"@),
                word("network"@),
                word("--ssid-hex"@),
                word(hex_text(ssid)),
            ],
            (DeviceControlCenterPage::Bluetooth, _) => seq![
                word("window"@),
                word("device-control-center"@),
                word("bluetooth"@),
            ],
            (DeviceControlCenterPage::Display, _) => seq![
                word("window"@),
                word("device-control-center"@),
                word("display"@),
            ],
        },
        RunModeView::Notifications(arguments) => seq![word("notifications"@)] + arguments,
        RunModeView::Switcher(c) => seq![word("switcher"@), word(switcher_word(c))],
        RunModeView::Clipboard(c) => seq![word("clipboard"@), word(clipboard_word(c))],
        RunModeView::Screenshot => seq![word("screenshot"@)],
        RunModeView::Wallpaper => seq![word("wallpaper"@)],
        RunModeView::WallpaperSet(path) => seq![word("wallpaper"@), word("set"@), path],
        RunModeView::WallpaperUnset => seq![word("wallpaper"@), word("unset"@)],
    }
}

/// The words that tell what is to be run differ.
proof fn lemma_mode_words()
    ensures
        "notifications"@ != "switcher"@ && "notifications"@ != "clipboard"@ && "notifications"@
            != "screenshot"@ && "notifications"@ != "window"@ && "notifications"@ != "wallpaper"@,
        "switcher"@ != "clipboard"@ && "switcher"@ != "screenshot"@ && "switcher"@ != "window"@
            && "switcher"@ != "wallpaper"@,
        "clipboard"@ != "screenshot"@ && "clipboard"@ != "window"@ && "clipboard"@ != "wallpaper"@,
        "screenshot"@ != "window"@ && "screenshot"@ != "wallpaper"@ && "window"@ != "wallpaper"@,
        "config"@ != "device-control-center"@,
        "network"@ != "bluetooth"@ && "network"@ != "display"@ && "bluetooth"@ != "display"@,
        "set"@ != "unset"@,
{
    reveal_strlit("notifications");
    reveal_strlit("switcher");
    reveal_strlit("clipboard");
    reveal_strlit("screenshot");
    reveal_strlit("window");
    reveal_strlit("wallpaper");
    reveal_strlit("config");
    reveal_strlit("device-control-center");
    reveal_strlit("network");
    reveal_strlit("bluetooth");
    reveal_strlit("display");
    reveal_strlit("set");
    reveal_strlit("unset");
    assert("notifications"@.len() == 13 && "switcher"@.len() == 8 && "clipboard"@.len() == 9);
    assert("screenshot"@.len() == 10 && "window"@.len() == 6 && "wallpaper"@.len() == 9);
    assert("clipboard"@[0] == 'c' && "wallpaper"@[0] == 'w');
    assert("config"@.len() == 6 && "device-control-center"@.len() == 21);
    assert("network"@.len() == 7 && "bluetooth"@.len() == 9 && "display"@.len() == 7);
    assert("network"@[0] == 'n' && "display"@[0] == 'd');
    assert("set"@.len() == 3 && "unset"@.len() == 5);
}

/// What is to be run is understood as it is told. What cannot be told is left out: a
/// selected network without a name, and one on a page that is not that of the network.
pub proof fn law_modes_are_understood(m: RunModeView)
    requires
        m matches RunModeView::DeviceControlCenter(route) ==> {
            &&& route.ssid matches Some(ssid) ==> ssid.len() > 0
            &&& route.page != DeviceControlCenterPage::Network ==> route.ssid is None
        },
    ensures
        run_mode(mode_told(m)) == Ok::<RunModeView, Seq<char>>(m),
{
    lemma_mode_words();
    match m {
        RunModeView::DeviceControlCenter(route) => {
            if let Some(ssid) = route.ssid {
                law_hex_round_trip(ssid);
            }
        },
        RunModeView::Notifications(arguments) => {
            assert(mode_told(m).skip(1) =~= arguments);
        },
        RunModeView::Switcher(c) => {
            let a = word(switcher_word(c));
            assert(a == ArgumentView::Text(switcher_word(c)));
            let d = choose|d: SwitcherCommand| a == ArgumentView::Text(switcher_word(d));
            law_switcher_round_trip(c, d);
        },
        RunModeView::Clipboard(c) => {
            let a = word(clipboard_word(c));
            assert(a == ArgumentView::Text(clipboard_word(c)));
            let d = choose|d: ClipboardCommand| a == ArgumentView::Text(clipboard_word(d));
            law_clipboard_round_trip(c, d);
        },
        _ => {},
    }
}

/// A first word that stands for nothing is refused.
pub proof fn law_unknown_mode(s: Seq<ArgumentView>)
    requires
        s.len() > 0,
        !is_text(s[0], "notifications"@),
        !is_text(s[0], "switcher"@),
        !is_text(s[0], "clipboard"@),
        !is_text(s[0], "screenshot"@),
        !is_text(s[0], "window"@),
        !is_text(s[0], "wallpaper"@),
    ensures
        run_mode(s) is Err,
{
}

/// An option that stands twice is refused, and so is one without the value that it
/// needs.
pub proof fn law_options_stand_once(a: ArgumentView, b: ArgumentView, v: ArgumentView)
    ensures
        is_memory_flag(a) && is_memory_flag(b) ==> scanned(seq![a, b], nothing_scanned()) is Err,
        is_driver_flag(a) && is_driver_flag(b) && !is_empty_argument(v) ==> scanned(
            seq![a, v, b, v],
            nothing_scanned(),
        ) is Err,
        is_driver_flag(a) || is_backend_flag(a) ==> scanned(seq![a], nothing_scanned()) is Err,
        is_driver_flag(a) && is_empty_argument(v) ==> scanned(
            seq![a, v],
            nothing_scanned(),
        ) is Err,
{
    lemma_flags_differ(a);
    lemma_flags_differ(b);
    reveal_with_fuel(scanned, 3);
    let twice = seq![a, b];
    assert(twice.skip(1) =~= seq![b]);
    assert(twice[0] == a && seq![b][0] == b);
    let driven = seq![a, v, b, v];
    assert(driven.skip(2) =~= seq![b, v]);
    assert(driven[0] == a && driven[1] == v && seq![b, v][0] == b);
}

/// The options and their other spellings.
pub proof fn law_names_of_options(s: Seq<char>)
    ensures
        is_memory_flag(word(s)) <==> seq!["--memusg"@, "--bah-memusg"@, "--bah_memusg"@].contains(s),
        is_backend_flag(word(s)) <==> seq!["--wgpu-backend"@, "--wgpu_backend"@].contains(s),
        is_driver_flag(word(s)) <==> seq!["--vk-driver-files"@, "--vk_driver_files"@].contains(s),
{
    let m = seq!["--memusg"@, "--bah-memusg"@, "--bah_memusg"@];
    let b = seq!["--wgpu-backend"@, "--wgpu_backend"@];
    let d = seq!["--vk-driver-files"@, "--vk_driver_files"@];
    assert(m[0] == "--memusg"@ && m[1] == "--bah-memusg"@ && m[2] == "--bah_memusg"@);
    assert(b[0] == "--wgpu-backend"@ && b[1] == "--wgpu_backend"@);
    assert(d[0] == "--vk-driver-files"@ && d[1] == "--vk_driver_files"@);
}

/// The graphics backends that can be asked for.
pub open spec fn backend_names() -> Seq<Seq<char>> {
    seq![
        "vulkan"@,
        "vk"@,
        "dx12"@,
        "d3d12"@,
        "metal"@,
        "mtl"@,
        "opengl"@,
        "gles"@,
        "gl"@,
        "webgpu"@,
        "noop"@,
    ]
}

/// A list of graphics backends is accepted where each of its items, without white space
/// and in any case, names one.
pub proof fn law_accepted_backends(value: Seq<char>)
    requires
        value.len() > 0,
    ensures
        are_backends(value) <==> forall|i: int|
            0 <= i < split_on(value, ',').len() ==> backend_names().contains(
                ascii_lowercase(trim(#[trigger] split_on(value, ',')[i])),
            ),
        are_backends(value) <==> backends_error(word(value)) is None,
        !are_backends(Seq::empty()),
{
    let names = backend_names();
    assert(names[0] == "vulkan"@);
    assert(names[1] == "vk"@);
    assert(names[2] == "dx12"@);
    assert(names[3] == "d3d12"@);
    assert(names[4] == "metal"@);
    assert(names[5] == "mtl"@);
    assert(names[6] == "opengl"@);
    assert(names[7] == "gles"@);
    assert(names[8] == "gl"@);
    assert(names[9] == "webgpu"@);
    assert(names[10] == "noop"@);
    assert(forall|s: Seq<char>| #[trigger] is_backend(s) <==> names.contains(s));
    if are_backends(value) {
        assert forall|i: int| 0 <= i < split_on(value, ',').len() implies names.contains(
            ascii_lowercase(trim(#[trigger] split_on(value, ',')[i])),
        ) by {
            assert(is_backend(ascii_lowercase(trim(split_on(value, ',')[i]))));
        }
    }
    if forall|i: int|
        0 <= i < split_on(value, ',').len() ==> names.contains(
            ascii_lowercase(trim(#[trigger] split_on(value, ',')[i])),
        ) {
        assert forall|i: int| 0 <= i < split_on(value, ',').len() implies is_backend(
            ascii_lowercase(trim(#[trigger] split_on(value, ',')[i])),
        ) by {
            assert(names.contains(ascii_lowercase(trim(split_on(value, ',')[i]))));
        }
    }
}

/// The pieces between zeros are the arguments that stand there: a zero parts what is
/// before it from what is behind it, and bytes without one are one piece.
pub proof fn law_pieces_between_zeros(a: Seq<u8>, b: Seq<u8>)
    ensures
        between_zeros(a + seq![0u8] + b) == between_zeros(a) + between_zeros(b),
        !a.contains(0u8) ==> between_zeros(a) == seq![a],
        between_zeros(a).len() > 0,
    decreases a.len() + b.len(),
{
    let all = a + seq![0u8] + b;
    if a.len() > 0 {
        law_pieces_between_zeros(a.drop_last(), Seq::empty());
        if !a.contains(0u8) {
            assert(!a.drop_last().contains(0u8)) by {
                if a.drop_last().contains(0u8) {
                    let k = choose|k: int| 0 <= k < a.drop_last().len() && a.drop_last()[k] == 0u8;
                    assert(a[k] == 0u8);
                }
            }
            assert(a.last() != 0) by {
                assert(a[a.len() - 1] == a.last());
            }
            assert(a.drop_last().push(a.last()) =~= a);
            assert(between_zeros(a) =~= seq![a]);
        }
    } else {
        assert(a =~= Seq::empty());
    }
    if b.len() == 0 {
        assert(all.drop_last() =~= a);
        assert(between_zeros(all) =~= between_zeros(a) + between_zeros(b));
    } else {
        law_pieces_between_zeros(a, b.drop_last());
        assert(all.drop_last() =~= a + seq![0u8] + b.drop_last());
        assert(all.last() == b.last());
        lemma_pieces_exist(b.drop_last());
        assert(between_zeros(all) =~= between_zeros(a) + between_zeros(b));
    }
}

proof fn lemma_pieces_exist(b: Seq<u8>)
    ensures
        between_zeros(b).len() > 0,
    decreases b.len(),
{
    if b.len() > 0 {
        lemma_pieces_exist(b.drop_last());
    }
}

/// The log goes where it is asked for, else below the directory for states, which by
/// default is below the home directory.
pub proof fn law_where_the_log_goes(
    file: Option<Seq<char>>,
    state_home: Option<Seq<char>>,
    home: Option<Seq<char>>,
)
    ensures
        file matches Some(f) ==> log_path(file, state_home, home) == f,
        file is None ==> (state_home matches Some(s) ==> log_path(file, state_home, home) == joined(
            s,
            "bah/bah.log"@,
        )),
        file is None && state_home is None ==> (home matches Some(h) ==> log_path(
            file,
            state_home,
            home,
        ) == joined(joined(h, ".local/state"@), "bah/bah.log"@)),
        file is None && state_home is None && home is None ==> log_path(file, state_home, home)
            == joined("/tmp"@, "bah/bah.log"@),
{
}

/// A display is found by its identifier: the first that has it.
pub proof fn law_display_is_found(displays: Seq<Option<Seq<u8>>>, id: Seq<u8>, at: int)
    requires
        0 <= at <= displays.len(),
        forall|j: int| 0 <= j < at ==> (#[trigger] displays[j]) != Some(id),
        at < displays.len() ==> displays[at] == Some(id),
    ensures
        display_with(displays, id) == if at < displays.len() {
            Some(at as nat)
        } else {
            None
        },
{
    lemma_first_index(displays, |d: Option<Seq<u8>>| d == Some(id), at as nat);
}

/// A program that is told nothing but what to run runs that, with no option set.
pub proof fn law_started_as_told(r: Result<StartupOptions, String>, m: RunModeView)
    requires
        is_startup(r, mode_told(m)),
        plain(mode_told(m)),
        m matches RunModeView::DeviceControlCenter(route) ==> {
            &&& route.ssid matches Some(ssid) ==> ssid.len() > 0
            &&& route.page != DeviceControlCenterPage::Network ==> route.ssid is None
        },
    ensures
        r is Ok,
        r->Ok_0.mode@ == m,
        !r->Ok_0.memory_usage,
        r->Ok_0.wgpu_backend is None,
        r->Ok_0.vk_driver_files is None,
{
    law_plain_arguments(mode_told(m), nothing_scanned());
    assert(nothing_scanned().positional + mode_told(m) =~= mode_told(m));
    law_modes_are_understood(m);
}

/// A program that is told its driver, its backends or to log its memory runs with them.
pub proof fn law_started_with_options(
    r: Result<StartupOptions, String>,
    a: ArgumentView,
    value: ArgumentView,
)
    ensures
        is_memory_flag(a) && is_startup(r, seq![a]) ==> r is Ok && r->Ok_0.memory_usage
            && r->Ok_0.mode@ == RunModeView::Bar,
        is_driver_flag(a) && !is_empty_argument(value) && is_startup(r, seq![a, value]) ==> r is Ok
            && argument_view(r->Ok_0.vk_driver_files) == Some(value) && r->Ok_0.mode@
            == RunModeView::Bar,
{
    let none = Seq::<ArgumentView>::empty();
    if is_memory_flag(a) {
        law_memory_anywhere(none, a, none);
        assert(none + (seq![a] + none) =~= seq![a]);
        assert(none + none =~= none);
    }
    if is_driver_flag(a) && !is_empty_argument(value) {
        law_driver_anywhere(none, a, value, none);
        assert(none + (seq![a, value] + none) =~= seq![a, value]);
        assert(none + none =~= none);
    }
}

} // verus!
