//! Screenshots of a part of the desktop: what was selected, which pixels that
//! is, and where the picture goes.

use vstd::prelude::*;
use vstd::string::*;

use crate::app::str_view;
use crate::hyprland::display::{DisplayLayout, Monitor};
use crate::paths::{join_path, joined};
use crate::seqs::{find_first, lemma_first_index};
use crate::text::{
    decimal, decimal_int, decimal_text, ends_with, law_decimal_int_round_trip, lines, owned, parse_i32, parse_signed, same, split_once,
    split_text_once, starts_with, text_lines, text_strip_prefix, text_strip_suffix, trim,
    trim_text, views,
};
use crate::text_laws::{law_nothing_to_trim, law_number_text, law_split_once};

verus! {

/// How the attempt to take a screenshot ended.
#[derive(Debug, PartialEq, Eq)]
pub enum ScreenshotResult {
    Saved { path: String, clipboard_copied: bool },
    Cancelled,
    Failed(String),
}

/// How an attempt ended: one that the user gave up is no failure.
pub fn capture_result(outcome: Result<(String, bool), String>) -> (r: ScreenshotResult)
    ensures
        match outcome {
            Ok((path, copied)) => r == (ScreenshotResult::Saved { path, clipboard_copied: copied }),
            Err(e) => if e@ == "selection cancelled"@ {
                r is Cancelled
            } else {
                r == ScreenshotResult::Failed(e)
            },
        },
{
    match outcome {
        Ok((path, clipboard_copied)) => ScreenshotResult::Saved { path, clipboard_copied },
        Err(error) => {
            if same(error.as_str(), "selection cancelled") {
                ScreenshotResult::Cancelled
            } else {
                ScreenshotResult::Failed(error)
            }
        },
    }
}

/// A part of the desktop.
#[derive(Clone, Copy, Debug, PartialEq, Eq, Structural)]
pub struct Selection {
    pub x: i32,
    pub y: i32,
    pub width: i32,
    pub height: i32,
}

/// A number of 32 bits with a sign.
pub open spec fn signed(s: Seq<char>) -> Option<int> {
    parse_signed(s, i32::MIN as int, i32::MAX as int)
}

/// What a text such as `-120,10 400x300` selects, or what is wrong with it.
pub open spec fn selected(value: Seq<char>) -> Result<Selection, Seq<char>> {
    match split_once(value, ' ') {
        None => Err("slurp returned an invalid selection geometry"@),
        Some((origin, size)) => match split_once(origin, ',') {
            None => Err("slurp returned an invalid selection origin"@),
            Some((x, y)) => match split_once(size, 'x') {
                None => Err("slurp returned an invalid selection size"@),
                Some((width, height)) => if signed(x) is None {
                    Err("slurp returned an invalid selection x"@)
                } else if signed(y) is None {
                    Err("slurp returned an invalid selection y"@)
                } else if signed(width) is None {
                    Err("slurp returned an invalid selection width"@)
                } else if signed(height) is None {
                    Err("slurp returned an invalid selection height"@)
                } else if signed(width)->0 <= 0 || signed(height)->0 <= 0 {
                    Err("selection cancelled"@)
                } else {
                    Ok(
                        Selection {
                            x: signed(x)->0 as i32,
                            y: signed(y)->0 as i32,
                            width: signed(width)->0 as i32,
                            height: signed(height)->0 as i32,
                        },
                    )
                },
            },
        },
    }
}

/// What a text selects.
pub fn parse_selection(value: &str) -> (r: Result<Selection, String>)
    ensures
        match r {
            Ok(s) => selected(value@) == Ok::<Selection, Seq<char>>(s),
            Err(e) => selected(value@) == Err::<Selection, Seq<char>>(e@),
        },
{
    let (origin, size) = match split_text_once(value, ' ') {
        None => {
            return Err(owned("slurp returned an invalid selection geometry"));
        },
        Some(pair) => pair,
    };
    let (x, y) = match split_text_once(origin.as_str(), ',') {
        None => {
            return Err(owned("slurp returned an invalid selection origin"));
        },
        Some(pair) => pair,
    };
    let (width, height) = match split_text_once(size.as_str(), 'x') {
        None => {
            return Err(owned("slurp returned an invalid selection size"));
        },
        Some(pair) => pair,
    };
    let x: i32 = match parse_i32(x.as_str()) {
        None => {
            return Err(owned("slurp returned an invalid selection x"));
        },
        Some(n) => n,
    };
    let y: i32 = match parse_i32(y.as_str()) {
        None => {
            return Err(owned("slurp returned an invalid selection y"));
        },
        Some(n) => n,
    };
    let width: i32 = match parse_i32(width.as_str()) {
        None => {
            return Err(owned("slurp returned an invalid selection width"));
        },
        Some(n) => n,
    };
    let height: i32 = match parse_i32(height.as_str()) {
        None => {
            return Err(owned("slurp returned an invalid selection height"));
        },
        Some(n) => n,
    };
    if width <= 0 || height <= 0 {
        return Err(owned("selection cancelled"));
    }
    Ok(Selection { x, y, width, height })
}

/// The sum of two numbers of 32 bits, kept within them.
pub open spec fn kept_sum(a: i32, b: i32) -> int {
    if a + b > i32::MAX {
        i32::MAX as int
    } else if a + b < i32::MIN {
        i32::MIN as int
    } else {
        a + b
    }
}

/// The sum of two numbers of 32 bits, kept within them.
fn kept_add(a: i32, b: i32) -> (r: i32)
    ensures
        r == kept_sum(a, b),
{
    let sum: i64 = a as i64 + b as i64;
    if sum > i32::MAX as i64 {
        i32::MAX
    } else if sum < i32::MIN as i64 {
        i32::MIN
    } else {
        sum as i32
    }
}

/// The least of an edge over some monitors.
pub open spec fn least_edge(s: Seq<Monitor>, edge: spec_fn(Monitor) -> int) -> int
    decreases s.len(),
{
    if s.len() <= 1 {
        edge(s[0])
    } else {
        let before = least_edge(s.drop_last(), edge);
        if edge(s.last()) < before {
            edge(s.last())
        } else {
            before
        }
    }
}

/// The greatest of the edges.
pub open spec fn greatest_edge(s: Seq<Monitor>, edge: spec_fn(Monitor) -> int) -> int
    decreases s.len(),
{
    if s.len() <= 1 {
        edge(s[0])
    } else {
        let before = greatest_edge(s.drop_last(), edge);
        if edge(s.last()) > before {
            edge(s.last())
        } else {
            before
        }
    }
}

/// The left edge of a monitor.
pub open spec fn left_edge() -> spec_fn(Monitor) -> int {
    |m: Monitor| m.x as int
}

/// The upper edge of a monitor.
pub open spec fn top_edge() -> spec_fn(Monitor) -> int {
    |m: Monitor| m.y as int
}

/// The right edge of a monitor.
pub open spec fn right_edge() -> spec_fn(Monitor) -> int {
    |m: Monitor| kept_sum(m.x, m.logical_width)
}

/// The lower edge of a monitor.
pub open spec fn bottom_edge() -> spec_fn(Monitor) -> int {
    |m: Monitor| kept_sum(m.y, m.logical_height)
}

/// The edges of the whole desktop.
#[derive(Clone, Copy, Debug, PartialEq, Eq, Structural)]
pub struct Bounds {
    pub left: i32,
    pub top: i32,
    pub right: i32,
    pub bottom: i32,
}

/// The edges of the desktop that some monitors make, or what is wrong with it.
pub open spec fn bounds_of(s: Seq<Monitor>) -> Result<Bounds, Seq<char>> {
    if s.len() == 0 {
        Err("desktop layout contains no monitors"@)
    } else {
        let left = least_edge(s, left_edge());
        let top = least_edge(s, top_edge());
        let right = greatest_edge(s, right_edge());
        let bottom = greatest_edge(s, bottom_edge());
        if right <= left || bottom <= top {
            Err("desktop layout has invalid dimensions"@)
        } else {
            Ok(
                Bounds {
                    left: left as i32,
                    top: top as i32,
                    right: right as i32,
                    bottom: bottom as i32,
                },
            )
        }
    }
}

/// The edges of the whole desktop.
pub fn layout_bounds(layout: &DisplayLayout) -> (r: Result<Bounds, String>)
    ensures
        match r {
            Ok(b) => bounds_of(layout.monitors@) == Ok::<Bounds, Seq<char>>(b),
            Err(e) => bounds_of(layout.monitors@) == Err::<Bounds, Seq<char>>(e@),
        },
{
    let ghost s = layout.monitors@;
    if layout.monitors.len() == 0 {
        return Err(owned("desktop layout contains no monitors"));
    }
    let (first_width, first_height) = layout.monitors[0].logical_size();
    let mut left: i32 = layout.monitors[0].x;
    let mut top: i32 = layout.monitors[0].y;
    let mut right: i32 = kept_add(layout.monitors[0].x, first_width);
    let mut bottom: i32 = kept_add(layout.monitors[0].y, first_height);
    let mut i: usize = 1;
    proof {
        assert(s.take(1)[0] == s[0]);
    }
    while i < layout.monitors.len()
        invariant
            1 <= i <= layout.monitors.len(),
            s == layout.monitors@,
            left == least_edge(s.take(i as int), left_edge()),
            top == least_edge(s.take(i as int), top_edge()),
            right == greatest_edge(s.take(i as int), right_edge()),
            bottom == greatest_edge(s.take(i as int), bottom_edge()),
        decreases layout.monitors.len() - i,
    {
        proof {
            assert(s.take(i + 1).drop_last() =~= s.take(i as int));
            assert(s.take(i + 1).last() == s[i as int]);
        }
        let monitor = &layout.monitors[i];
        let (width, height) = monitor.logical_size();
        let monitor_right = kept_add(monitor.x, width);
        let monitor_bottom = kept_add(monitor.y, height);
        if monitor.x < left {
            left = monitor.x;
        }
        if monitor.y < top {
            top = monitor.y;
        }
        if monitor_right > right {
            right = monitor_right;
        }
        if monitor_bottom > bottom {
            bottom = monitor_bottom;
        }
        i += 1;
    }
    proof {
        assert(s.take(i as int) =~= s);
    }
    if right <= left || bottom <= top {
        return Err(owned("desktop layout has invalid dimensions"));
    }
    Ok(Bounds { left, top, right, bottom })
}

/// A part of the desktop by its edges, counted from the desktop's own.
#[derive(Clone, Copy, Debug, PartialEq, Eq, Structural)]
pub struct Offsets {
    pub left: i64,
    pub top: i64,
    pub right: i64,
    pub bottom: i64,
}

/// Where a selection lies, counted from the edges of the desktop.
pub fn selection_offsets(bounds: &Bounds, selection: &Selection) -> (r: Offsets)
    ensures
        r.left == selection.x - bounds.left,
        r.top == selection.y - bounds.top,
        r.right == kept_sum(selection.x, selection.width) - bounds.left,
        r.bottom == kept_sum(selection.y, selection.height) - bounds.top,
{
    let right = kept_add(selection.x, selection.width);
    let bottom = kept_add(selection.y, selection.height);
    Offsets {
        left: selection.x as i64 - bounds.left as i64,
        top: selection.y as i64 - bounds.top as i64,
        right: right as i64 - bounds.left as i64,
        bottom: bottom as i64 - bounds.top as i64,
    }
}

/// A part of a picture.
#[derive(Clone, Copy, Debug, PartialEq, Eq, Structural)]
pub struct Crop {
    pub x: u32,
    pub y: u32,
    pub width: u32,
    pub height: u32,
}

/// The part of a picture between edges; none where they leave nothing.
pub fn crop_between(left: u32, top: u32, right: u32, bottom: u32) -> (r: Result<Crop, String>)
    ensures
        (right <= left || bottom <= top) ==> r is Err && r->Err_0@
            == "selected area is outside the captured desktop"@,
        !(right <= left || bottom <= top) ==> r == Ok::<Crop, String>(
            Crop { x: left, y: top, width: (right - left) as u32, height: (bottom - top) as u32 },
        ),
{
    if right <= left || bottom <= top {
        return Err(owned("selected area is outside the captured desktop"));
    }
    Ok(Crop { x: left, y: top, width: right - left, height: bottom - top })
}

/// A picture: its pixels row by row, each as its red, green, blue and opacity.
#[derive(Debug, PartialEq, Eq)]
pub struct Picture {
    pub width: u32,
    pub height: u32,
    pub pixels: Vec<u8>,
}

impl Picture {
    /// Whether there are as many bytes as the pixels need.
    pub open spec fn valid(&self) -> bool {
        self.pixels@.len() == self.width * self.height * 4
    }
}

/// A byte of a pixel of a picture of some width.
pub open spec fn byte_at(pixels: Seq<u8>, width: int, x: int, y: int, part: int) -> u8 {
    pixels[(y * width + x) * 4 + part]
}

/// Whether pixels are those of a part of a picture.
pub open spec fn is_part(part: Seq<u8>, whole: Seq<u8>, width: int, crop: Crop) -> bool {
    &&& part.len() == crop.width * crop.height * 4
    &&& forall|x: int, y: int, b: int|
        0 <= x < crop.width && 0 <= y < crop.height && 0 <= b < 4 ==> #[trigger] byte_at(
            part,
            crop.width as int,
            x,
            y,
            b,
        ) == byte_at(whole, width, crop.x + x, crop.y + y, b)
}

/// `image::imageops::crop_imm` and `SubImage::to_image`: the pixels of a part that
/// lies within a picture, row by row.
#[verifier::external_body]
fn crop_pixels(pixels: Vec<u8>, width: u32, height: u32, part: &Crop) -> (r: Vec<u8>)
    requires
        pixels@.len() == width * height * 4,
        part.x + part.width <= width,
        part.y + part.height <= height,
    ensures
        is_part(r@, pixels@, width as int, *part),
{
    match image::RgbaImage::from_raw(width, height, pixels) {
        Some(whole) => {
            let part = image::imageops::crop_imm(&whole, part.x, part.y, part.width, part.height);
            part.to_image().into_raw()
        },
        None => Vec::new(),
    }
}

/// The lesser of two numbers.
pub open spec fn lesser(a: u32, b: u32) -> u32 {
    if a < b {
        a
    } else {
        b
    }
}

/// The part of a picture between edges, as far as the picture goes; none where that
/// leaves nothing.
pub fn crop_picture(picture: Picture, left: u32, top: u32, right: u32, bottom: u32) -> (r: Result<
    Picture,
    String,
>)
    requires
        picture.valid(),
    ensures
        ({
            let right = lesser(right, picture.width);
            let bottom = lesser(bottom, picture.height);
            if right <= left || bottom <= top {
                r is Err && r->Err_0@ == "selected area is outside the captured desktop"@
            } else {
                &&& r matches Ok(part)
                &&& part.width == right - left
                &&& part.height == bottom - top
                &&& part.valid()
                &&& is_part(
                    part.pixels@,
                    picture.pixels@,
                    picture.width as int,
                    (Crop { x: left, y: top, width: part.width, height: part.height }),
                )
            }
        }),
{
    let right = if right < picture.width {
        right
    } else {
        picture.width
    };
    let bottom = if bottom < picture.height {
        bottom
    } else {
        picture.height
    };
    match crop_between(left, top, right, bottom) {
        Err(error) => Err(error),
        Ok(part) => {
            let pixels = crop_pixels(picture.pixels, picture.width, picture.height, &part);
            Ok(Picture { width: part.width, height: part.height, pixels })
        },
    }
}

/// The bytes of a picture of some width and height in the PNG format; none where
/// it cannot be written so.
pub uninterp spec fn png_of(width: u32, height: u32, pixels: Seq<u8>) -> Option<Seq<u8>>;

/// The contents of bytes, where there are any.
pub open spec fn bytes_view(bytes: Option<Vec<u8>>) -> Option<Seq<u8>> {
    match bytes {
        Some(bytes) => Some(bytes@),
        None => None,
    }
}

/// `image::DynamicImage::write_to` in the PNG format: the bytes that it writes of a
/// picture, which the name stands for; none where it fails.
#[verifier::external_body]
fn png_bytes(picture: Picture) -> (r: Option<Vec<u8>>)
    requires
        picture.valid(),
    ensures
        bytes_view(r) == png_of(picture.width, picture.height, picture.pixels@),
{
    let image = image::RgbaImage::from_raw(picture.width, picture.height, picture.pixels)?;
    let mut out = std::io::Cursor::new(Vec::new());
    image::DynamicImage::ImageRgba8(image).write_to(&mut out, image::ImageFormat::Png).ok()?;
    Some(out.into_inner())
}

/// What comes of writing a picture: its bytes, or what went wrong.
pub fn encoding_result(bytes: Option<Vec<u8>>) -> (r: Result<Vec<u8>, String>)
    ensures
        match bytes {
            Some(bytes) => r == Ok::<Vec<u8>, String>(bytes),
            None => r is Err && r->Err_0@ == "failed to encode screenshot PNG"@,
        },
{
    match bytes {
        Some(bytes) => Ok(bytes),
        None => Err(owned("failed to encode screenshot PNG")),
    }
}

/// A picture in the PNG format.
pub fn encode_png(picture: Picture) -> (r: Result<Vec<u8>, String>)
    requires
        picture.valid(),
    ensures
        match png_of(picture.width, picture.height, picture.pixels@) {
            Some(bytes) => r is Ok && r->Ok_0@ == bytes,
            None => r is Err && r->Err_0@ == "failed to encode screenshot PNG"@,
        },
{
    encoding_result(png_bytes(picture))
}

/// The number of names that are tried for a screenshot.
pub const MAX_NAMES: u32 = 10_000;

/// The name of a screenshot: of its time, and of a number where others have that
/// name already.
pub fn screenshot_name(timestamp: &str, suffix: u32) -> (r: String)
    ensures
        r@ == if suffix == 0 {
            timestamp@ + ".png"@
        } else {
            timestamp@ + "_"@ + decimal(suffix as nat) + ".png"@
        },
{
    let mut out = owned(timestamp);
    if suffix != 0 {
        out.append("_");
        out.append(decimal_text(suffix as u64).as_str());
    }
    out.append(".png");
    out
}

/// The predicate that holds of the line that names the directory of pictures.
pub open spec fn names_pictures() -> spec_fn(Seq<char>) -> bool {
    |line: Seq<char>| starts_with(trim(line), "XDG_PICTURES_DIR="@)
}

/// A value without quotes around it; none where they are missing.
pub open spec fn unquoted(value: Seq<char>) -> Option<Seq<char>> {
    if starts_with(value, "\""@) && ends_with(value.skip("\""@.len() as int), "\""@) {
        let inner = value.skip("\""@.len() as int);
        Some(inner.take(inner.len() - "\""@.len()))
    } else {
        None
    }
}

/// The directory that a value names, with the home directory put in.
pub open spec fn below_home(value: Seq<char>, home: Seq<char>) -> Seq<char> {
    if value == "$HOME"@ {
        home
    } else if starts_with(value, "$HOME/"@) {
        joined(home, value.skip("$HOME/"@.len() as int))
    } else {
        value
    }
}

/// The directory of pictures that a file of directories names.
pub open spec fn named_pictures(contents: Seq<char>, home: Seq<char>) -> Option<Seq<char>> {
    match find_first(lines(contents), names_pictures()) {
        None => None,
        Some(line) => match unquoted(trim(trim(line).skip("XDG_PICTURES_DIR="@.len() as int))) {
            None => None,
            Some(value) => Some(below_home(value, home)),
        },
    }
}

/// Whether a text that may be missing is the one that is specified.
pub open spec fn is_text_option(r: Option<String>, expected: Option<Seq<char>>) -> bool {
    match r {
        Some(s) => expected == Some(s@),
        None => expected is None,
    }
}

/// The directory of pictures that a file of directories names.
pub fn parse_pictures_directory(contents: &str, home: &str) -> (r: Option<String>)
    ensures
        is_text_option(r, named_pictures(contents@, home@)),
{
    let all = text_lines(contents);
    let ghost ls = lines(contents@);
    let ghost p = names_pictures();
    let mut i: usize = 0;
    while i < all.len()
        invariant
            i <= all.len(),
            ls == views(all@),
            ls == lines(contents@),
            p == names_pictures(),
            forall|j: int| 0 <= j < i ==> !p(#[trigger] ls[j]),
        decreases all.len() - i,
    {
        proof {
            assert(ls[i as int] == all@[i as int]@);
        }
        let line = trim_text(all[i].as_str());
        if let Some(rest) = text_strip_prefix(line.as_str(), "XDG_PICTURES_DIR=") {
            proof {
                lemma_first_index(ls, p, i as nat);
            }
            let value = trim_text(rest.as_str());
            let inner = match text_strip_prefix(value.as_str(), "\"") {
                None => {
                    return None;
                },
                Some(inner) => inner,
            };
            let value = match text_strip_suffix(inner.as_str(), "\"") {
                None => {
                    return None;
                },
                Some(value) => value,
            };
            if same(value.as_str(), "$HOME") {
                return Some(owned(home));
            }
            return match text_strip_prefix(value.as_str(), "$HOME/") {
                Some(relative) => Some(join_path(home, relative.as_str())),
                None => Some(value),
            };
        }
        i += 1;
    }
    proof {
        lemma_first_index(ls, p, i as nat);
    }
    None
}

/// The path of the file of directories: below the directory for settings, which
/// by default is below the home directory.
pub open spec fn directories_file(config_home: Option<Seq<char>>, home: Option<Seq<char>>) -> Option<
    Seq<char>,
> {
    match (config_home, home) {
        (_, None) => None,
        (Some(c), Some(_)) => Some(joined(c, "user-dirs.dirs"@)),
        (None, Some(h)) => Some(joined(joined(h, ".config"@), "user-dirs.dirs"@)),
    }
}

/// The path of the file of directories.
pub fn user_directories_file(config_home: Option<&str>, home: Option<&str>) -> (r: Option<String>)
    ensures
        is_text_option(r, directories_file(str_view(config_home), str_view(home))),
{
    match home {
        None => None,
        Some(home) => match config_home {
            Some(config_home) => Some(join_path(config_home, "user-dirs.dirs")),
            None => Some(join_path(join_path(home, ".config").as_str(), "user-dirs.dirs")),
        },
    }
}

/// The directory of pictures: the one that is asked for, the one that the file
/// of directories names, or the usual one.
pub open spec fn pictures(
    asked: Option<Seq<char>>,
    home: Option<Seq<char>>,
    contents: Option<Seq<char>>,
) -> Seq<char> {
    if asked is Some && asked->0.len() > 0 {
        asked->0
    } else {
        match home {
            None => "Pictures"@,
            Some(h) => match contents {
                Some(c) => match named_pictures(c, h) {
                    Some(d) => d,
                    None => joined(h, "Pictures"@),
                },
                None => joined(h, "Pictures"@),
            },
        }
    }
}

/// The directory of pictures.
pub fn pictures_directory(asked: Option<&str>, home: Option<&str>, contents: Option<&str>) -> (r:
    String)
    ensures
        r@ == pictures(str_view(asked), str_view(home), str_view(contents)),
{
    if let Some(asked) = asked {
        if !asked.is_empty() {
            return owned(asked);
        }
    }
    match home {
        None => owned("Pictures"),
        Some(home) => {
            if let Some(contents) = contents {
                if let Some(directory) = parse_pictures_directory(contents, home) {
                    return directory;
                }
            }
            join_path(home, "Pictures")
        },
    }
}

/// The directory of screenshots.
pub fn screenshots_directory(pictures: &str) -> (r: String)
    ensures
        r@ == joined(pictures@, "Screenshots"@),
{
    join_path(pictures, "Screenshots")
}

proof fn lemma_edges(s: Seq<Monitor>, edge: spec_fn(Monitor) -> int, i: int)
    requires
        0 <= i < s.len(),
    ensures
        least_edge(s, edge) <= edge(s[i]) <= greatest_edge(s, edge),
    decreases s.len(),
{
    if s.len() > 1 && i < s.len() - 1 {
        lemma_edges(s.drop_last(), edge, i);
        assert(s.drop_last()[i] == s[i]);
    }
}

/// Every monitor lies within the edges of the desktop.
pub proof fn law_bounds_hold_monitors(s: Seq<Monitor>, i: int)
    requires
        0 <= i < s.len(),
        bounds_of(s) is Ok,
    ensures
        bounds_of(s)->Ok_0.left <= s[i].x,
        bounds_of(s)->Ok_0.top <= s[i].y,
        kept_sum(s[i].x, s[i].logical_width) <= bounds_of(s)->Ok_0.right,
        kept_sum(s[i].y, s[i].logical_height) <= bounds_of(s)->Ok_0.bottom,
{
    lemma_edges(s, left_edge(), i);
    lemma_edges(s, top_edge(), i);
    lemma_edges(s, right_edge(), i);
    lemma_edges(s, bottom_edge(), i);
    lemma_edges_fit(s);
}

/// The edges of the desktop are numbers of 32 bits.
proof fn lemma_edges_fit(s: Seq<Monitor>)
    requires
        s.len() > 0,
    ensures
        i32::MIN <= least_edge(s, left_edge()) <= i32::MAX,
        i32::MIN <= least_edge(s, top_edge()) <= i32::MAX,
        i32::MIN <= greatest_edge(s, right_edge()) <= i32::MAX,
        i32::MIN <= greatest_edge(s, bottom_edge()) <= i32::MAX,
    decreases s.len(),
{
    if s.len() > 1 {
        lemma_edges_fit(s.drop_last());
    }
}

/// The part of a part is a part of the whole, from where both begin.
pub proof fn law_parts_of_parts(
    inner: Seq<u8>,
    middle: Seq<u8>,
    whole: Seq<u8>,
    width: int,
    outer_crop: Crop,
    inner_crop: Crop,
)
    requires
        is_part(middle, whole, width, outer_crop),
        is_part(inner, middle, outer_crop.width as int, inner_crop),
        inner_crop.x + inner_crop.width <= outer_crop.width,
        inner_crop.y + inner_crop.height <= outer_crop.height,
        outer_crop.x + inner_crop.x <= u32::MAX,
        outer_crop.y + inner_crop.y <= u32::MAX,
    ensures
        is_part(
            inner,
            whole,
            width,
            (Crop {
                x: (outer_crop.x + inner_crop.x) as u32,
                y: (outer_crop.y + inner_crop.y) as u32,
                width: inner_crop.width,
                height: inner_crop.height,
            }),
        ),
{
    let both = Crop {
        x: (outer_crop.x + inner_crop.x) as u32,
        y: (outer_crop.y + inner_crop.y) as u32,
        width: inner_crop.width,
        height: inner_crop.height,
    };
    assert forall|x: int, y: int, b: int|
        0 <= x < both.width && 0 <= y < both.height && 0 <= b < 4 implies #[trigger] byte_at(
        inner,
        both.width as int,
        x,
        y,
        b,
    ) == byte_at(whole, width, both.x + x, both.y + y, b) by {
        assert(byte_at(inner, inner_crop.width as int, x, y, b) == byte_at(
            middle,
            outer_crop.width as int,
            inner_crop.x + x,
            inner_crop.y + y,
            b,
        ));
        assert(byte_at(
            middle,
            outer_crop.width as int,
            inner_crop.x + x,
            inner_crop.y + y,
            b,
        ) == byte_at(
            whole,
            width,
            outer_crop.x + (inner_crop.x + x),
            outer_crop.y + (inner_crop.y + y),
            b,
        ));
        assert(outer_crop.x + (inner_crop.x + x) == both.x + x);
        assert(outer_crop.y + (inner_crop.y + y) == both.y + y);
    }
}

/// The text of a selection, read back, gives the selection; without a width or a height
/// it was cancelled.
#[verifier::spinoff_prover]
pub proof fn law_selection_is_read_back(x: i32, y: i32, width: i32, height: i32)
    ensures
        selected(
            decimal_int(x as int) + seq![','] + decimal_int(y as int) + seq![' '] + (decimal_int(
                width as int,
            ) + seq!['x'] + decimal_int(height as int)),
        ) == if width > 0 && height > 0 {
            Ok::<Selection, Seq<char>>(Selection { x, y, width, height })
        } else {
            Err::<Selection, Seq<char>>("selection cancelled"@)
        },
{
    let a = decimal_int(x as int);
    let b = decimal_int(y as int);
    let c = decimal_int(width as int);
    let d = decimal_int(height as int);
    let origin = a + seq![','] + b;
    let size = c + seq!['x'] + d;
    assert(!a.contains(',') && !a.contains(' ')) by {
        lemma_no_such_character(x as int);
    }
    assert(!b.contains(' ')) by {
        lemma_no_such_character(y as int);
    }
    assert(!c.contains('x')) by {
        lemma_no_such_character(width as int);
    }
    assert(!origin.contains(' ')) by {
        if origin.contains(' ') {
            let k = choose|k: int| 0 <= k < origin.len() && origin[k] == ' ';
            if k < a.len() {
                assert(a[k] == ' ');
            } else if k > a.len() {
                assert(b[k - a.len() - 1] == ' ');
            }
        }
    }
    assert(split_once(origin + seq![' '] + size, ' ') == Some((origin, size))) by {
        law_split_once(origin + seq![' '] + size, ' ', origin, size);
    }
    assert(split_once(origin, ',') == Some((a, b))) by {
        law_split_once(origin, ',', a, b);
    }
    assert(split_once(size, 'x') == Some((c, d))) by {
        law_split_once(size, 'x', c, d);
    }
    assert(signed(a) == Some(x as int)) by {
        law_decimal_int_round_trip(x as int, i32::MIN as int, i32::MAX as int);
    }
    assert(signed(b) == Some(y as int)) by {
        law_decimal_int_round_trip(y as int, i32::MIN as int, i32::MAX as int);
    }
    assert(signed(c) == Some(width as int)) by {
        law_decimal_int_round_trip(width as int, i32::MIN as int, i32::MAX as int);
    }
    assert(signed(d) == Some(height as int)) by {
        law_decimal_int_round_trip(height as int, i32::MIN as int, i32::MAX as int);
    }
}

proof fn lemma_no_such_character(n: int)
    ensures
        !decimal_int(n).contains(' '),
        !decimal_int(n).contains(','),
        !decimal_int(n).contains('x'),
{
    let s = decimal_int(n);
    assert forall|k: int| 0 <= k < s.len() implies s[k] != ' ' && s[k] != ',' && s[k] != 'x' by {
        law_number_text(n, k);
    }
}

proof fn lemma_edges_reached(s: Seq<Monitor>, edge: spec_fn(Monitor) -> int) -> (r: (int, int))
    requires
        s.len() > 0,
    ensures
        0 <= r.0 < s.len(),
        0 <= r.1 < s.len(),
        least_edge(s, edge) == edge(s[r.0]),
        greatest_edge(s, edge) == edge(s[r.1]),
    decreases s.len(),
{
    if s.len() == 1 {
        (0, 0)
    } else {
        let r = lemma_edges_reached(s.drop_last(), edge);
        let n = s.len() - 1;
        (
            if edge(s.last()) < least_edge(s.drop_last(), edge) {
                n
            } else {
                r.0
            },
            if edge(s.last()) > greatest_edge(s.drop_last(), edge) {
                n
            } else {
                r.1
            },
        )
    }
}

/// The edges of the desktop are edges of monitors: the left one is the left edge of one,
/// and so on.
pub proof fn law_bounds_are_reached(s: Seq<Monitor>) -> (r: (int, int, int, int))
    requires
        bounds_of(s) is Ok,
    ensures
        0 <= r.0 < s.len(),
        0 <= r.1 < s.len(),
        0 <= r.2 < s.len(),
        0 <= r.3 < s.len(),
        bounds_of(s)->Ok_0.left == s[r.0].x,
        bounds_of(s)->Ok_0.top == s[r.1].y,
        s[r.2].x + s[r.2].logical_width <= i32::MAX && s[r.2].logical_width >= 0
            ==> bounds_of(s)->Ok_0.right == s[r.2].x + s[r.2].logical_width,
        s[r.3].y + s[r.3].logical_height <= i32::MAX && s[r.3].logical_height >= 0
            ==> bounds_of(s)->Ok_0.bottom == s[r.3].y + s[r.3].logical_height,
{
    lemma_edges_fit(s);
    let a = lemma_edges_reached(s, left_edge());
    let b = lemma_edges_reached(s, top_edge());
    let c = lemma_edges_reached(s, right_edge());
    let d = lemma_edges_reached(s, bottom_edge());
    (a.0, b.0, c.1, d.1)
}

/// A desktop with a monitor that has a size has edges, and one without monitors has none.
pub proof fn law_desktop_has_bounds(s: Seq<Monitor>, i: int)
    ensures
        0 <= i < s.len() && s[i].logical_width > 0 && s[i].logical_height > 0 && s[i].x < i32::MAX
            && s[i].y < i32::MAX ==> bounds_of(s) is Ok,
        s.len() == 0 ==> bounds_of(s) is Err,
{
    if 0 <= i < s.len() {
        lemma_edges(s, left_edge(), i);
        lemma_edges(s, top_edge(), i);
        lemma_edges(s, right_edge(), i);
        lemma_edges(s, bottom_edge(), i);
    }
}

/// The directory of pictures is the one that the first line that names it gives in
/// quotes, with the home directory put in for `$HOME`.
pub proof fn law_named_pictures(contents: Seq<char>, home: Seq<char>, value: Seq<char>, at: int)
    requires
        0 <= at < lines(contents).len(),
        lines(contents)[at] == "XDG_PICTURES_DIR="@ + seq!['"'] + value + seq!['"'],
        forall|j: int|
            0 <= j < at ==> !"XDG_PICTURES_DIR="@.is_prefix_of(trim(#[trigger] lines(contents)[j])),
    ensures
        named_pictures(contents, home) is Some,
        value == "$HOME"@ ==> named_pictures(contents, home) == Some(home),
        "$HOME/"@.is_prefix_of(value) ==> named_pictures(contents, home) == Some(
            joined(home, value.skip(6)),
        ),
        value.len() == 0 || value[0] != '$' ==> named_pictures(contents, home) == Some(value),
{
    let key = "XDG_PICTURES_DIR="@;
    let ls = lines(contents);
    let line = ls[at];
    reveal_strlit("XDG_PICTURES_DIR=");
    reveal_strlit("\"");
    reveal_strlit("$HOME");
    reveal_strlit("$HOME/");
    assert(key.len() == 17 && "$HOME/"@.len() == 6 && "$HOME"@.len() == 5);
    assert("\""@ =~= seq!['"']);
    assert(line[0] == 'X' && line.last() == '"');
    law_nothing_to_trim(line);
    assert(line.take(17) =~= key);
    let quoted = line.skip(17);
    assert(quoted =~= seq!['"'] + value + seq!['"']);
    law_nothing_to_trim(quoted);
    assert(quoted.take(1) =~= seq!['"']);
    let inner = quoted.skip(1);
    assert(inner =~= value + seq!['"']);
    assert(inner.skip(inner.len() - 1) =~= seq!['"']);
    assert(inner.take(inner.len() - 1) =~= value);
    assert forall|j: int| 0 <= j < at implies !names_pictures()(#[trigger] ls[j]) by {
        let t = trim(ls[j]);
        if starts_with(t, key) {
            assert(key =~= t.subrange(0, 17));
        }
    }
    lemma_first_index(ls, names_pictures(), at as nat);
    if starts_with(value, "$HOME/"@) {
        assert(value.take(6)[0] == value[0]);
    }
    if "$HOME/"@.is_prefix_of(value) {
        assert(value.take(6) =~= "$HOME/"@);
    }
}

/// Pictures go where they are asked for; else, without a home directory, to a directory
/// of the usual name; and else to the one that is named or, where none is, to that one
/// below the home directory.
pub proof fn law_where_pictures_go(
    asked: Option<Seq<char>>,
    home: Option<Seq<char>>,
    contents: Option<Seq<char>>,
)
    ensures
        asked matches Some(a) ==> a.len() > 0 ==> pictures(asked, home, contents) == a,
        (asked is None || asked->0.len() == 0) ==> {
            &&& home is None ==> pictures(asked, home, contents) == "Pictures"@
            &&& home matches Some(h) ==> (contents is None || named_pictures(contents->0, h) is None)
                ==> pictures(asked, home, contents) == joined(h, "Pictures"@)
            &&& home matches Some(h) ==> contents is Some ==> named_pictures(
                contents->0,
                h,
            ) is Some ==> Some(pictures(asked, home, contents)) == named_pictures(contents->0, h)
        },
{
}

/// The file of directories is looked for where settings are, by default below the home
/// directory; without a home directory it is not looked for.
pub proof fn law_where_directories_are_named(config_home: Option<Seq<char>>, home: Option<Seq<char>>)
    ensures
        home is None ==> directories_file(config_home, home) is None,
        home is Some && config_home is Some ==> directories_file(config_home, home) == Some(
            joined(config_home->0, "user-dirs.dirs"@),
        ),
        home is Some && config_home is None ==> directories_file(config_home, home) == Some(
            joined(joined(home->0, ".config"@), "user-dirs.dirs"@),
        ),
{
}

/// Cutting at an edge goes no further than the picture does.
pub proof fn law_lesser(a: u32, b: u32)
    ensures
        lesser(a, b) <= a && lesser(a, b) <= b,
        lesser(a, b) == a || lesser(a, b) == b,
{
}

} // verus!
