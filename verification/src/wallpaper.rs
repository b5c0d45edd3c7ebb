//! Wallpapers: which files are shown, and the frames of those that move.

use vstd::prelude::*;
use vstd::string::*;

use crate::paths::{extension, extension_of, law_names_of_files};
use crate::text::{
    ascii_lowercase, ascii_lowercase_text, decimal, is_digit, law_decimal_round_trip,
    lemma_decimal_value, parse_u32, parse_unsigned, same, split_once, split_text_once, trim,
    trim_text,
};
use crate::text_laws::{law_nothing_to_trim, law_split_once};

verus! {

/// Whether an extension is that of a film.
pub open spec fn is_video_extension(e: Seq<char>) -> bool {
    ||| e == "mp4"@
    ||| e == "webm"@
    ||| e == "mkv"@
    ||| e == "avi"@
    ||| e == "mov"@
    ||| e == "m4v"@
}

/// Whether an extension is that of a picture.
pub open spec fn is_picture_extension(e: Seq<char>) -> bool {
    ||| e == "png"@
    ||| e == "jpg"@
    ||| e == "jpeg"@
    ||| e == "webp"@
    ||| e == "gif"@
}

/// Whether an extension is that of a film.
fn names_video(e: &str) -> (r: bool)
    ensures
        r == is_video_extension(e@),
{
    same(e, "mp4") || same(e, "webm") || same(e, "mkv") || same(e, "avi") || same(e, "mov") || same(
        e,
        "m4v",
    )
}

/// Whether an extension is that of a picture.
fn names_picture(e: &str) -> (r: bool)
    ensures
        r == is_picture_extension(e@),
{
    same(e, "png") || same(e, "jpg") || same(e, "jpeg") || same(e, "webp") || same(e, "gif")
}

/// Whether a path leads to a film, by its extension in any case.
pub open spec fn video(path: Seq<char>) -> bool {
    match extension(path) {
        Some(e) => is_video_extension(ascii_lowercase(e)),
        None => false,
    }
}

/// Whether a path leads to a film.
pub fn is_video(path: &str) -> (r: bool)
    ensures
        r == video(path@),
{
    match extension_of(path) {
        Some(extension) => names_video(ascii_lowercase_text(extension.as_str()).as_str()),
        None => false,
    }
}

/// Whether a path leads to a picture or a film.
pub fn is_wallpaper_file(path: &str) -> (r: bool)
    ensures
        r == match extension(path@) {
            Some(e) => is_picture_extension(ascii_lowercase(e)) || is_video_extension(
                ascii_lowercase(e),
            ),
            None => false,
        },
{
    match extension_of(path) {
        Some(extension) => {
            let lower = ascii_lowercase_text(extension.as_str());
            names_picture(lower.as_str()) || names_video(lower.as_str())
        },
        None => false,
    }
}

/// The size that a text such as `1920x1080` denotes, if it is one.
pub open spec fn dimensions(text: Seq<char>) -> Option<(nat, nat)> {
    match split_once(trim(text), 'x') {
        None => None,
        Some((w, h)) => match (
            parse_unsigned(w, u32::MAX as nat),
            parse_unsigned(h, u32::MAX as nat),
        ) {
            (Some(w), Some(h)) => if w > 0 && h > 0 {
                Some((w, h))
            } else {
                None
            },
            _ => None,
        },
    }
}

/// The size that a text denotes.
pub fn video_dimensions(text: &str) -> (r: Option<(u32, u32)>)
    ensures
        match r {
            Some((w, h)) => dimensions(text@) == Some((w as nat, h as nat)),
            None => dimensions(text@) is None,
        },
{
    let trimmed = trim_text(text);
    match split_text_once(trimmed.as_str(), 'x') {
        None => None,
        Some((width, height)) => match (parse_u32(width.as_str()), parse_u32(height.as_str())) {
            (Some(width), Some(height)) => if width > 0 && height > 0 {
                Some((width, height))
            } else {
                None
            },
            _ => None,
        },
    }
}

/// The byte at an index after the first and third of each four changed places;
/// what is left over at the end stays.
pub open spec fn swapped_byte(s: Seq<u8>, i: int) -> u8 {
    let start = i - i % 4;
    if start + 4 > s.len() {
        s[i]
    } else if i % 4 == 0 {
        s[i + 2]
    } else if i % 4 == 2 {
        s[i - 2]
    } else {
        s[i]
    }
}

/// Pixels with red and blue swapped.
pub open spec fn swapped(s: Seq<u8>) -> Seq<u8> {
    Seq::new(s.len(), |i: int| swapped_byte(s, i))
}

/// Swaps red and blue in pixels of four bytes.
pub fn swap_red_and_blue(bytes: &mut Vec<u8>)
    ensures
        final(bytes)@ == swapped(old(bytes)@),
{
    let ghost s = bytes@;
    let n = bytes.len();
    let mut i: usize = 0;
    while n - i >= 4
        invariant
            i <= n,
            i % 4 == 0,
            n == bytes.len(),
            n == s.len(),
            forall|j: int| 0 <= j < i ==> bytes@[j] == swapped_byte(s, j),
            forall|j: int| i <= j < n ==> bytes@[j] == s[j],
        decreases n - i,
    {
        let red = bytes[i];
        let blue = bytes[i + 2];
        bytes[i] = blue;
        bytes[i + 2] = red;
        i += 4;
    }
    proof {
        assert forall|j: int| i <= j < n implies bytes@[j] == swapped_byte(s, j) by {
            assert(j - j % 4 == i);
        }
        assert(bytes@ =~= swapped(s));
    }
}

/// Swapping twice leaves the pixels as they were.
pub proof fn law_swapping_twice(s: Seq<u8>)
    ensures
        swapped(swapped(s)) == s,
{
    assert(swapped(swapped(s)) =~= s);
}

/// The extensions of films.
pub open spec fn film_extensions() -> Seq<Seq<char>> {
    seq!["mp4"@, "webm"@, "mkv"@, "avi"@, "mov"@, "m4v"@]
}

/// Whether a file is a film follows from what stands behind the last dot of its name,
/// in any case; a name without an extension is none.
pub proof fn law_films(directory: Seq<char>, stem: Seq<char>, ext: Seq<char>)
    requires
        stem.len() > 0,
        !stem.contains('/'),
        !ext.contains('/'),
        !ext.contains('.'),
        stem + seq!['.'] + ext != ".."@,
    ensures
        video(directory + seq!['/'] + (stem + seq!['.'] + ext)) == film_extensions().contains(
            ascii_lowercase(ext),
        ),
        video(stem + seq!['.'] + ext) == film_extensions().contains(ascii_lowercase(ext)),
{
    law_names_of_files(directory, stem, ext);
    let e = ascii_lowercase(ext);
    let all = film_extensions();
    assert(all[0] == "mp4"@ && all[1] == "webm"@ && all[2] == "mkv"@ && all[3] == "avi"@ && all[4]
        == "mov"@ && all[5] == "m4v"@);
}

/// Two numbers that are not zero, with an `x` between them, are a size, whatever white
/// space stands around them; with a zero they are none.
pub proof fn law_sizes_are_read_back(width: u32, height: u32)
    ensures
        dimensions(decimal(width as nat) + seq!['x'] + decimal(height as nat)) == if width > 0
            && height > 0 {
            Some((width as nat, height as nat))
        } else {
            None
        },
{
    let w = decimal(width as nat);
    let h = decimal(height as nat);
    let s = w + seq!['x'] + h;
    lemma_decimal_value(width as nat);
    lemma_decimal_value(height as nat);
    assert(is_digit(w[0]));
    assert(is_digit(h[h.len() - 1]));
    assert(s[0] == w[0]);
    assert(s.last() == h[h.len() - 1]);
    law_nothing_to_trim(s);
    if w.contains('x') {
        let k = choose|k: int| 0 <= k < w.len() && w[k] == 'x';
        assert(is_digit(w[k]));
    }
    law_split_once(s, 'x', w, h);
    law_decimal_round_trip(width as nat, u32::MAX as nat);
    law_decimal_round_trip(height as nat, u32::MAX as nat);
}

/// A text without an `x` is no size.
pub proof fn law_no_size(text: Seq<char>)
    requires
        !trim(text).contains('x'),
    ensures
        dimensions(text) is None,
{
    law_split_once(trim(text), 'x', text, text);
}

/// In each pixel red and blue change places; green and opacity stay, and so does what
/// is left over.
pub proof fn law_swapped_pixels(s: Seq<u8>, p: int)
    requires
        0 <= p,
    ensures
        swapped(s).len() == s.len(),
        4 * p + 4 <= s.len() ==> {
            &&& swapped(s)[4 * p] == s[4 * p + 2]
            &&& swapped(s)[4 * p + 1] == s[4 * p + 1]
            &&& swapped(s)[4 * p + 2] == s[4 * p]
            &&& swapped(s)[4 * p + 3] == s[4 * p + 3]
        },
        4 * p <= s.len() < 4 * p + 4 ==> forall|i: int|
            4 * p <= i < s.len() ==> swapped(s)[i] == #[trigger] s[i],
{
}

/// The extensions of pictures.
pub open spec fn picture_extensions() -> Seq<Seq<char>> {
    seq!["png"@, "jpg"@, "jpeg"@, "webp"@, "gif"@]
}

/// A picture is told by its extension, and a film is none.
pub proof fn law_pictures(e: Seq<char>)
    ensures
        is_picture_extension(e) <==> picture_extensions().contains(e),
        is_picture_extension(e) ==> !is_video_extension(e),
{
    let all = picture_extensions();
    assert(all[0] == "png"@ && all[1] == "jpg"@ && all[2] == "jpeg"@ && all[3] == "webp"@ && all[4]
        == "gif"@);
    reveal_strlit("png");
    reveal_strlit("jpg");
    reveal_strlit("jpeg");
    reveal_strlit("webp");
    reveal_strlit("gif");
    reveal_strlit("mp4");
    reveal_strlit("webm");
    reveal_strlit("mkv");
    reveal_strlit("avi");
    reveal_strlit("mov");
    reveal_strlit("m4v");
    assert("png"@[0] == 'p' && "jpg"@[0] == 'j' && "gif"@[0] == 'g' && "jpeg"@[0] == 'j'
        && "webp"@[3] == 'p');
    assert("mp4"@[0] == 'm' && "mkv"@[0] == 'm' && "avi"@[0] == 'a' && "mov"@[0] == 'm' && "m4v"@[0]
        == 'm' && "webm"@[3] == 'm' && "webm"@[0] == 'w');
    assert("jpeg"@.len() == 4 && "webp"@.len() == 4 && "webm"@.len() == 4);
}

} // verus!
