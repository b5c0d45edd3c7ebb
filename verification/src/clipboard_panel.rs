//! The panel with the clipboard history: which entry is selected, and how
//! entries are shown.

use vstd::prelude::*;
use vstd::string::*;
use vstd::utf8::encode_utf8;

use crate::bytes::{lossy, lossy_text};
use crate::routes::hex_value;
use crate::screenshot::Picture;
use crate::text::{concat, decimal, decimal_text, join, join_texts, text_words, words};

verus! {

/// The panel with the clipboard history.
#[derive(Debug)]
pub struct ClipboardPanel {
    pub open: bool,
    pub selected_index: usize,
    pub target_window: Option<String>,
}

/// The panel when it is closed for the first time.
pub open spec fn closed_panel() -> ClipboardPanel {
    ClipboardPanel { open: false, selected_index: 0, target_window: None }
}

impl ClipboardPanel {
    /// A panel that is not open.
    pub fn new() -> (r: Self)
        ensures
            r == closed_panel(),
    {
        ClipboardPanel { open: false, selected_index: 0, target_window: None }
    }

    /// Whether it is open.
    pub fn is_open(&self) -> (r: bool)
        ensures
            r == self.open,
    {
        self.open
    }

    /// Opens it with the newest entry selected, for a window to paste into.
    pub fn open(&mut self, target_window: Option<String>)
        ensures
            *final(self) == (ClipboardPanel { open: true, selected_index: 0, target_window }),
    {
        self.open = true;
        self.selected_index = 0;
        self.target_window = target_window;
    }

    /// Closes it.
    pub fn close(&mut self)
        ensures
            *final(self) == (ClipboardPanel {
                open: false,
                selected_index: old(self).selected_index,
                target_window: None,
            }),
    {
        self.open = false;
        self.target_window = None;
    }

    /// Keeps the selection within so many entries.
    pub fn refresh(&mut self, len: usize)
        ensures
            *final(self) == (ClipboardPanel {
                selected_index: if len == 0 {
                    0
                } else if old(self).selected_index >= len {
                    (len - 1) as usize
                } else {
                    old(self).selected_index
                },
                ..*old(self)
            }),
    {
        if len == 0 {
            self.selected_index = 0;
        } else if self.selected_index >= len {
            self.selected_index = len - 1;
        }
    }

    /// Selects the entry before, behind the first the last one.
    pub fn select_previous(&mut self, len: usize)
        ensures
            *final(self) == (if old(self).open && len > 0 {
                ClipboardPanel {
                    selected_index: ((old(self).selected_index + len - 1) % (len as int)) as usize,
                    ..*old(self)
                }
            } else {
                *old(self)
            }),
    {
        if self.open && len > 0 {
            let next: u128 = (self.selected_index as u128 + len as u128 - 1) % len as u128;
            self.selected_index = next as usize;
        }
    }

    /// Selects the entry behind, behind the last the first one.
    pub fn select_next(&mut self, len: usize)
        ensures
            *final(self) == (if old(self).open && len > 0 {
                ClipboardPanel {
                    selected_index: ((old(self).selected_index + 1) % (len as int)) as usize,
                    ..*old(self)
                }
            } else {
                *old(self)
            }),
    {
        if self.open && len > 0 {
            let next: u128 = (self.selected_index as u128 + 1) % len as u128;
            self.selected_index = next as usize;
        }
    }

    /// The entry that is chosen, if the panel is open and there is one.
    pub fn chosen(&self, len: usize) -> (r: Option<usize>)
        ensures
            r == if self.open && self.selected_index < len {
                Some(self.selected_index)
            } else {
                None
            },
    {
        if self.open && self.selected_index < len {
            Some(self.selected_index)
        } else {
            None
        }
    }
}

/// How a text entry is shown: its words, with one space between them.
pub open spec fn preview(text: Seq<char>) -> Seq<char> {
    join(words(text), " "@)
}

/// How a text is shown.
pub fn preview_text(text: &str) -> (r: String)
    ensures
        r@ == preview(text@),
{
    let parts = text_words(text);
    join_texts(&parts, " ")
}

/// How a text entry is shown, from its bytes.
pub fn text_preview(bytes: &Vec<u8>) -> (r: String)
    ensures
        r@ == preview(lossy(bytes@)),
{
    preview_text(lossy_text(bytes).as_str())
}

/// The picture that bytes encode in some format: its width, its height and its
/// pixels; none where they encode none.
pub uninterp spec fn decoded_picture(bytes: Seq<u8>) -> Option<(u32, u32, Seq<u8>)>;

/// What there is of a picture.
pub open spec fn picture_parts(p: Option<Picture>) -> Option<(u32, u32, Seq<u8>)> {
    match p {
        Some(p) => Some((p.width, p.height, p.pixels@)),
        None => None,
    }
}

/// `image::load_from_memory` and `DynamicImage::to_rgba8`: the picture that the
/// bytes encode, which the name stands for; it has four bytes for each pixel.
#[verifier::external_body]
fn decode_picture(bytes: &Vec<u8>) -> (r: Option<Picture>)
    ensures
        picture_parts(r) == decoded_picture(bytes@),
        r matches Some(p) ==> p.valid(),
{
    let picture = image::load_from_memory(bytes).ok()?.to_rgba8();
    let (width, height) = picture.dimensions();
    Some(Picture { width, height, pixels: picture.into_raw() })
}

/// The picture of an entry; none where its bytes are no picture.
pub fn image_preview(bytes: &Vec<u8>) -> (r: Option<Picture>)
    ensures
        picture_parts(r) == decoded_picture(bytes@),
        r matches Some(p) ==> p.valid(),
{
    decode_picture(bytes)
}

/// How an entry is shown that is neither text nor a picture that can be drawn.
pub fn size_label(mime_type: &str, size: u64) -> (r: String)
    ensures
        r@ == mime_type@ + "  "@ + decimal(size as nat) + " bytes"@,
{
    let mut out = concat(mime_type, "  ");
    out.append(decimal_text(size).as_str());
    out.append(" bytes");
    out
}

/// The number that hexadecimal digits denote, if they are all digits.
pub open spec fn hex_number(digits: Seq<u8>) -> Option<nat>
    decreases digits.len(),
{
    if digits.len() == 0 {
        Some(0)
    } else {
        match (hex_number(digits.drop_last()), hex_value(digits.last())) {
            (Some(before), Some(d)) => Some((before * 16 + d) as nat),
            _ => None,
        }
    }
}

/// The digits without a plus sign before them.
pub open spec fn without_sign(digits: Seq<u8>) -> Seq<u8> {
    if digits.len() > 1 && digits[0] == 43 {
        digits.skip(1)
    } else {
        digits
    }
}

/// The number of all bytes, each before counting thirty-one fold, without what
/// does not fit in 64 bits.
pub open spec fn byte_hash(bytes: Seq<u8>) -> nat
    decreases bytes.len(),
{
    if bytes.len() == 0 {
        0
    } else {
        (byte_hash(bytes.drop_last()) * 31 + bytes.last()) as nat % 0x1_0000_0000_0000_0000
    }
}

/// The first sixteen, or all where there are fewer.
pub open spec fn first_sixteen(bytes: Seq<u8>) -> Seq<u8> {
    if bytes.len() > 16 {
        bytes.take(16)
    } else {
        bytes
    }
}

/// The number by which an entry is told apart on the screen: the one that its
/// first sixteen digits denote, or else one of all its bytes.
pub open spec fn identity_number(bytes: Seq<u8>) -> nat {
    let digits = without_sign(first_sixteen(bytes));
    match hex_number(digits) {
        Some(n) => if bytes.len() > 0 {
            n
        } else {
            byte_hash(bytes)
        },
        None => byte_hash(bytes),
    }
}

proof fn lemma_hex_none(digits: Seq<u8>, i: int)
    requires
        0 <= i < digits.len(),
        hex_value(digits[i]) is None,
    ensures
        hex_number(digits) is None,
    decreases digits.len(),
{
    if i < digits.len() - 1 {
        lemma_hex_none(digits.drop_last(), i);
    }
}

/// Sixteen to a power.
pub open spec fn pow16(n: nat) -> nat
    decreases n,
{
    if n == 0 {
        1
    } else {
        pow16((n - 1) as nat) * 16
    }
}

proof fn lemma_hex_bound(digits: Seq<u8>)
    ensures
        hex_number(digits) is Some ==> hex_number(digits)->0 < pow16(digits.len()),
    decreases digits.len(),
{
    if digits.len() > 0 {
        lemma_hex_bound(digits.drop_last());
    }
}

proof fn lemma_pow16_monotonic(a: nat, b: nat)
    requires
        a <= b,
    ensures
        pow16(a) <= pow16(b),
    decreases b - a,
{
    if a < b {
        lemma_pow16_monotonic(a, (b - 1) as nat);
    }
}

proof fn lemma_pow16_of_16()
    ensures
        pow16(16) == 0x1_0000_0000_0000_0000,
{
    reveal_with_fuel(pow16, 17);
}

/// The number by which an entry is told apart on the screen.
pub fn stable_id(value: &str) -> (r: u64)
    ensures
        r == identity_number(encode_utf8(value@)),
{
    let bytes = value.as_bytes();
    let ghost b = encode_utf8(value@);
    if bytes.len() == 0 {
        return 0;
    }
    let limit: usize = if bytes.len() > 16 {
        16
    } else {
        bytes.len()
    };
    let start: usize = if limit > 1 && bytes[0] == 43 {
        1
    } else {
        0
    };
    let ghost d = without_sign(first_sixteen(b));
    proof {
        assert(first_sixteen(b) =~= b.take(limit as int));
        assert(d =~= b.subrange(start as int, limit as int));
        assert(d.take(0) =~= Seq::empty());
    }
    let mut valid = true;
    let mut number: u64 = 0;
    let mut i: usize = start;
    while i < limit
        invariant
            start <= i <= limit,
            limit <= bytes.len(),
            limit <= 16,
            b == bytes@,
            d == b.subrange(start as int, limit as int),
            bytes.len() > 0,
            valid ==> hex_number(d.take(i - start)) == Some(number as nat),
            !valid ==> hex_number(d) is None,
        decreases limit - i,
    {
        proof {
            assert(d.take(i - start + 1).drop_last() =~= d.take(i - start));
            assert(d[i - start] == b[i as int]);
            lemma_hex_bound(d.take(i - start + 1));
            lemma_pow16_monotonic(d.take(i - start + 1).len(), 16);
            lemma_pow16_of_16();
        }
        match digit_of(bytes[i]) {
            Some(digit) => {
                if valid {
                    number = number * 16 + digit as u64;
                }
            },
            None => {
                proof {
                    lemma_hex_none(d, i - start);
                }
                valid = false;
            },
        }
        i += 1;
    }
    proof {
        assert(d.take(i - start) =~= d);
    }
    if valid {
        return number;
    }
    let mut hash: u64 = 0;
    let mut k: usize = 0;
    proof {
        assert(b.take(0) =~= Seq::empty());
    }
    while k < bytes.len()
        invariant
            k <= bytes.len(),
            b == bytes@,
            hash == byte_hash(b.take(k as int)),
        decreases bytes.len() - k,
    {
        proof {
            assert(b.take(k + 1).drop_last() =~= b.take(k as int));
            lemma_wrapping_step(hash, bytes@[k as int]);
        }
        hash = hash.wrapping_mul(31).wrapping_add(bytes[k] as u64);
        k += 1;
    }
    proof {
        assert(b.take(k as int) =~= b);
    }
    hash
}

/// The value of a hexadecimal digit.
fn digit_of(b: u8) -> (r: Option<u8>)
    ensures
        r == hex_value(b),
        r is Some ==> r->0 < 16,
{
    if 48 <= b && b <= 57 {
        Some(b - 48)
    } else if 97 <= b && b <= 102 {
        Some(b - 87)
    } else if 65 <= b && b <= 70 {
        Some(b - 55)
    } else {
        None
    }
}

proof fn lemma_wrapping_step(hash: u64, byte: u8)
    ensures
        ({
            let product = (hash * 31) % 0x1_0000_0000_0000_0000;
            (product + byte) % 0x1_0000_0000_0000_0000 == (hash * 31 + byte)
                % 0x1_0000_0000_0000_0000
        }),
{
}

/// Going to the next entry and back leads to where one was, and the other way
/// round.
pub proof fn law_selection_there_and_back(at: int, len: int)
    requires
        0 <= at < len,
    ensures
        ((at + 1) % len + len - 1) % len == at,
        ((at + len - 1) % len + 1) % len == at,
{
    if at + 1 < len {
        vstd::arithmetic::div_mod::lemma_small_mod((at + 1) as nat, len as nat);
        vstd::arithmetic::div_mod::lemma_mod_add_multiples_vanish(at, len);
        vstd::arithmetic::div_mod::lemma_small_mod(at as nat, len as nat);
    } else {
        vstd::arithmetic::div_mod::lemma_mod_self_0(len);
        vstd::arithmetic::div_mod::lemma_small_mod((len - 1) as nat, len as nat);
    }
    if at > 0 {
        vstd::arithmetic::div_mod::lemma_mod_add_multiples_vanish(at - 1, len);
        vstd::arithmetic::div_mod::lemma_small_mod((at - 1) as nat, len as nat);
        vstd::arithmetic::div_mod::lemma_small_mod(at as nat, len as nat);
    } else {
        vstd::arithmetic::div_mod::lemma_small_mod((len - 1) as nat, len as nat);
        vstd::arithmetic::div_mod::lemma_mod_self_0(len);
    }
}

/// What is shown of a text is its words, with one space between them and none around
/// them: it holds no other white space, and the same words.
pub proof fn law_preview(text: Seq<char>)
    ensures
        preview(text) == join(words(text), seq![' ']),
        words(text).len() == 1 ==> preview(text) == words(text)[0],
        words(text).len() == 0 ==> preview(text).len() == 0,
{
    reveal_strlit(" ");
    assert(" "@ =~= seq![' ']);
    if words(text).len() == 1 {
        assert(words(text).drop_last() =~= Seq::empty());
        assert(join(words(text), " "@) =~= words(text)[0]);
    }
}

/// Another digit behind a number makes it sixteen times as great and adds its value.
pub proof fn law_hexadecimal_numbers(digits: Seq<u8>, d: u8)
    ensures
        hex_number(Seq::empty()) == Some(0nat),
        hex_value(d) is None ==> hex_number(digits.push(d)) is None,
        hex_number(digits) matches Some(n) ==> (hex_value(d) matches Some(v) ==> hex_number(
            digits.push(d),
        ) == Some((n * 16 + v) as nat)),
{
    assert(digits.push(d).drop_last() =~= digits);
}

/// Entries whose identities begin with different digits are told apart by the numbers of
/// these digits; what follows them does not count.
pub proof fn law_identity_of_first_digits(a: Seq<u8>, b: Seq<u8>)
    requires
        a.len() >= 16,
        b.len() >= 16,
        a.take(16) == b.take(16),
        forall|i: int| 0 <= i < 16 ==> hex_value(#[trigger] a[i]) is Some,
    ensures
        identity_number(a) == identity_number(b),
        hex_number(a.take(16)) == Some(identity_number(a)),
{
    assert(first_sixteen(a) =~= a.take(16));
    assert(first_sixteen(b) =~= b.take(16));
    let d = a.take(16);
    assert(hex_value(a[0]) is Some);
    assert(d[0] == a[0]);
    lemma_all_digits(d);
}

proof fn lemma_all_digits(d: Seq<u8>)
    requires
        forall|i: int| 0 <= i < d.len() ==> hex_value(#[trigger] d[i]) is Some,
    ensures
        hex_number(d) is Some,
    decreases d.len(),
{
    if d.len() > 0 {
        assert(hex_value(d[d.len() - 1]) is Some);
        lemma_all_digits(d.drop_last());
    }
}

} // verus!
