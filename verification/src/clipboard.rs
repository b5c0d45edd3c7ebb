//! The clipboard history: which representations of a selection are kept, how
//! selections are told apart, and in which order and number they are retained.

use sha2::{Digest, Sha256};
use vstd::prelude::*;
use vstd::string::*;
use vstd::utf8::encode_utf8;

use crate::bytes::same_bytes;
use crate::seqs::{
    find_first, first_index, lemma_filter_step, lemma_first_index, lemma_first_index_bounds,
};
use crate::text::{
    lines, owned, same, starts_with, text_before, text_less, text_lines, text_starts_with, trim,
    trim_text, views,
};

verus! {

/// How many representations of one selection are kept.
pub const MAX_REPRESENTATIONS: usize = 32;

/// Limits of the history.
#[derive(Clone, Copy, Debug)]
pub struct ClipboardConfig {
    pub max_entries: usize,
    pub max_entry_bytes: u64,
    pub max_total_bytes: u64,
}

/// One representation of an entry, as it is stored.
#[derive(Debug)]
pub struct ClipboardPayload {
    pub mime_type: String,
    pub file_name: String,
    pub size: u64,
}

impl Clone for ClipboardPayload {
    fn clone(&self) -> (r: Self)
        ensures
            r == *self,
    {
        ClipboardPayload {
            mime_type: self.mime_type.clone(),
            file_name: self.file_name.clone(),
            size: self.size,
        }
    }
}

/// One selection of the history.
#[derive(Debug)]
pub struct ClipboardEntry {
    pub id: String,
    pub created_at: i64,
    pub payloads: Vec<ClipboardPayload>,
    pub total_size: u64,
}

/// The contents of an entry.
pub struct EntryView {
    pub id: Seq<char>,
    pub created_at: i64,
    pub payloads: Seq<ClipboardPayload>,
    pub total_size: u64,
}

impl View for ClipboardEntry {
    type V = EntryView;

    open spec fn view(&self) -> EntryView {
        EntryView {
            id: self.id@,
            created_at: self.created_at,
            payloads: self.payloads@,
            total_size: self.total_size,
        }
    }
}

/// The contents of some entries.
pub open spec fn entry_views(s: Seq<ClipboardEntry>) -> Seq<EntryView> {
    s.map_values(|e: ClipboardEntry| e@)
}

/// Whether a type is an image.
pub open spec fn image_type(mime: Seq<char>) -> bool {
    starts_with(mime, "image/"@)
}

/// Whether a type is text.
pub open spec fn text_type(mime: Seq<char>) -> bool {
    starts_with(mime, "text/"@) || mime == "UTF8_STRING"@ || mime == "STRING"@ || mime == "TEXT"@
}

/// Whether a type is text.
pub fn is_text(mime: &str) -> (r: bool)
    ensures
        r == text_type(mime@),
{
    text_starts_with(mime, "text/") || same(mime, "UTF8_STRING") || same(mime, "STRING") || same(
        mime,
        "TEXT",
    )
}

/// Whether a type is one of the names of plain text.
pub open spec fn plain_text_type(mime: Seq<char>) -> bool {
    mime == "text/plain"@ || mime == "text/plain;charset=utf-8"@ || mime == "UTF8_STRING"@ || mime
        == "STRING"@ || mime == "TEXT"@
}

/// Whether a type is one of the names of plain text.
pub fn is_plain_text_alias(mime: &str) -> (r: bool)
    ensures
        r == plain_text_type(mime@),
{
    same(mime, "text/plain") || same(mime, "text/plain;charset=utf-8") || same(mime, "UTF8_STRING")
        || same(mime, "STRING") || same(mime, "TEXT")
}

/// Whether a type says nothing of the selection beyond this moment.
pub open spec fn transient_type(mime: Seq<char>) -> bool {
    starts_with(mime, "application/x-bah"@) || starts_with(mime, "pid/"@)
}

/// Whether a type says nothing of the selection beyond this moment.
pub fn is_transient_mime_type(mime: &str) -> (r: bool)
    ensures
        r == transient_type(mime@),
{
    text_starts_with(mime, "application/x-bah") || text_starts_with(mime, "pid/")
}

/// The rank of a type among the representations; the least comes first.
pub open spec fn priority(mime: Seq<char>) -> u8 {
    if mime == "text/plain;charset=utf-8"@ {
        0
    } else if mime == "text/plain"@ {
        1
    } else if starts_with(mime, "image/png"@) {
        2
    } else if starts_with(mime, "image/"@) {
        3
    } else if mime == "text/uri-list"@ {
        4
    } else {
        10
    }
}

/// The rank of a type among the representations.
pub fn mime_priority(mime: &str) -> (r: u8)
    ensures
        r == priority(mime@),
{
    if same(mime, "text/plain;charset=utf-8") {
        0
    } else if same(mime, "text/plain") {
        1
    } else if text_starts_with(mime, "image/png") {
        2
    } else if text_starts_with(mime, "image/") {
        3
    } else if same(mime, "text/uri-list") {
        4
    } else {
        10
    }
}

/// The predicate that holds of images.
pub open spec fn image_payloads() -> spec_fn(ClipboardPayload) -> bool {
    |p: ClipboardPayload| image_type(p.mime_type@)
}

/// The predicate that holds of texts.
pub open spec fn text_payloads() -> spec_fn(ClipboardPayload) -> bool {
    |p: ClipboardPayload| text_type(p.mime_type@)
}

/// The predicate that holds of formatted text.
pub open spec fn html_payloads() -> spec_fn(ClipboardPayload) -> bool {
    |p: ClipboardPayload| p.mime_type@ == "text/html"@
}

/// The predicate that holds of plain text.
pub open spec fn plain_payloads() -> spec_fn(ClipboardPayload) -> bool {
    |p: ClipboardPayload| plain_text_type(p.mime_type@)
}

/// The first of two that is there.
pub open spec fn or_else<A>(a: Option<A>, b: Option<A>) -> Option<A> {
    match a {
        Some(x) => Some(x),
        None => b,
    }
}

/// The first payload.
pub open spec fn first_payload(s: Seq<ClipboardPayload>) -> Option<ClipboardPayload> {
    if s.len() > 0 {
        Some(s[0])
    } else {
        None
    }
}

/// The payload by which an entry is shown: an image, else text, else the first.
pub open spec fn shown_payload(s: Seq<ClipboardPayload>) -> Option<ClipboardPayload> {
    or_else(
        find_first(s, image_payloads()),
        or_else(find_first(s, text_payloads()), first_payload(s)),
    )
}

/// The payload that is pasted: an image, else formatted text, else text, else
/// the first.
pub open spec fn pasted_payload(s: Seq<ClipboardPayload>) -> Option<ClipboardPayload> {
    or_else(
        find_first(s, image_payloads()),
        or_else(
            find_first(s, html_payloads()),
            or_else(find_first(s, text_payloads()), first_payload(s)),
        ),
    )
}

/// Whether a found payload is the one that is meant.
pub open spec fn is_payload(r: Option<&ClipboardPayload>, meant: Option<ClipboardPayload>) -> bool {
    match r {
        Some(p) => meant == Some(*p),
        None => meant is None,
    }
}

impl ClipboardEntry {
    /// The first image.
    pub fn image_payload(&self) -> (r: Option<&ClipboardPayload>)
        ensures
            is_payload(r, find_first(self@.payloads, image_payloads())),
    {
        let s = &self.payloads;
        let mut i: usize = 0;
        while i < s.len()
            invariant
                i <= s.len(),
                s@ == self@.payloads,
                forall|j: int| 0 <= j < i ==> !image_payloads()(#[trigger] s@[j]),
            decreases s.len() - i,
        {
            if text_starts_with(s[i].mime_type.as_str(), "image/") {
                proof {
                    lemma_first_index(s@, image_payloads(), i as nat);
                }
                return Some(&s[i]);
            }
            i += 1;
        }
        proof {
            lemma_first_index(s@, image_payloads(), i as nat);
        }
        None
    }

    /// The first text.
    pub fn text_payload(&self) -> (r: Option<&ClipboardPayload>)
        ensures
            is_payload(r, find_first(self@.payloads, text_payloads())),
    {
        let s = &self.payloads;
        let mut i: usize = 0;
        while i < s.len()
            invariant
                i <= s.len(),
                s@ == self@.payloads,
                forall|j: int| 0 <= j < i ==> !text_payloads()(#[trigger] s@[j]),
            decreases s.len() - i,
        {
            if is_text(s[i].mime_type.as_str()) {
                proof {
                    lemma_first_index(s@, text_payloads(), i as nat);
                }
                return Some(&s[i]);
            }
            i += 1;
        }
        proof {
            lemma_first_index(s@, text_payloads(), i as nat);
        }
        None
    }

    /// The first formatted text.
    fn html_payload(&self) -> (r: Option<&ClipboardPayload>)
        ensures
            is_payload(r, find_first(self@.payloads, html_payloads())),
    {
        let s = &self.payloads;
        let mut i: usize = 0;
        while i < s.len()
            invariant
                i <= s.len(),
                s@ == self@.payloads,
                forall|j: int| 0 <= j < i ==> !html_payloads()(#[trigger] s@[j]),
            decreases s.len() - i,
        {
            if same(s[i].mime_type.as_str(), "text/html") {
                proof {
                    lemma_first_index(s@, html_payloads(), i as nat);
                }
                return Some(&s[i]);
            }
            i += 1;
        }
        proof {
            lemma_first_index(s@, html_payloads(), i as nat);
        }
        None
    }

    /// The first plain text.
    pub fn plain_text_payload(&self) -> (r: Option<&ClipboardPayload>)
        ensures
            is_payload(r, find_first(self@.payloads, plain_payloads())),
    {
        let s = &self.payloads;
        let mut i: usize = 0;
        while i < s.len()
            invariant
                i <= s.len(),
                s@ == self@.payloads,
                forall|j: int| 0 <= j < i ==> !plain_payloads()(#[trigger] s@[j]),
            decreases s.len() - i,
        {
            if is_plain_text_alias(s[i].mime_type.as_str()) {
                proof {
                    lemma_first_index(s@, plain_payloads(), i as nat);
                }
                return Some(&s[i]);
            }
            i += 1;
        }
        proof {
            lemma_first_index(s@, plain_payloads(), i as nat);
        }
        None
    }

    /// The type by which the entry is shown.
    pub fn display_mime_type(&self) -> (r: &str)
        ensures
            r@ == match shown_payload(self@.payloads) {
                Some(p) => p.mime_type@,
                None => "application/octet-stream"@,
            },
    {
        if let Some(p) = self.image_payload() {
            return p.mime_type.as_str();
        }
        if let Some(p) = self.text_payload() {
            return p.mime_type.as_str();
        }
        if self.payloads.len() > 0 {
            return self.payloads[0].mime_type.as_str();
        }
        "application/octet-stream"
    }

    /// The payload that is pasted.
    pub fn preferred_payload(&self) -> (r: Option<&ClipboardPayload>)
        ensures
            is_payload(r, pasted_payload(self@.payloads)),
    {
        if let Some(p) = self.image_payload() {
            return Some(p);
        }
        if let Some(p) = self.html_payload() {
            return Some(p);
        }
        if let Some(p) = self.text_payload() {
            return Some(p);
        }
        if self.payloads.len() > 0 {
            return Some(&self.payloads[0]);
        }
        None
    }
}

/// Whether a type comes before another: by rank, then by name.
pub open spec fn type_before(a: Seq<char>, b: Seq<char>) -> bool {
    priority(a) < priority(b) || (priority(a) == priority(b) && text_less(a, b))
}

/// The predicate that holds of the types that do not come before one.
pub open spec fn not_before(m: Seq<char>) -> spec_fn(Seq<char>) -> bool {
    |a: Seq<char>| !type_before(a, m)
}

/// The types with one more in its place, unless it is already there.
pub open spec fn with_type(s: Seq<Seq<char>>, m: Seq<char>) -> Seq<Seq<char>> {
    let i = first_index(s, not_before(m));
    if i < s.len() && s[i as int] == m {
        s
    } else {
        s.insert(i as int, m)
    }
}

/// The lasting types among those offered, each once, in their order.
pub open spec fn arranged(offered: Seq<Seq<char>>) -> Seq<Seq<char>>
    decreases offered.len(),
{
    if offered.len() == 0 {
        Seq::empty()
    } else if transient_type(offered.last()) {
        arranged(offered.drop_last())
    } else {
        with_type(arranged(offered.drop_last()), offered.last())
    }
}

/// The predicate that holds of the names of plain text.
pub open spec fn plain_types() -> spec_fn(Seq<char>) -> bool {
    |m: Seq<char>| plain_text_type(m)
}

/// The types without the names of plain text after the first one.
pub open spec fn one_plain_text(s: Seq<Seq<char>>) -> Seq<Seq<char>>
    decreases s.len(),
{
    if s.len() == 0 {
        s
    } else {
        let before = one_plain_text(s.drop_last());
        if plain_text_type(s.last()) && first_index(s.drop_last(), plain_types())
            < s.drop_last().len() {
            before
        } else {
            before.push(s.last())
        }
    }
}

/// At most the given number of elements from the front.
pub open spec fn at_most<A>(s: Seq<A>, n: nat) -> Seq<A> {
    if s.len() <= n {
        s
    } else {
        s.take(n as int)
    }
}

/// The representations that are kept of those offered.
pub open spec fn kept_types(offered: Seq<Seq<char>>) -> Seq<Seq<char>> {
    at_most(one_plain_text(arranged(offered)), MAX_REPRESENTATIONS as nat)
}

/// Puts a type in its place, unless it is already there.
fn put_type(s: &mut Vec<String>, m: String)
    ensures
        views(final(s)@) == with_type(views(old(s)@), m@),
{
    let rank: u8 = mime_priority(m.as_str());
    let ghost p = not_before(m@);
    let mut i: usize = 0;
    loop
        invariant
            i <= s.len(),
            s@ == old(s)@,
            rank == priority(m@),
            p == not_before(m@),
            forall|j: int| 0 <= j < i ==> !p(#[trigger] views(s@)[j]),
        ensures
            i <= s.len(),
            s@ == old(s)@,
            forall|j: int| 0 <= j < i ==> !p(#[trigger] views(s@)[j]),
            i < s.len() ==> p(views(s@)[i as int]),
        decreases s.len() - i,
    {
        if i >= s.len() {
            break;
        }
        let other: u8 = mime_priority(s[i].as_str());
        let before = other < rank || (other == rank && text_before(s[i].as_str(), m.as_str()));
        proof {
            assert(views(s@)[i as int] == s@[i as int]@);
        }
        if !before {
            break;
        }
        i += 1;
    }
    proof {
        lemma_first_index(views(s@), p, i as nat);
    }
    if i < s.len() && same(s[i].as_str(), m.as_str()) {
        return;
    }
    let ghost before = s@;
    s.insert(i, m);
    proof {
        assert(views(s@) =~= views(before).insert(i as int, m@));
    }
}

/// The representations that are kept of those offered: the lasting ones, each
/// once, ordered by rank and name, plain text under one name only.
pub fn normalized_mime_types(mime_types: Vec<String>) -> (r: Vec<String>)
    ensures
        views(r@) == kept_types(views(mime_types@)),
{
    let ghost offered = views(mime_types@);
    let mut full: Vec<String> = Vec::new();
    let mut i: usize = 0;
    proof {
        assert(views(full@) =~= Seq::empty());
        assert(offered.take(0) =~= Seq::empty());
    }
    while i < mime_types.len()
        invariant
            i <= mime_types.len(),
            offered == views(mime_types@),
            views(full@) == arranged(offered.take(i as int)),
        decreases mime_types.len() - i,
    {
        proof {
            assert(offered.take(i + 1).drop_last() =~= offered.take(i as int));
            assert(offered.take(i + 1).last() == mime_types@[i as int]@);
        }
        if !is_transient_mime_type(mime_types[i].as_str()) {
            put_type(&mut full, mime_types[i].clone());
        }
        i += 1;
    }
    proof {
        assert(offered.take(i as int) =~= offered);
    }
    let ghost all = views(full@);
    let mut out: Vec<String> = Vec::new();
    let mut kept_plain_text = false;
    let mut k: usize = 0;
    proof {
        assert(views(out@) =~= Seq::empty());
        assert(all.take(0) =~= Seq::empty());
    }
    while k < full.len()
        invariant
            k <= full.len(),
            all == views(full@),
            views(out@) == one_plain_text(all.take(k as int)),
            kept_plain_text == (first_index(all.take(k as int), plain_types()) < k),
        decreases full.len() - k,
    {
        let ghost before = out@;
        let ghost seen = all.take(k as int);
        let plain = is_plain_text_alias(full[k].as_str());
        proof {
            assert(all.take(k + 1).drop_last() =~= seen);
            assert(all.take(k + 1).last() == full@[k as int]@);
            lemma_first_index_bounds(seen, plain_types());
            lemma_first_index_push(seen, plain_types(), full@[k as int]@);
            assert(all.take(k + 1) =~= seen.push(full@[k as int]@));
        }
        if !(plain && kept_plain_text) {
            out.push(full[k].clone());
            proof {
                assert(views(out@) =~= views(before).push(full@[k as int]@));
            }
        }
        if plain {
            kept_plain_text = true;
        }
        k += 1;
    }
    proof {
        assert(all.take(k as int) =~= all);
    }
    let ghost untruncated = out@;
    out.truncate(MAX_REPRESENTATIONS);
    proof {
        assert(views(out@) =~= at_most(views(untruncated), MAX_REPRESENTATIONS as nat));
    }
    out
}

/// The first match of a longer sequence.
proof fn lemma_first_index_push<A>(s: Seq<A>, p: spec_fn(A) -> bool, a: A)
    ensures
        first_index(s.push(a), p) == if first_index(s, p) < s.len() {
            first_index(s, p)
        } else if p(a) {
            s.len()
        } else {
            s.len() + 1
        },
{
    lemma_first_index_bounds(s, p);
    let i = first_index(s, p);
    let t = s.push(a);
    let k = if i < s.len() {
        i
    } else if p(a) {
        s.len()
    } else {
        (s.len() + 1) as nat
    };
    assert forall|j: int| 0 <= j < k implies !p(#[trigger] t[j]) by {
        if j < s.len() {
            assert(t[j] == s[j]);
        }
    }
    lemma_first_index(t, p, k);
}

/// The types that a listing offers, one on each line.
pub open spec fn listed_types(listing: Seq<char>) -> Seq<Seq<char>> {
    lines(listing).map_values(|l: Seq<char>| trim(l)).filter(|m: Seq<char>| m.len() > 0)
}

/// The representations that are kept of those that a listing offers.
pub fn offered_mime_types(listing: &str) -> (r: Vec<String>)
    ensures
        views(r@) == kept_types(listed_types(listing@)),
{
    let all = text_lines(listing);
    let ghost trimmed = lines(listing@).map_values(|l: Seq<char>| trim(l));
    let ghost p = |m: Seq<char>| m.len() > 0;
    let mut out: Vec<String> = Vec::new();
    let mut i: usize = 0;
    proof {
        assert(trimmed.take(0).filter(p) =~= Seq::empty()) by {
            reveal(Seq::filter);
        }
        assert(views(out@) =~= Seq::empty());
    }
    while i < all.len()
        invariant
            i <= all.len(),
            views(all@) == lines(listing@),
            trimmed == lines(listing@).map_values(|l: Seq<char>| trim(l)),
            p == (|m: Seq<char>| m.len() > 0),
            views(out@) == trimmed.take(i as int).filter(p),
        decreases all.len() - i,
    {
        let ghost before = out@;
        let mime = trim_text(all[i].as_str());
        proof {
            assert(views(all@)[i as int] == all@[i as int]@);
            assert(trimmed[i as int] == mime@);
            lemma_filter_step(trimmed, p, i as int);
        }
        if !mime.as_str().is_empty() {
            out.push(mime);
            proof {
                assert(views(out@) =~= views(before).push(mime@));
            }
        }
        i += 1;
    }
    proof {
        assert(trimmed.take(i as int) =~= trimmed);
    }
    normalized_mime_types(out)
}

/// The size of a selection with one payload more, where it is still within the
/// limit.
pub fn accumulated_size(total: u64, payload: u64, max_entry_bytes: u64) -> (r: Option<u64>)
    ensures
        r == if total + payload <= u64::MAX && total + payload <= max_entry_bytes {
            Some((total + payload) as u64)
        } else if total + payload > u64::MAX && max_entry_bytes == u64::MAX {
            Some(u64::MAX)
        } else {
            None::<u64>
        },
{
    let sum: u64 = total.saturating_add(payload);
    if sum > max_entry_bytes {
        None
    } else {
        Some(sum)
    }
}

/// One representation of a selection.
#[derive(Debug)]
pub struct ClipboardData {
    pub mime_type: String,
    pub bytes: Vec<u8>,
}

/// A representation: its type and its bytes.
pub open spec fn data_views(s: Seq<ClipboardData>) -> Seq<(Seq<char>, Seq<u8>)> {
    s.map_values(|d: ClipboardData| (d.mime_type@, d.bytes@))
}

/// How one representation enters the identity: its type, a zero byte, its
/// length in eight bytes from the least significant, and its bytes.
pub open spec fn framed(d: (Seq<char>, Seq<u8>)) -> Seq<u8> {
    encode_utf8(d.0) + seq![0u8] + vstd::bytes::spec_u64_to_le_bytes(d.1.len() as u64) + d.1
}

/// What the identity of a selection is taken of.
pub open spec fn preimage(s: Seq<(Seq<char>, Seq<u8>)>) -> Seq<u8>
    decreases s.len(),
{
    if s.len() == 0 {
        Seq::empty()
    } else {
        preimage(s.drop_last()) + framed(s.last())
    }
}

/// The SHA-256 digest of some bytes, in hexadecimal digits of lower case.
pub uninterp spec fn sha256_hex(data: Seq<u8>) -> Seq<char>;

/// `sha2::Sha256::digest`, rendered by the `LowerHex` of its result: the
/// SHA-256 digest of the bytes, which the name stands for.
#[verifier::external_body]
fn sha256_hex_of(data: &[u8]) -> (r: String)
    ensures
        r@ == sha256_hex(data@),
{
    format!("{:x}", Sha256::digest(data))
}

/// Appends some bytes.
fn append_bytes(out: &mut Vec<u8>, bytes: &[u8])
    ensures
        final(out)@ == old(out)@ + bytes@,
{
    let mut i: usize = 0;
    proof {
        assert(out@ =~= old(out)@ + bytes@.take(0));
    }
    while i < bytes.len()
        invariant
            i <= bytes.len(),
            out@ == old(out)@ + bytes@.take(i as int),
        decreases bytes.len() - i,
    {
        out.push(bytes[i]);
        proof {
            assert(out@ =~= old(out)@ + bytes@.take(i + 1));
        }
        i += 1;
    }
    proof {
        assert(bytes@.take(i as int) =~= bytes@);
    }
}

/// The identity of a selection: its representations' types and bytes decide.
pub fn content_id(payloads: &Vec<ClipboardData>) -> (r: String)
    ensures
        r@ == sha256_hex(preimage(data_views(payloads@))),
{
    let ghost all = data_views(payloads@);
    let mut data: Vec<u8> = Vec::new();
    let mut i: usize = 0;
    proof {
        assert(all.take(0) =~= Seq::empty());
    }
    while i < payloads.len()
        invariant
            i <= payloads.len(),
            all == data_views(payloads@),
            data@ == preimage(all.take(i as int)),
        decreases payloads.len() - i,
    {
        let ghost before = data@;
        let payload = &payloads[i];
        append_bytes(&mut data, payload.mime_type.as_str().as_bytes());
        data.push(0);
        let length = vstd::bytes::u64_to_le_bytes(payload.bytes.len() as u64);
        append_bytes(&mut data, length.as_slice());
        append_bytes(&mut data, payload.bytes.as_slice());
        proof {
            assert(all.take(i + 1).drop_last() =~= all.take(i as int));
            assert(all.take(i + 1).last() == all[i as int]);
            assert(data@ =~= before + framed(all[i as int]));
        }
        i += 1;
    }
    proof {
        assert(all.take(i as int) =~= all);
    }
    sha256_hex_of(data.as_slice())
}

/// The sum of the sizes of some representations.
pub open spec fn data_size(s: Seq<(Seq<char>, Seq<u8>)>) -> nat
    decreases s.len(),
{
    if s.len() == 0 {
        0
    } else {
        data_size(s.drop_last()) + s.last().1.len()
    }
}

/// The sum of the sizes of some entries.
pub open spec fn entries_size(s: Seq<EntryView>) -> nat
    decreases s.len(),
{
    if s.len() == 0 {
        0
    } else {
        entries_size(s.drop_last()) + s.last().total_size as nat
    }
}

/// The entries that remain within the limits: the oldest, at the end, go first.
pub open spec fn pruned(s: Seq<EntryView>, config: ClipboardConfig) -> Seq<EntryView>
    decreases s.len(),
{
    if s.len() > 0 && (s.len() > config.max_entries || entries_size(s) > config.max_total_bytes) {
        pruned(s.drop_last(), config)
    } else {
        s
    }
}

/// The predicate that holds of the entry with an identity.
pub open spec fn with_identity(id: Seq<char>) -> spec_fn(EntryView) -> bool {
    |e: EntryView| e.id == id
}

/// The number in three digits at least.
pub open spec fn three_digits(n: nat) -> Seq<char> {
    let d = crate::text::decimal(n);
    if n < 10 {
        "00"@ + d
    } else if n < 100 {
        "0"@ + d
    } else {
        d
    }
}

/// The name of the file that holds the representation at an index.
pub open spec fn payload_file(i: nat) -> Seq<char> {
    three_digits(i) + ".bin"@
}

/// The name of the file that holds the representation at an index.
pub fn payload_file_name(index: usize) -> (r: String)
    ensures
        r@ == payload_file(index as nat),
{
    let digits = crate::text::decimal_text(index as u64);
    let mut out = if index < 10 {
        owned("00")
    } else if index < 100 {
        owned("0")
    } else {
        String::new()
    };
    out.append(digits.as_str());
    proof {
        assert(out@ =~= three_digits(index as nat));
    }
    out.append(".bin");
    out
}

/// Whether stored payloads describe the representations of a selection.
pub open spec fn describes(stored: Seq<ClipboardPayload>, s: Seq<(Seq<char>, Seq<u8>)>) -> bool {
    &&& stored.len() == s.len()
    &&& forall|i: int|
        0 <= i < s.len() ==> {
            &&& (#[trigger] stored[i]).mime_type@ == s[i].0
            &&& stored[i].file_name@ == payload_file(i as nat)
            &&& stored[i].size == s[i].1.len()
        }
}

/// What is to happen with a selection.
#[derive(Debug)]
pub enum AddPlan {
    /// It is empty, too large, or already the latest.
    Ignore,
    /// It is known: the entry at the index becomes the latest.
    Promote(usize),
    /// It is new and is to be stored under the identity.
    Store { id: String, payloads: Vec<ClipboardPayload>, total_size: u64 },
}

/// The history: entries, the latest first, and their limits.
pub struct ClipboardHistory {
    config: ClipboardConfig,
    entries: Vec<ClipboardEntry>,
}

impl View for ClipboardHistory {
    type V = Seq<EntryView>;

    closed spec fn view(&self) -> Seq<EntryView> {
        entry_views(self.entries@)
    }
}

/// Whether a selection is left out: it is empty or too large.
pub open spec fn refused(s: Seq<(Seq<char>, Seq<u8>)>, config: ClipboardConfig) -> bool {
    s.len() == 0 || data_size(s) > config.max_entry_bytes
}

impl ClipboardHistory {
    /// The limits.
    pub closed spec fn limits(&self) -> ClipboardConfig {
        self.config
    }

    /// A history of the entries that were loaded.
    pub fn new(config: ClipboardConfig, entries: Vec<ClipboardEntry>) -> (r: Self)
        ensures
            r@ == entry_views(entries@),
            r.limits() == config,
    {
        ClipboardHistory { config, entries }
    }

    /// The entries, the latest first.
    pub fn entries(&self) -> (r: &Vec<ClipboardEntry>)
        ensures
            entry_views(r@) == self@,
    {
        &self.entries
    }

    /// The limits.
    pub fn config(&self) -> (r: ClipboardConfig)
        ensures
            r == self.limits(),
    {
        self.config
    }

    /// Decides what is to happen with a selection.
    pub fn plan_add(&self, payloads: &Vec<ClipboardData>) -> (r: AddPlan)
        ensures
            ({
                let s = data_views(payloads@);
                let id = sha256_hex(preimage(s));
                let i = first_index(self@, with_identity(id));
                if refused(s, self.limits()) || (self@.len() > 0 && i == 0) {
                    r is Ignore
                } else if i < self@.len() {
                    r == AddPlan::Promote(i as usize) && i <= usize::MAX
                } else {
                    &&& r matches AddPlan::Store { id: key, payloads: stored, total_size }
                    &&& key@ == id
                    &&& describes(stored@, s)
                    &&& total_size == data_size(s)
                }
            }),
    {
        let ghost s = data_views(payloads@);
        let mut total: u64 = 0;
        let mut i: usize = 0;
        proof {
            assert(s.take(0) =~= Seq::empty());
        }
        if payloads.len() == 0 {
            return AddPlan::Ignore;
        }
        while i < payloads.len()
            invariant
                i <= payloads.len(),
                s == data_views(payloads@),
                total == data_size(s.take(i as int)),
                total <= self.config.max_entry_bytes,
            decreases payloads.len() - i,
        {
            proof {
                assert(s.take(i + 1).drop_last() =~= s.take(i as int));
                assert(s.take(i + 1).last() == s[i as int]);
                assert(s.take(s.len() as int) =~= s);
                lemma_data_size_prefix(s, i + 1);
            }
            let sum: u128 = total as u128 + payloads[i].bytes.len() as u128;
            if sum > self.config.max_entry_bytes as u128 {
                return AddPlan::Ignore;
            }
            total = sum as u64;
            i += 1;
        }
        proof {
            assert(s.take(i as int) =~= s);
        }
        let id = content_id(payloads);
        let k: usize = self.index_of(id.as_str());
        if k < self.entries.len() {
            if k == 0 {
                return AddPlan::Ignore;
            }
            return AddPlan::Promote(k);
        }
        let mut stored: Vec<ClipboardPayload> = Vec::new();
        let mut j: usize = 0;
        while j < payloads.len()
            invariant
                j <= payloads.len(),
                s == data_views(payloads@),
                stored@.len() == j,
                forall|x: int|
                    0 <= x < j ==> {
                        &&& (#[trigger] stored@[x]).mime_type@ == s[x].0
                        &&& stored@[x].file_name@ == payload_file(x as nat)
                        &&& stored@[x].size == s[x].1.len()
                    },
            decreases payloads.len() - j,
        {
            let payload = &payloads[j];
            stored.push(
                ClipboardPayload {
                    mime_type: payload.mime_type.clone(),
                    file_name: payload_file_name(j),
                    size: payload.bytes.len() as u64,
                },
            );
            j += 1;
        }
        AddPlan::Store { id, payloads: stored, total_size: total }
    }

    /// The index of the entry with an identity, or the number of entries.
    fn index_of(&self, id: &str) -> (r: usize)
        ensures
            r == first_index(self@, with_identity(id@)),
            r <= self@.len(),
            self@.len() == self.entries@.len(),
    {
        let mut i: usize = 0;
        while i < self.entries.len() && !same(self.entries[i].id.as_str(), id)
            invariant
                i <= self.entries.len(),
                forall|j: int| 0 <= j < i ==> !with_identity(id@)(#[trigger] self@[j]),
            decreases self.entries.len() - i,
        {
            i += 1;
        }
        proof {
            assert(i < self.entries.len() ==> self@[i as int] == self.entries@[i as int]@);
            lemma_first_index(self@, with_identity(id@), i as nat);
        }
        i
    }

    /// Makes a known entry the latest.
    pub fn promote(&mut self, index: usize)
        requires
            index < old(self)@.len(),
        ensures
            final(self)@ == seq![old(self)@[index as int]] + old(self)@.remove(index as int),
            final(self).limits() == old(self).limits(),
    {
        let ghost before = self.entries@;
        let entry = self.entries.remove(index);
        self.entries.insert(0, entry);
        proof {
            assert(entry_views(self.entries@) =~= seq![entry_views(before)[index as int]]
                + entry_views(before).remove(index as int));
        }
    }

    /// Takes in a new entry as the latest, and returns the entries that are
    /// then over the limits, which no longer belong to the history.
    pub fn insert(&mut self, entry: ClipboardEntry) -> (r: Vec<ClipboardEntry>)
        ensures
            final(self)@ == pruned(seq![entry@] + old(self)@, old(self).limits()),
            final(self)@ + entry_views(r@).reverse() == seq![entry@] + old(self)@,
            final(self).limits() == old(self).limits(),
    {
        let ghost before = self.entries@;
        self.entries.insert(0, entry);
        proof {
            assert(entry_views(self.entries@) =~= seq![entry@] + entry_views(before));
        }
        self.prune()
    }

    /// Removes the entries that are over the limits, and returns them.
    fn prune(&mut self) -> (r: Vec<ClipboardEntry>)
        ensures
            final(self)@ == pruned(old(self)@, old(self).limits()),
            final(self)@ + entry_views(r@).reverse() == old(self)@,
            final(self).limits() == old(self).limits(),
    {
        let mut total: u128 = 0;
        let mut i: usize = 0;
        proof {
            assert(self@.take(0) =~= Seq::empty());
        }
        while i < self.entries.len()
            invariant
                i <= self.entries.len(),
                *self == *old(self),
                total == entries_size(self@.take(i as int)),
                total <= i * 0xffff_ffff_ffff_ffff,
            decreases self.entries.len() - i,
        {
            proof {
                assert(self@.take(i + 1).drop_last() =~= self@.take(i as int));
                assert(self@.take(i + 1).last() == self.entries@[i as int]@);
                assert(i * 0xffff_ffff_ffff_ffff + 0xffff_ffff_ffff_ffff
                    <= 0xffff_ffff_ffff_ffff * 0x1_0000_0000_0000_0000) by (nonlinear_arith)
                    requires
                        i < 0xffff_ffff_ffff_ffff,
                ;
            }
            total = total + self.entries[i].total_size as u128;
            i += 1;
        }
        proof {
            assert(self@.take(i as int) =~= self@);
        }
        let mut gone: Vec<ClipboardEntry> = Vec::new();
        proof {
            assert(entry_views(gone@).reverse() =~= Seq::empty());
            assert(self@ + entry_views(gone@).reverse() =~= old(self)@);
        }
        loop
            invariant
                total == entries_size(self@),
                pruned(self@, old(self).limits()) == pruned(old(self)@, old(self).limits()),
                self@ + entry_views(gone@).reverse() == old(self)@,
                self.limits() == old(self).limits(),
            decreases self.entries.len(),
        {
            if !(self.entries.len() > self.config.max_entries || total
                > self.config.max_total_bytes as u128) {
                return gone;
            }
            let ghost before = self@;
            let ghost gone_before = gone@;
            match self.entries.pop() {
                Some(entry) => {
                    proof {
                        assert(self@ =~= before.drop_last());
                        assert(before.last() == entry@);
                    }
                    total = total - entry.total_size as u128;
                    gone.push(entry);
                    proof {
                        assert(entry_views(gone@) =~= entry_views(gone_before).push(entry@));
                        assert(entry_views(gone@).reverse() =~= seq![entry@] + entry_views(
                            gone_before,
                        ).reverse());
                        assert(self@ + entry_views(gone@).reverse() =~= before + entry_views(
                            gone_before,
                        ).reverse());
                    }
                },
                None => {
                    return gone;
                },
            }
        }
    }

    /// Empties the history and returns what it held.
    pub fn clear(&mut self) -> (r: Vec<ClipboardEntry>)
        ensures
            final(self)@ == Seq::<EntryView>::empty(),
            entry_views(r@) == old(self)@,
            final(self).limits() == old(self).limits(),
    {
        let mut gone: Vec<ClipboardEntry> = Vec::new();
        gone.append(&mut self.entries);
        proof {
            assert(entry_views(gone@) =~= old(self)@);
            assert(self@ =~= Seq::empty());
        }
        gone
    }
}

/// An entry of a stored history, with what was found of it on disk.
pub struct LoadedEntry {
    pub entry: ClipboardEntry,
    /// Whether all its files are there.
    pub complete: bool,
    /// The bytes of its first plain text, where they could be read.
    pub plain_text: Option<Vec<u8>>,
}

/// The contents of a loaded entry.
pub struct LoadedView {
    pub entry: EntryView,
    pub complete: bool,
    pub plain_text: Option<Seq<u8>>,
}

impl View for LoadedEntry {
    type V = LoadedView;

    open spec fn view(&self) -> LoadedView {
        LoadedView {
            entry: self.entry@,
            complete: self.complete,
            plain_text: match self.plain_text {
                Some(bytes) => Some(bytes@),
                None => None,
            },
        }
    }
}

/// The contents of some loaded entries.
pub open spec fn loaded_views(s: Seq<LoadedEntry>) -> Seq<LoadedView> {
    s.map_values(|l: LoadedEntry| l@)
}

/// Whether an entry can be used: it has payloads and all of them are there.
pub open spec fn usable(l: LoadedView) -> bool {
    l.entry.payloads.len() > 0 && l.complete
}

/// Whether an entry holds plain text and nothing else that lasts.
pub open spec fn plain_text_only(e: EntryView) -> bool {
    &&& find_first(e.payloads, plain_payloads()) is Some
    &&& forall|i: int|
        0 <= i < e.payloads.len() ==> plain_text_type((#[trigger] e.payloads[i]).mime_type@)
            || transient_type(e.payloads[i].mime_type@)
}

/// The texts of the usable entries that hold plain text only.
pub open spec fn seen_texts(s: Seq<LoadedView>) -> Seq<Seq<u8>>
    decreases s.len(),
{
    if s.len() == 0 {
        Seq::empty()
    } else {
        let l = s.last();
        let before = seen_texts(s.drop_last());
        if usable(l) && plain_text_only(l.entry) && l.plain_text is Some {
            before.push(l.plain_text->0)
        } else {
            before
        }
    }
}

/// Whether an entry is kept after some others: it can be used, and where it is
/// plain text only, its text could be read and did not occur before.
pub open spec fn kept_after(s: Seq<LoadedView>, l: LoadedView) -> bool {
    usable(l) && (!plain_text_only(l.entry) || (l.plain_text is Some && !seen_texts(s).contains(
        l.plain_text->0,
    )))
}

/// The entries of a stored history that are kept.
pub open spec fn kept_entries(s: Seq<LoadedView>) -> Seq<EntryView>
    decreases s.len(),
{
    if s.len() == 0 {
        Seq::empty()
    } else {
        let before = kept_entries(s.drop_last());
        if kept_after(s.drop_last(), s.last()) {
            before.push(s.last().entry)
        } else {
            before
        }
    }
}

/// The contents of some byte vectors.
pub open spec fn byte_views(s: Seq<Vec<u8>>) -> Seq<Seq<u8>> {
    s.map_values(|b: Vec<u8>| b@)
}

/// Whether a text occurs among others.
fn contains_bytes(s: &Vec<Vec<u8>>, b: &Vec<u8>) -> (r: bool)
    ensures
        r == byte_views(s@).contains(b@),
{
    let mut i: usize = 0;
    while i < s.len()
        invariant
            i <= s.len(),
            forall|j: int| 0 <= j < i ==> byte_views(s@)[j] != b@,
        decreases s.len() - i,
    {
        if same_bytes(&s[i], b) {
            proof {
                assert(byte_views(s@)[i as int] == b@);
            }
            return true;
        }
        i += 1;
    }
    false
}

/// Whether an entry holds plain text and nothing else that lasts.
fn is_plain_text_only(entry: &ClipboardEntry) -> (r: bool)
    ensures
        r == plain_text_only(entry@),
{
    if entry.plain_text_payload().is_none() {
        return false;
    }
    let mut i: usize = 0;
    while i < entry.payloads.len()
        invariant
            i <= entry.payloads.len(),
            forall|j: int|
                0 <= j < i ==> plain_text_type((#[trigger] entry@.payloads[j]).mime_type@)
                    || transient_type(entry@.payloads[j].mime_type@),
        decreases entry.payloads.len() - i,
    {
        let mime = entry.payloads[i].mime_type.as_str();
        if !is_plain_text_alias(mime) && !is_transient_mime_type(mime) {
            proof {
                assert(!plain_text_type(entry@.payloads[i as int].mime_type@));
            }
            return false;
        }
        i += 1;
    }
    true
}

/// The entries of a stored history that are kept: those that can be used, and
/// each plain text once.
pub fn load_entries(stored: Vec<LoadedEntry>) -> (r: Vec<ClipboardEntry>)
    ensures
        entry_views(r@) == kept_entries(loaded_views(stored@)),
{
    let ghost all = loaded_views(stored@);
    let ghost items = stored@;
    let mut stored = stored;
    let mut out: Vec<ClipboardEntry> = Vec::new();
    let mut seen: Vec<Vec<u8>> = Vec::new();
    let ghost mut k: int = 0;
    proof {
        assert(items.skip(0) =~= items);
        assert(all.take(0) =~= Seq::empty());
        assert(entry_views(out@) =~= Seq::empty());
        assert(byte_views(seen@) =~= Seq::empty());
    }
    while stored.len() > 0
        invariant
            0 <= k <= items.len(),
            all == loaded_views(items),
            stored@ == items.skip(k),
            entry_views(out@) == kept_entries(all.take(k)),
            byte_views(seen@) == seen_texts(all.take(k)),
        decreases stored.len(),
    {
        let ghost out_before = out@;
        let ghost seen_before = seen@;
        let loaded = stored.remove(0);
        proof {
            assert(loaded == items[k]);
            assert(stored@ =~= items.skip(k + 1));
            assert(all.take(k + 1).drop_last() =~= all.take(k));
            assert(all.take(k + 1).last() == loaded@);
        }
        let LoadedEntry { entry, complete, plain_text } = loaded;
        if entry.payloads.len() > 0 && complete {
            if is_plain_text_only(&entry) {
                if let Some(bytes) = plain_text {
                    let known = contains_bytes(&seen, &bytes);
                    seen.push(bytes);
                    proof {
                        assert(byte_views(seen@) =~= byte_views(seen_before).push(bytes@));
                    }
                    if !known {
                        out.push(entry);
                        proof {
                            assert(entry_views(out@) =~= entry_views(out_before).push(entry@));
                        }
                    }
                }
            } else {
                out.push(entry);
                proof {
                    assert(entry_views(out@) =~= entry_views(out_before).push(entry@));
                }
            }
        }
        proof {
            k = k + 1;
        }
    }
    proof {
        assert(all.take(k) =~= all);
    }
    out
}

/// The size of a part is at most the size of the whole.
proof fn lemma_data_size_prefix(s: Seq<(Seq<char>, Seq<u8>)>, i: int)
    requires
        0 <= i <= s.len(),
    ensures
        data_size(s.take(i)) <= data_size(s),
    decreases s.len() - i,
{
    if i < s.len() {
        lemma_data_size_prefix(s, i + 1);
        assert(s.take(i + 1).drop_last() =~= s.take(i));
    } else {
        assert(s.take(i) =~= s);
    }
}

} // verus!
