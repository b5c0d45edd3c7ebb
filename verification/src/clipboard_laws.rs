//! What holds of the clipboard history whatever is offered to it.

use vstd::prelude::*;
use vstd::utf8::{encode_scalar, encode_utf8, encode_utf8_decode_utf8};

use crate::clipboard::{
    arranged, data_size, describes, entries_size, framed, html_payloads, image_payloads, is_payload,
    kept_entries, kept_types, listed_types, not_before, one_plain_text, pasted_payload,
    payload_file, plain_payloads, plain_text_only, plain_text_type, plain_types, preimage, pruned,
    refused, seen_texts, shown_payload, text_payloads, three_digits, transient_type, type_before,
    with_identity, with_type, ClipboardConfig, ClipboardPayload, EntryView, LoadedView,
    MAX_REPRESENTATIONS,
};
use crate::seqs::{
    first_index, lemma_filter_keeps, lemma_filter_members, lemma_first_index,
    lemma_first_index_bounds,
};
use crate::text::{
    decimal, digits_value, lemma_decimal_value, lemma_text_less_total, lemma_text_less_transitive,
    lines, starts_with, text_less, trim,
};

verus! {

/// Whether types are in strict order, so that none occurs twice.
pub open spec fn in_order(s: Seq<Seq<char>>) -> bool {
    forall|i: int, j: int| 0 <= i < j < s.len() ==> type_before(#[trigger] s[i], #[trigger] s[j])
}

/// Whether every type says something lasting.
pub open spec fn all_lasting(s: Seq<Seq<char>>) -> bool {
    forall|i: int| 0 <= i < s.len() ==> !transient_type(#[trigger] s[i])
}

/// Whether plain text occurs under one name at most.
pub open spec fn one_plain_at_most(s: Seq<Seq<char>>) -> bool {
    forall|i: int, j: int|
        0 <= i < j < s.len() ==> !(plain_text_type(#[trigger] s[i]) && plain_text_type(
            #[trigger] s[j],
        ))
}

proof fn lemma_before_transitive(a: Seq<char>, b: Seq<char>, c: Seq<char>)
    requires
        type_before(a, b),
        type_before(b, c),
    ensures
        type_before(a, c),
{
    if text_less(a, b) && text_less(b, c) {
        lemma_text_less_transitive(a, b, c);
    }
}

/// Adding a type keeps the order, and adds nothing else.
proof fn lemma_with_type(s: Seq<Seq<char>>, m: Seq<char>)
    requires
        in_order(s),
    ensures
        in_order(with_type(s, m)),
        forall|x: Seq<char>| #[trigger]
            with_type(s, m).contains(x) <==> s.contains(x) || x == m,
{
    let p = not_before(m);
    let i = first_index(s, p) as int;
    lemma_first_index_bounds(s, p);
    let t = with_type(s, m);
    if i < s.len() && s[i] == m {
        assert(s.contains(m));
    } else {
        if i < s.len() {
            lemma_text_less_total(s[i], m);
        }
        assert forall|a: int, b: int| 0 <= a < b < t.len() implies type_before(
            #[trigger] t[a],
            #[trigger] t[b],
        ) by {
            if b == i {
                assert(!p(s[a]));
            } else if a == i {
                assert(type_before(m, s[i]));
                if b - 1 > i {
                    lemma_before_transitive(m, s[i], s[b - 1]);
                }
            }
        }
        assert forall|x: Seq<char>| #[trigger] t.contains(x) <==> s.contains(x) || x == m by {
            if s.contains(x) {
                let k = choose|k: int| 0 <= k < s.len() && s[k] == x;
                assert(t[if k < i {
                    k
                } else {
                    k + 1
                }] == x);
            }
            assert(t[i] == m);
            if t.contains(x) {
                let k = choose|k: int| 0 <= k < t.len() && t[k] == x;
                if k < i {
                    assert(s[k] == x);
                } else if k > i {
                    assert(s[k - 1] == x);
                }
            }
        }
    }
}

/// The arranged types are in strict order, and they are exactly the lasting
/// ones among those offered.
pub proof fn law_arranged(offered: Seq<Seq<char>>)
    ensures
        in_order(arranged(offered)),
        forall|x: Seq<char>| #[trigger]
            arranged(offered).contains(x) <==> offered.contains(x) && !transient_type(x),
    decreases offered.len(),
{
    if offered.len() > 0 {
        let rest = offered.drop_last();
        law_arranged(rest);
        lemma_with_type(arranged(rest), offered.last());
        assert forall|x: Seq<char>| offered.contains(x) <==> rest.contains(x) || x
            == offered.last() by {
            if offered.contains(x) {
                let k = choose|k: int| 0 <= k < offered.len() && offered[k] == x;
                if k < rest.len() {
                    assert(rest[k] == x);
                }
            }
            if rest.contains(x) {
                let k = choose|k: int| 0 <= k < rest.len() && rest[k] == x;
                assert(offered[k] == x);
            }
            assert(offered[offered.len() - 1] == offered.last());
        }
    }
}

/// Leaving out further names of plain text keeps the order and adds nothing.
proof fn lemma_one_plain_text(s: Seq<Seq<char>>)
    requires
        in_order(s),
    ensures
        in_order(one_plain_text(s)),
        one_plain_at_most(one_plain_text(s)),
        forall|i: int|
            0 <= i < one_plain_text(s).len() ==> s.contains(#[trigger] one_plain_text(s)[i]),
    decreases s.len(),
{
    if s.len() > 0 {
        let rest = s.drop_last();
        assert(in_order(rest));
        lemma_one_plain_text(rest);
        let before = one_plain_text(rest);
        let t = one_plain_text(s);
        lemma_first_index_bounds(rest, plain_types());
        assert forall|i: int| 0 <= i < before.len() implies type_before(
            #[trigger] before[i],
            s.last(),
        ) && s.contains(before[i]) && (plain_text_type(before[i]) ==> first_index(
            rest,
            plain_types(),
        ) < rest.len()) by {
            assert(rest.contains(before[i]));
            let k = choose|k: int| 0 <= k < rest.len() && rest[k] == before[i];
            assert(s[k] == before[i]);
            assert(type_before(s[k], s[s.len() - 1]));
            if plain_text_type(before[i]) {
                assert(plain_types()(rest[k]));
            }
        }
        assert forall|i: int| 0 <= i < t.len() implies s.contains(#[trigger] t[i]) by {
            if i < before.len() {
                assert(t[i] == before[i]);
            } else {
                assert(s[s.len() - 1] == t[i]);
            }
        }
    }
}

/// The kept representations are in strict order of rank and name, all of them
/// lasting, at most one of them plain text, and at most the permitted number.
pub proof fn law_kept_types(offered: Seq<Seq<char>>)
    ensures
        in_order(kept_types(offered)),
        all_lasting(kept_types(offered)),
        one_plain_at_most(kept_types(offered)),
        kept_types(offered).len() <= MAX_REPRESENTATIONS,
        forall|i: int|
            0 <= i < kept_types(offered).len() ==> offered.contains(#[trigger] kept_types(offered)[i]),
{
    let full = arranged(offered);
    law_arranged(offered);
    lemma_one_plain_text(full);
    let t = kept_types(offered);
    let u = one_plain_text(full);
    assert forall|i: int| 0 <= i < t.len() implies !transient_type(#[trigger] t[i])
        && offered.contains(t[i]) by {
        assert(t[i] == u[i]);
        assert(full.contains(u[i]));
    }
}

/// Types in order, all of them lasting, are arranged as they are.
proof fn lemma_arranged_fixed(s: Seq<Seq<char>>)
    requires
        in_order(s),
        all_lasting(s),
    ensures
        arranged(s) == s,
    decreases s.len(),
{
    if s.len() > 0 {
        let rest = s.drop_last();
        assert forall|i: int, j: int| 0 <= i < j < rest.len() implies type_before(
            #[trigger] rest[i],
            #[trigger] rest[j],
        ) by {
            assert(type_before(s[i], s[j]));
        }
        assert forall|i: int| 0 <= i < rest.len() implies !transient_type(#[trigger] rest[i]) by {
            assert(!transient_type(s[i]));
        }
        lemma_arranged_fixed(rest);
        let m = s.last();
        assert(!transient_type(s[s.len() - 1]));
        let p = not_before(m);
        assert forall|j: int| 0 <= j < rest.len() implies !p(#[trigger] rest[j]) by {
            assert(type_before(s[j], s[s.len() - 1]));
        }
        lemma_first_index(rest, p, rest.len());
        assert(with_type(rest, m) =~= s);
    } else {
        assert(arranged(s) =~= s);
    }
}

/// Types with plain text under one name at most stay as they are.
proof fn lemma_one_plain_fixed(s: Seq<Seq<char>>)
    requires
        one_plain_at_most(s),
    ensures
        one_plain_text(s) == s,
    decreases s.len(),
{
    if s.len() > 0 {
        let rest = s.drop_last();
        assert forall|i: int, j: int| 0 <= i < j < rest.len() implies !(plain_text_type(
            #[trigger] rest[i],
        ) && plain_text_type(#[trigger] rest[j])) by {
            assert(!(plain_text_type(s[i]) && plain_text_type(s[j])));
        }
        lemma_one_plain_fixed(rest);
        lemma_first_index_bounds(rest, plain_types());
        if plain_text_type(s.last()) {
            let k = first_index(rest, plain_types()) as int;
            if k < rest.len() {
                assert(plain_text_type(s[k]) && plain_text_type(s[s.len() - 1]));
            }
        }
        assert(one_plain_text(s) =~= s);
    }
}

/// Normalizing what is normalized changes nothing.
pub proof fn law_normalizing_twice(offered: Seq<Seq<char>>)
    ensures
        kept_types(kept_types(offered)) == kept_types(offered),
{
    let t = kept_types(offered);
    law_kept_types(offered);
    lemma_arranged_fixed(t);
    lemma_one_plain_fixed(t);
}

/// The sum of the sizes of a part is at most that of the whole.
proof fn lemma_entries_size_prefix(s: Seq<EntryView>, i: int)
    requires
        0 <= i <= s.len(),
    ensures
        entries_size(s.take(i)) <= entries_size(s),
    decreases s.len() - i,
{
    if i < s.len() {
        lemma_entries_size_prefix(s, i + 1);
        assert(s.take(i + 1).drop_last() =~= s.take(i));
    } else {
        assert(s.take(i) =~= s);
    }
}

/// Pruning keeps as many of the latest entries as the limits allow: what is
/// kept comes first in the history and is within both limits, and with one
/// entry more it would not be.
pub proof fn law_pruned(s: Seq<EntryView>, config: ClipboardConfig)
    ensures
        pruned(s, config).len() <= s.len(),
        pruned(s, config) == s.take(pruned(s, config).len() as int),
        pruned(s, config).len() <= config.max_entries,
        entries_size(pruned(s, config)) <= config.max_total_bytes,
        pruned(s, config).len() < s.len() ==> ({
            let longer = s.take(pruned(s, config).len() + 1int);
            longer.len() > config.max_entries || entries_size(longer) > config.max_total_bytes
        }),
    decreases s.len(),
{
    if s.len() > 0 && (s.len() > config.max_entries || entries_size(s) > config.max_total_bytes) {
        let t = s.drop_last();
        law_pruned(t, config);
        let n = pruned(t, config).len() as int;
        assert(s.take(n) =~= t.take(n));
        if n < t.len() {
            assert(s.take(n + 1) =~= t.take(n + 1));
        } else {
            assert(s.take(n + 1) =~= s);
        }
    } else {
        assert(s.take(s.len() as int) =~= s);
    }
}

/// Whether no identity occurs twice.
pub open spec fn identities_distinct(s: Seq<EntryView>) -> bool {
    forall|i: int, j: int| 0 <= i < j < s.len() ==> (#[trigger] s[i]).id != (#[trigger] s[j]).id
}

/// Making a known entry the latest leaves no identity twice.
pub proof fn law_promoting_keeps_identities(s: Seq<EntryView>, i: int)
    requires
        identities_distinct(s),
        0 <= i < s.len(),
    ensures
        identities_distinct(seq![s[i]] + s.remove(i)),
{
    let t = seq![s[i]] + s.remove(i);
    assert forall|a: int, b: int| 0 <= a < b < t.len() implies (#[trigger] t[a]).id != (
    #[trigger] t[b]).id by {
        let a0 = if a == 0 {
            i
        } else if a - 1 < i {
            a - 1
        } else {
            a
        };
        let b0 = if b - 1 < i {
            b - 1
        } else {
            b
        };
        assert(t[a] == s[a0]);
        assert(t[b] == s[b0]);
        if a0 < b0 {
            assert(s[a0].id != s[b0].id);
        } else {
            assert(s[b0].id != s[a0].id);
        }
    }
}

/// Taking in an entry whose identity is new, as it is for an entry that is to
/// be stored, leaves no identity twice.
pub proof fn law_inserting_keeps_identities(s: Seq<EntryView>, e: EntryView, config: ClipboardConfig)
    requires
        identities_distinct(s),
        first_index(s, with_identity(e.id)) == s.len(),
    ensures
        identities_distinct(pruned(seq![e] + s, config)),
{
    let all = seq![e] + s;
    lemma_first_index_bounds(s, with_identity(e.id));
    law_pruned(all, config);
    let t = pruned(all, config);
    assert forall|a: int, b: int| 0 <= a < b < t.len() implies (#[trigger] t[a]).id != (
    #[trigger] t[b]).id by {
        assert(t[a] == all[a]);
        assert(t[b] == all[b]);
        assert(!with_identity(e.id)(s[b - 1]));
        if a > 0 {
            assert(s[a - 1].id != s[b - 1].id);
        }
    }
}

/// Whether a text holds no null character.
pub open spec fn no_null(s: Seq<char>) -> bool {
    forall|i: int| 0 <= i < s.len() ==> #[trigger] s[i] != '\0'
}

/// The bytes of a scalar other than null are not zero.
proof fn lemma_scalar_bytes(c: u32)
    requires
        0 < c <= 0x10ffff,
    ensures
        forall|i: int| 0 <= i < encode_scalar(c).len() ==> #[trigger] encode_scalar(c)[i] != 0,
{
    assert(c <= 0x7f && c != 0 ==> (c & 0x7f) as u8 != 0) by (bit_vector);
    assert(0xC0u8 | ((c >> 6) & 0x1F) as u8 != 0) by (bit_vector);
    assert(0xE0u8 | ((c >> 12) & 0x0F) as u8 != 0) by (bit_vector);
    assert(0xF0u8 | ((c >> 18) & 0x7) as u8 != 0) by (bit_vector);
    assert(0x80u8 | (c & 0x3F) as u8 != 0) by (bit_vector);
    assert(0x80u8 | ((c >> 6) & 0x3F) as u8 != 0) by (bit_vector);
    assert(0x80u8 | ((c >> 12) & 0x3F) as u8 != 0) by (bit_vector);
}

/// A character other than null is a scalar other than zero.
proof fn lemma_scalar_of(c: char)
    requires
        c != '\0',
    ensures
        0 < c as u32 <= 0x10ffff,
{
}

/// The bytes of a text without null characters are not zero.
proof fn lemma_text_bytes(s: Seq<char>)
    requires
        no_null(s),
    ensures
        forall|i: int| 0 <= i < encode_utf8(s).len() ==> #[trigger] encode_utf8(s)[i] != 0,
    decreases s.len(),
{
    if s.len() > 0 {
        let rest = s.drop_first();
        assert(s[0] != '\0');
        assert forall|i: int| 0 <= i < rest.len() implies #[trigger] rest[i] != '\0' by {
            assert(s[i + 1] != '\0');
        }
        lemma_text_bytes(rest);
        lemma_scalar_of(s[0]);
        lemma_scalar_bytes(s[0] as u32);
        let head = encode_scalar(s[0] as u32);
        assert forall|i: int| 0 <= i < encode_utf8(s).len() implies #[trigger] encode_utf8(s)[i]
            != 0 by {
            if i < head.len() {
                assert(encode_utf8(s)[i] == head[i]);
            } else {
                assert(encode_utf8(s)[i] == encode_utf8(rest)[i - head.len()]);
            }
        }
    }
}

/// What an identity is taken of begins with its first representation.
proof fn lemma_preimage_first(s: Seq<(Seq<char>, Seq<u8>)>)
    requires
        s.len() > 0,
    ensures
        preimage(s) == framed(s[0]) + preimage(s.skip(1)),
    decreases s.len(),
{
    if s.len() == 1 {
        assert(s.drop_last() =~= Seq::empty());
        assert(s.skip(1) =~= Seq::empty());
        assert(preimage(s) =~= framed(s[0]) + preimage(s.skip(1)));
    } else {
        lemma_preimage_first(s.drop_last());
        assert(s.drop_last().skip(1) =~= s.skip(1).drop_last());
        assert(s.skip(1).last() == s.last());
        assert(preimage(s) =~= framed(s[0]) + preimage(s.skip(1)));
    }
}

/// Whether a selection can be framed: no type holds a null character, and each
/// length fits in eight bytes.
pub open spec fn frameable(s: Seq<(Seq<char>, Seq<u8>)>) -> bool {
    forall|i: int|
        0 <= i < s.len() ==> no_null((#[trigger] s[i]).0) && s[i].1.len() <= 0xffff_ffff_ffff_ffff
}

/// Two framed representations that begin the same bytes are the same.
proof fn lemma_framed_prefix(
    a: (Seq<char>, Seq<u8>),
    b: (Seq<char>, Seq<u8>),
    ra: Seq<u8>,
    rb: Seq<u8>,
)
    requires
        no_null(a.0),
        no_null(b.0),
        a.1.len() <= 0xffff_ffff_ffff_ffff,
        b.1.len() <= 0xffff_ffff_ffff_ffff,
        framed(a) + ra == framed(b) + rb,
    ensures
        a == b,
        ra == rb,
{
    let x = framed(a) + ra;
    let y = framed(b) + rb;
    let ea = encode_utf8(a.0);
    let eb = encode_utf8(b.0);
    lemma_text_bytes(a.0);
    lemma_text_bytes(b.0);
    assert(x[ea.len() as int] == 0);
    assert(y[eb.len() as int] == 0);
    if ea.len() < eb.len() {
        assert(y[ea.len() as int] == eb[ea.len() as int]);
        assert(false);
    }
    if eb.len() < ea.len() {
        assert(x[eb.len() as int] == ea[eb.len() as int]);
        assert(false);
    }
    assert forall|i: int| 0 <= i < ea.len() implies ea[i] == eb[i] by {
        assert(x[i] == ea[i]);
        assert(y[i] == eb[i]);
    }
    assert(ea =~= eb);
    encode_utf8_decode_utf8(a.0);
    encode_utf8_decode_utf8(b.0);
    vstd::bytes::lemma_auto_spec_u64_to_from_le_bytes();
    let la = vstd::bytes::spec_u64_to_le_bytes(a.1.len() as u64);
    let lb = vstd::bytes::spec_u64_to_le_bytes(b.1.len() as u64);
    let n = ea.len() as int;
    assert forall|i: int| 0 <= i < 8 implies la[i] == lb[i] by {
        assert(x[n + 1 + i] == la[i]);
        assert(y[n + 1 + i] == lb[i]);
    }
    assert(la =~= lb);
    assert(a.1.len() == b.1.len());
    assert forall|i: int| 0 <= i < a.1.len() implies a.1[i] == b.1[i] by {
        assert(x[n + 9 + i] == a.1[i]);
        assert(y[n + 9 + i] == b.1[i]);
    }
    assert(a.1 =~= b.1);
    let m = framed(a).len() as int;
    assert(x.skip(m) =~= ra);
    assert(y.skip(m) =~= rb);
}

/// What identities are taken of differs for any two selections that differ in
/// a type, in bytes, or in the order of their representations.
pub proof fn law_identity_covers_types_and_bytes(
    a: Seq<(Seq<char>, Seq<u8>)>,
    b: Seq<(Seq<char>, Seq<u8>)>,
)
    requires
        frameable(a),
        frameable(b),
        preimage(a) == preimage(b),
    ensures
        a == b,
    decreases a.len(),
{
    vstd::bytes::lemma_auto_spec_u64_to_from_le_bytes();
    if a.len() == 0 {
        if b.len() > 0 {
            lemma_preimage_first(b);
            assert(preimage(b).len() > 0);
        }
        assert(a =~= b);
    } else if b.len() == 0 {
        lemma_preimage_first(a);
        assert(preimage(a).len() > 0);
    } else {
        lemma_preimage_first(a);
        lemma_preimage_first(b);
        assert(no_null(a[0].0) && no_null(b[0].0));
        lemma_framed_prefix(a[0], b[0], preimage(a.skip(1)), preimage(b.skip(1)));
        assert forall|i: int| 0 <= i < a.skip(1).len() implies no_null((#[trigger] a.skip(1)[i]).0)
            && a.skip(1)[i].1.len() <= 0xffff_ffff_ffff_ffff by {
            assert(a.skip(1)[i] == a[i + 1]);
        }
        assert forall|i: int| 0 <= i < b.skip(1).len() implies no_null((#[trigger] b.skip(1)[i]).0)
            && b.skip(1)[i].1.len() <= 0xffff_ffff_ffff_ffff by {
            assert(b.skip(1)[i] == b[i + 1]);
        }
        law_identity_covers_types_and_bytes(a.skip(1), b.skip(1));
        assert(a =~= seq![a[0]] + a.skip(1));
        assert(b =~= seq![b[0]] + b.skip(1));
    }
}

/// Whether a type is a name of plain text.
pub open spec fn text_name(m: Seq<char>) -> bool {
    ||| m == "text/plain"@
    ||| m == "text/plain;charset=utf-8"@
    ||| m == "UTF8_STRING"@
    ||| m == "STRING"@
    ||| m == "TEXT"@
}

/// Whether a type is only of the moment: a process, or a mark of the shell itself.
pub open spec fn passing_name(m: Seq<char>) -> bool {
    "pid/"@.is_prefix_of(m) || "application/x-bah"@.is_prefix_of(m)
}

/// Whether an entry with all its files holds plain text, and otherwise nothing but
/// types of the moment.
pub open spec fn bare_text(l: LoadedView) -> bool {
    &&& l.complete
    &&& exists|i: int|
        0 <= i < l.entry.payloads.len() && text_name((#[trigger] l.entry.payloads[i]).mime_type@)
    &&& forall|i: int|
        0 <= i < l.entry.payloads.len() ==> text_name((#[trigger] l.entry.payloads[i]).mime_type@)
            || passing_name(l.entry.payloads[i].mime_type@)
}

/// Which types are names of plain text, and which are of the moment.
pub proof fn law_type_names(m: Seq<char>)
    ensures
        plain_text_type(m) == text_name(m),
        transient_type(m) == passing_name(m),
{
    reveal_strlit("pid/");
    reveal_strlit("application/x-bah");
    lemma_prefix(m, "pid/"@);
    lemma_prefix(m, "application/x-bah"@);
}

proof fn lemma_prefix(m: Seq<char>, p: Seq<char>)
    ensures
        starts_with(m, p) == p.is_prefix_of(m),
{
    if p.len() <= m.len() {
        assert(m.take(p.len() as int) =~= m.subrange(0, p.len() as int));
    }
}

proof fn lemma_bare_text(l: LoadedView)
    ensures
        bare_text(l) == (l.complete && l.entry.payloads.len() > 0 && plain_text_only(l.entry)),
{
    let s = l.entry.payloads;
    assert forall|i: int| 0 <= i < s.len() implies plain_text_type((#[trigger] s[i]).mime_type@)
        == text_name(s[i].mime_type@) && transient_type(s[i].mime_type@) == passing_name(
        s[i].mime_type@,
    ) by {
        law_type_names(s[i].mime_type@);
    }
    lemma_first_index_bounds(s, plain_payloads());
    let k = first_index(s, plain_payloads()) as int;
    if exists|i: int| 0 <= i < s.len() && text_name((#[trigger] s[i]).mime_type@) {
        let i = choose|i: int| 0 <= i < s.len() && text_name((#[trigger] s[i]).mime_type@);
        assert(plain_payloads()(s[i]));
    }
    if k < s.len() {
        assert(plain_payloads()(s[k]));
        assert(text_name(s[k].mime_type@));
    }
    if plain_text_only(l.entry) {
        assert forall|i: int| 0 <= i < s.len() implies text_name((#[trigger] s[i]).mime_type@)
            || passing_name(s[i].mime_type@) by {
            assert(plain_text_type(l.entry.payloads[i].mime_type@) || transient_type(
                l.entry.payloads[i].mime_type@,
            ));
        }
    }
    if bare_text(l) {
        assert forall|i: int| 0 <= i < s.len() implies plain_text_type(
            (#[trigger] l.entry.payloads[i]).mime_type@,
        ) || transient_type(l.entry.payloads[i].mime_type@) by {
            assert(text_name(l.entry.payloads[i].mime_type@) || passing_name(
                l.entry.payloads[i].mime_type@,
            ));
        }
    }
}

proof fn lemma_seen_texts(s: Seq<LoadedView>, text: Seq<u8>)
    ensures
        seen_texts(s).contains(text) == exists|j: int|
            0 <= j < s.len() && bare_text(#[trigger] s[j]) && s[j].plain_text == Some(text),
    decreases s.len(),
{
    if s.len() > 0 {
        let rest = s.drop_last();
        let l = s.last();
        lemma_seen_texts(rest, text);
        lemma_bare_text(l);
        let before = seen_texts(rest);
        if before.contains(text) {
            let k = choose|k: int| 0 <= k < before.len() && before[k] == text;
            assert(seen_texts(s)[k] == text);
            let j = choose|j: int|
                0 <= j < rest.len() && bare_text(#[trigger] rest[j]) && rest[j].plain_text == Some(
                    text,
                );
            assert(s[j] == rest[j]);
        }
        if bare_text(l) && l.plain_text == Some(text) {
            assert(seen_texts(s)[before.len() as int] == text);
            assert(s[s.len() - 1] == l);
        }
        if seen_texts(s).contains(text) && !before.contains(text) {
            let k = choose|k: int| 0 <= k < seen_texts(s).len() && seen_texts(s)[k] == text;
            if k < before.len() {
                assert(before[k] == text);
            }
            assert(s[s.len() - 1] == l);
        }
        if exists|j: int|
            0 <= j < s.len() && bare_text(#[trigger] s[j]) && s[j].plain_text == Some(text) {
            let j = choose|j: int|
                0 <= j < s.len() && bare_text(#[trigger] s[j]) && s[j].plain_text == Some(text);
            if j < rest.len() {
                assert(rest[j] == s[j]);
            }
        }
    }
}

/// Loading keeps, in their order, the entries that have payloads and all their
/// files, but for a plain text that could not be read or that an earlier entry of
/// plain text already holds. Where each kept entry comes from is returned.
pub proof fn law_loaded_entries(s: Seq<LoadedView>) -> (origin: Seq<int>)
    ensures
        origin.len() == kept_entries(s).len(),
        forall|k: int|
            0 <= k < origin.len() ==> 0 <= #[trigger] origin[k] < s.len() && kept_entries(s)[k]
                == s[origin[k]].entry,
        forall|j: int, k: int|
            0 <= j < k < origin.len() ==> #[trigger] origin[j] < #[trigger] origin[k],
        forall|i: int|
            0 <= i < s.len() ==> (origin.contains(i) <==> {
                &&& (#[trigger] s[i]).entry.payloads.len() > 0
                &&& s[i].complete
                &&& bare_text(s[i]) ==> s[i].plain_text is Some && forall|j: int|
                    0 <= j < i && bare_text(#[trigger] s[j]) ==> s[j].plain_text != s[i].plain_text
            }),
    decreases s.len(),
{
    if s.len() == 0 {
        Seq::empty()
    } else {
        let rest = s.drop_last();
        let l = s.last();
        let n = s.len() - 1;
        let before = law_loaded_entries(rest);
        lemma_bare_text(l);
        if l.plain_text is Some {
            lemma_seen_texts(rest, l.plain_text->0);
        }
        let wanted = l.entry.payloads.len() > 0 && l.complete && (bare_text(l) ==> l.plain_text
            is Some && forall|j: int|
            0 <= j < n && bare_text(#[trigger] s[j]) ==> s[j].plain_text != l.plain_text);
        let kept = kept_entries(s).len() > kept_entries(rest).len();
        assert(wanted == kept) by {
            if bare_text(l) && l.plain_text is Some {
                if seen_texts(rest).contains(l.plain_text->0) {
                    let j = choose|j: int|
                        0 <= j < rest.len() && bare_text(#[trigger] rest[j]) && rest[j].plain_text
                            == Some(l.plain_text->0);
                    assert(s[j] == rest[j]);
                } else {
                    assert forall|j: int| 0 <= j < n && bare_text(#[trigger] s[j]) implies s[j].plain_text
                        != l.plain_text by {
                        assert(rest[j] == s[j]);
                    }
                }
            }
        }
        let origin = if kept {
            before.push(n)
        } else {
            before
        };
        assert forall|i: int| 0 <= i < s.len() implies (origin.contains(i) <==> {
            &&& (#[trigger] s[i]).entry.payloads.len() > 0
            &&& s[i].complete
            &&& bare_text(s[i]) ==> s[i].plain_text is Some && forall|j: int|
                0 <= j < i && bare_text(#[trigger] s[j]) ==> s[j].plain_text != s[i].plain_text
        }) by {
            if i < n {
                assert(rest[i] == s[i]);
                assert(forall|j: int| 0 <= j < i ==> rest[j] == #[trigger] s[j]);
                assert(forall|j: int| 0 <= j < i ==> #[trigger] rest[j] == s[j]);
                if before.contains(i) {
                    let k = choose|k: int| 0 <= k < before.len() && before[k] == i;
                    assert(origin[k] == i);
                }
                if origin.contains(i) {
                    let k = choose|k: int| 0 <= k < origin.len() && origin[k] == i;
                    assert(before[k] == i);
                }
            } else {
                if kept {
                    assert(origin[before.len() as int] == n);
                }
                if before.contains(n) {
                    let k = choose|k: int| 0 <= k < before.len() && before[k] == n;
                    assert(before[k] < rest.len());
                }
            }
        }
        origin
    }
}

/// Whether a payload is a picture.
pub open spec fn is_picture(p: ClipboardPayload) -> bool {
    "image/"@.is_prefix_of(p.mime_type@)
}

/// Whether a payload is text of some kind.
pub open spec fn is_textual(p: ClipboardPayload) -> bool {
    ||| "text/"@.is_prefix_of(p.mime_type@)
    ||| p.mime_type@ == "UTF8_STRING"@
    ||| p.mime_type@ == "STRING"@
    ||| p.mime_type@ == "TEXT"@
}

/// The payloads that count as pictures and as text.
pub proof fn lemma_payload_kinds(s: Seq<ClipboardPayload>)
    ensures
        forall|i: int|
            0 <= i < s.len() ==> image_payloads()(#[trigger] s[i]) == is_picture(s[i])
                && text_payloads()(s[i]) == is_textual(s[i]),
{
    assert forall|i: int| 0 <= i < s.len() implies image_payloads()(#[trigger] s[i]) == is_picture(
        s[i],
    ) && text_payloads()(s[i]) == is_textual(s[i]) by {
        lemma_prefix(s[i].mime_type@, "image/"@);
        lemma_prefix(s[i].mime_type@, "text/"@);
    }
}

/// What is pasted is the first picture; without one the first formatted text;
/// without that the first text; and else the first payload. What an entry is shown
/// by leaves out the formatted text.
pub proof fn law_pasted_payload(s: Seq<ClipboardPayload>, at: int)
    requires
        0 <= at < s.len(),
    ensures
        is_picture(s[at]) && (forall|j: int| 0 <= j < at ==> !is_picture(#[trigger] s[j]))
            ==> pasted_payload(s) == Some(s[at]) && shown_payload(s) == Some(s[at]),
        (forall|j: int| 0 <= j < s.len() ==> !is_picture(#[trigger] s[j])) ==> {
            &&& s[at].mime_type@ == "text/html"@ && (forall|j: int|
                0 <= j < at ==> (#[trigger] s[j]).mime_type@ != "text/html"@) ==> pasted_payload(s)
                == Some(s[at])
            &&& is_textual(s[at]) && (forall|j: int| 0 <= j < at ==> !is_textual(#[trigger] s[j]))
                ==> shown_payload(s) == Some(s[at])
            &&& is_textual(s[at]) && (forall|j: int| 0 <= j < at ==> !is_textual(#[trigger] s[j]))
                && (forall|j: int| 0 <= j < s.len() ==> (#[trigger] s[j]).mime_type@ != "text/html"@)
                ==> pasted_payload(s) == Some(s[at])
            &&& (forall|j: int| 0 <= j < s.len() ==> !is_textual(#[trigger] s[j]) && s[j].mime_type@
                != "text/html"@) ==> pasted_payload(s) == Some(s[0]) && shown_payload(s) == Some(
                s[0],
            )
        },
{
    lemma_payload_kinds(s);
    if is_picture(s[at]) && (forall|j: int| 0 <= j < at ==> !is_picture(#[trigger] s[j])) {
        lemma_first_index(s, image_payloads(), at as nat);
    }
    if forall|j: int| 0 <= j < s.len() ==> !is_picture(#[trigger] s[j]) {
        lemma_first_index(s, image_payloads(), s.len());
        if s[at].mime_type@ == "text/html"@ && (forall|j: int|
            0 <= j < at ==> (#[trigger] s[j]).mime_type@ != "text/html"@) {
            lemma_first_index(s, html_payloads(), at as nat);
        }
        if is_textual(s[at]) && (forall|j: int| 0 <= j < at ==> !is_textual(#[trigger] s[j])) {
            lemma_first_index(s, text_payloads(), at as nat);
        }
        if forall|j: int| 0 <= j < s.len() ==> (#[trigger] s[j]).mime_type@ != "text/html"@ {
            lemma_first_index(s, html_payloads(), s.len());
        }
        if forall|j: int|
            0 <= j < s.len() ==> !is_textual(#[trigger] s[j]) && s[j].mime_type@ != "text/html"@ {
            lemma_first_index(s, text_payloads(), s.len());
            lemma_first_index(s, html_payloads(), s.len());
        }
    }
}

/// Plain text in the usual encoding comes before all other types, then plain text,
/// then pictures in the usual format, then other pictures, then lists of files, and
/// then the rest by name.
pub proof fn law_order_of_types(a: Seq<char>, b: Seq<char>)
    requires
        a != b,
    ensures
        a == "text/plain;charset=utf-8"@ ==> type_before(a, b) && !type_before(b, a),
        a == "text/plain"@ && b != "text/plain;charset=utf-8"@ ==> type_before(a, b),
        "image/png"@.is_prefix_of(a) && !text_name(b) && !"image/png"@.is_prefix_of(b)
            ==> type_before(a, b),
        "image/"@.is_prefix_of(a) && !text_name(b) && !"image/"@.is_prefix_of(b) ==> type_before(
            a,
            b,
        ),
        a == "text/uri-list"@ && !text_name(b) && !"image/"@.is_prefix_of(b) ==> type_before(a, b),
        !text_name(a) && !text_name(b) && !"image/"@.is_prefix_of(a) && !"image/"@.is_prefix_of(b)
            && a != "text/uri-list"@ && b != "text/uri-list"@ ==> type_before(a, b) == text_less(
            a,
            b,
        ),
        type_before(a, b) || type_before(b, a),
{
    reveal_strlit("text/plain;charset=utf-8");
    reveal_strlit("text/plain");
    reveal_strlit("text/uri-list");
    reveal_strlit("image/png");
    reveal_strlit("image/");
    assert("text/plain;charset=utf-8"@.len() == 24);
    assert("text/plain"@.len() == 10);
    assert("text/uri-list"@.len() == 13);
    assert("text/uri-list"@[0] == 't' && "text/plain"@[0] == 't');
    assert("image/"@[0] == 'i' && "image/png"@[0] == 'i');
    lemma_prefix(a, "image/png"@);
    lemma_prefix(b, "image/png"@);
    lemma_prefix(a, "image/"@);
    lemma_prefix(b, "image/"@);
    assert("image/"@ =~= "image/png"@.take(6));
    lemma_not_picture(a);
    lemma_not_picture(b);
    lemma_text_less_total(a, b);
}

/// Names of plain text and lists of files are no pictures, and a picture in the
/// usual format is one.
proof fn lemma_not_picture(m: Seq<char>)
    ensures
        m == "text/plain;charset=utf-8"@ || m == "text/plain"@ || m == "text/uri-list"@
            ==> !starts_with(m, "image/"@),
        starts_with(m, "image/png"@) ==> starts_with(m, "image/"@),
{
    reveal_strlit("text/plain;charset=utf-8");
    reveal_strlit("text/plain");
    reveal_strlit("text/uri-list");
    reveal_strlit("image/png");
    reveal_strlit("image/");
    if starts_with(m, "image/"@) {
        assert(m[0] == m.take("image/"@.len() as int)[0]);
        assert(m[0] == 'i');
    }
    if starts_with(m, "image/png"@) {
        assert(m.take(6) =~= m.take(9).take(6));
        assert("image/png"@.take(6) =~= "image/"@);
    }
}

/// Leaving out further names of plain text leaves every other type, and one name
/// of plain text where there is any.
proof fn lemma_one_plain_text_keeps(s: Seq<Seq<char>>, i: int)
    requires
        0 <= i < s.len(),
    ensures
        !plain_text_type(s[i]) ==> one_plain_text(s).contains(s[i]),
        plain_text_type(s[i]) ==> exists|k: int|
            0 <= k < one_plain_text(s).len() && plain_text_type(#[trigger] one_plain_text(s)[k]),
    decreases s.len(),
{
    let rest = s.drop_last();
    let before = one_plain_text(rest);
    let t = one_plain_text(s);
    lemma_first_index_bounds(rest, plain_types());
    let f = first_index(rest, plain_types()) as int;
    if i < rest.len() {
        lemma_one_plain_text_keeps(rest, i);
        if plain_text_type(s[i]) {
            let k = choose|k: int|
                0 <= k < before.len() && plain_text_type(#[trigger] before[k]);
            assert(t[k] == before[k]);
        } else {
            let k = choose|k: int| 0 <= k < before.len() && before[k] == s[i];
            assert(t[k] == s[i]);
        }
    } else if plain_text_type(s[i]) && f < rest.len() {
        lemma_one_plain_text_keeps(rest, f);
        assert(plain_types()(rest[f]));
        let k = choose|k: int| 0 <= k < before.len() && plain_text_type(#[trigger] before[k]);
        assert(t[k] == before[k]);
    } else {
        assert(t[before.len() as int] == s[i]);
    }
}

/// Of the offered types none that lasts is left out, but for further names of plain
/// text and for want of room.
pub proof fn law_lasting_types_are_kept(offered: Seq<Seq<char>>, m: Seq<char>)
    requires
        offered.contains(m),
        !passing_name(m),
    ensures
        kept_types(offered).len() <= 32,
        kept_types(offered).len() < 32 && !text_name(m) ==> kept_types(offered).contains(m),
        kept_types(offered).len() < 32 && text_name(m) ==> exists|k: int|
            0 <= k < kept_types(offered).len() && text_name(#[trigger] kept_types(offered)[k]),
{
    law_arranged(offered);
    law_type_names(m);
    let full = arranged(offered);
    assert(full.contains(m));
    let i = choose|i: int| 0 <= i < full.len() && full[i] == m;
    lemma_one_plain_text_keeps(full, i);
    let u = one_plain_text(full);
    let t = kept_types(offered);
    if t.len() < 32 {
        assert(t == u);
        if text_name(m) {
            let k = choose|k: int| 0 <= k < u.len() && plain_text_type(#[trigger] u[k]);
            law_type_names(u[k]);
            assert(text_name(t[k]));
        }
    }
}

/// The size of a history is the sum of the sizes of its entries, and that of a
/// selection the sum of the lengths of its bytes.
pub proof fn law_sizes_add_up(s: Seq<EntryView>, e: EntryView, d: Seq<(Seq<char>, Seq<u8>)>, x: (
    Seq<char>,
    Seq<u8>,
))
    ensures
        entries_size(Seq::empty()) == 0,
        entries_size(s.push(e)) == entries_size(s) + e.total_size,
        data_size(Seq::empty()) == 0,
        data_size(d.push(x)) == data_size(d) + x.1.len(),
{
    assert(s.push(e).drop_last() =~= s);
    assert(d.push(x).drop_last() =~= d);
}

/// A listing offers what stands on its lines, without white space around it; blank lines
/// offer nothing.
pub proof fn law_listed_types(listing: Seq<char>, i: int)
    requires
        0 <= i < lines(listing).len(),
    ensures
        trim(lines(listing)[i]).len() > 0 ==> listed_types(listing).contains(
            trim(lines(listing)[i]),
        ),
        forall|k: int|
            0 <= k < listed_types(listing).len() ==> (#[trigger] listed_types(listing)[k]).len()
                > 0 && exists|j: int|
                0 <= j < lines(listing).len() && trim(#[trigger] lines(listing)[j])
                    == listed_types(listing)[k],
{
    let ls = lines(listing);
    let trimmed = ls.map_values(|l: Seq<char>| trim(l));
    let p = |m: Seq<char>| m.len() > 0;
    let r = listed_types(listing);
    assert(trimmed[i] == trim(ls[i]));
    lemma_filter_members(trimmed, p);
    if trim(ls[i]).len() > 0 {
        lemma_filter_keeps(trimmed, p, i);
    }
    assert forall|k: int| 0 <= k < r.len() implies (#[trigger] r[k]).len() > 0 && exists|j: int|
        0 <= j < ls.len() && trim(#[trigger] ls[j]) == r[k] by {
        assert(p(r[k]));
        assert(trimmed.contains(r[k]));
        let j = choose|j: int| 0 <= j < trimmed.len() && trimmed[j] == r[k];
        assert(trim(ls[j]) == r[k]);
    }
}

/// The files of a selection have names of their own: no two representations share one,
/// and the first thousand have names of three digits.
pub proof fn law_files_have_names_of_their_own(i: nat, j: nat)
    ensures
        payload_file(i) == payload_file(j) ==> i == j,
        i < 1000 ==> payload_file(i).len() == 7,
        ".bin"@.is_suffix_of(payload_file(i)),
{
    reveal_strlit(".bin");
    lemma_three_digits(i);
    lemma_three_digits(j);
    let a = three_digits(i);
    let b = three_digits(j);
    let f = payload_file(i);
    assert(".bin"@.len() == 4);
    assert(f.subrange(f.len() - 4, f.len() as int) =~= ".bin"@);
    assert(f.take(f.len() - 4) =~= a);
    assert(payload_file(j).take(payload_file(j).len() - 4) =~= b);
}

proof fn lemma_three_digits(n: nat)
    ensures
        digits_value(three_digits(n)) == n,
        n < 1000 ==> three_digits(n).len() == 3,
{
    reveal_strlit("0");
    reveal_strlit("00");
    reveal_with_fuel(decimal, 3);
    lemma_decimal_value(n);
    let d = decimal(n);
    let r = three_digits(n);
    if n < 10 {
        reveal_with_fuel(digits_value, 4);
        assert(r =~= seq!['0', '0', d[0]]);
        assert(r.drop_last() =~= seq!['0', '0']);
        assert(r.drop_last().drop_last() =~= seq!['0']);
        assert(r.drop_last().drop_last().drop_last() =~= Seq::empty());
        assert(d.drop_last() =~= Seq::empty());
    } else if n < 100 {
        reveal_with_fuel(digits_value, 4);
        assert(r =~= seq!['0', d[0], d[1]]);
        assert(r.drop_last() =~= seq!['0', d[0]]);
        assert(r.drop_last().drop_last() =~= seq!['0']);
        assert(r.drop_last().drop_last().drop_last() =~= Seq::empty());
        assert(d =~= seq![d[0], d[1]]);
        assert(d.drop_last() =~= seq![d[0]]);
        assert(d.drop_last().drop_last() =~= Seq::empty());
    }
}

/// What is stored of a selection names each of its types, in order, with the length of
/// its bytes and a file of its own.
pub proof fn law_stored_selection(
    stored: Seq<ClipboardPayload>,
    s: Seq<(Seq<char>, Seq<u8>)>,
    i: int,
    j: int,
)
    requires
        describes(stored, s),
        0 <= i < s.len(),
        0 <= j < s.len(),
    ensures
        stored.len() == s.len(),
        stored[i].mime_type@ == s[i].0,
        stored[i].size == s[i].1.len(),
        i != j ==> stored[i].file_name@ != stored[j].file_name@,
{
    law_files_have_names_of_their_own(i as nat, j as nat);
    assert(stored[i].file_name@ == payload_file(i as nat));
    assert(stored[j].file_name@ == payload_file(j as nat));
}

/// A selection is left out only where there is nothing in it or more than an entry may
/// hold; what an entry may just hold is kept.
pub proof fn law_what_is_left_out(s: Seq<(Seq<char>, Seq<u8>)>, config: ClipboardConfig)
    ensures
        refused(Seq::empty(), config),
        s.len() > 0 && data_size(s) <= config.max_entry_bytes ==> !refused(s, config),
        data_size(s) > config.max_entry_bytes ==> refused(s, config),
{
}

/// Without payloads nothing is pasted or shown; and what is found is the payload that is
/// meant, or nothing where none is.
pub proof fn law_found_payload(p: &ClipboardPayload, meant: Option<ClipboardPayload>)
    ensures
        pasted_payload(Seq::empty()) is None,
        shown_payload(Seq::empty()) is None,
        is_payload(Some(p), meant) <==> meant == Some(*p),
        is_payload(None, meant) <==> meant is None,
{
    let none = Seq::<ClipboardPayload>::empty();
    lemma_first_index(none, image_payloads(), 0);
    lemma_first_index(none, html_payloads(), 0);
    lemma_first_index(none, text_payloads(), 0);
}

} // verus!
