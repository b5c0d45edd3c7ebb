//! What holds of the text primitives, stated of the texts themselves.

use vstd::prelude::*;

use crate::text::{
    ascii_lowercase, black, decimal, decimal_int, is_digit, is_white, join, lemma_decimal_value,
    lemma_position, lemma_position_bounds, lines, only,
    parse_unsigned, position, split_on, split_once, strip_return, trim, trim_end, trim_start,
    text_less, white, words,
};

verus! {

/// Whether a text consists of white space.
pub open spec fn all_white(s: Seq<char>) -> bool {
    forall|i: int| 0 <= i < s.len() ==> is_white(#[trigger] s[i])
}

/// Whether a text holds no white space.
pub open spec fn no_white(s: Seq<char>) -> bool {
    forall|i: int| 0 <= i < s.len() ==> !is_white(#[trigger] s[i])
}

/// Splitting at the first separator takes the text apart there, and is refused
/// exactly where there is none.
pub proof fn law_split_once(s: Seq<char>, c: char, a: Seq<char>, b: Seq<char>)
    ensures
        split_once(s, c) == Some((a, b)) <==> s == a + seq![c] + b && !a.contains(c),
        split_once(s, c) is None <==> !s.contains(c),
{
    let i = position(s, only(c)) as int;
    lemma_position_bounds(s, only(c));
    if i < s.len() {
        assert(s =~= s.take(i) + seq![c] + s.skip(i + 1));
        assert(s[i] == c);
        if s.take(i).contains(c) {
            let k = choose|k: int| 0 <= k < i && s.take(i)[k] == c;
            assert(!only(c)(s[k]));
        }
    } else if s.contains(c) {
        let k = choose|k: int| 0 <= k < s.len() && s[k] == c;
        assert(!only(c)(s[k]));
    }
    if s == a + seq![c] + b && !a.contains(c) {
        assert forall|j: int| 0 <= j < a.len() implies !only(c)(#[trigger] s[j]) by {
            assert(s[j] == a[j]);
        }
        assert(s[a.len() as int] == c);
        lemma_position(s, only(c), a.len());
        assert(s.take(i) =~= a);
        assert(s.skip(i + 1) =~= b);
    }
}

/// The pieces of a text hold no separator, and with separators between them they
/// are the text again.
pub proof fn law_split_pieces(s: Seq<char>, c: char)
    ensures
        split_on(s, c).len() > 0,
        join(split_on(s, c), seq![c]) == s,
        forall|i: int|
            0 <= i < split_on(s, c).len() ==> !(#[trigger] split_on(s, c)[i]).contains(c),
    decreases s.len(),
{
    let i = position(s, only(c)) as int;
    lemma_position_bounds(s, only(c));
    let all = split_on(s, c);
    if i >= s.len() {
        assert(!s.contains(c)) by {
            if s.contains(c) {
                let k = choose|k: int| 0 <= k < s.len() && s[k] == c;
                assert(!only(c)(s[k]));
            }
        }
        assert(all.drop_last() =~= Seq::empty());
        assert(join(all, seq![c]) =~= s);
    } else {
        let head = s.take(i);
        let rest = s.skip(i + 1);
        law_split_pieces(rest, c);
        let tail = split_on(rest, c);
        assert(all == seq![head] + tail);
        assert(!head.contains(c)) by {
            if head.contains(c) {
                let k = choose|k: int| 0 <= k < head.len() && head[k] == c;
                assert(!only(c)(s[k]));
            }
        }
        lemma_join_first(head, tail, seq![c]);
        assert(s =~= head + seq![c] + rest);
        assert forall|k: int| 0 <= k < all.len() implies !(#[trigger] all[k]).contains(c) by {
            if k > 0 {
                assert(all[k] == tail[k - 1]);
            }
        }
    }
}

/// Joining begins with the first piece.
proof fn lemma_join_first(head: Seq<char>, tail: Seq<Seq<char>>, sep: Seq<char>)
    requires
        tail.len() > 0,
    ensures
        join(seq![head] + tail, sep) == head + sep + join(tail, sep),
    decreases tail.len(),
{
    let all = seq![head] + tail;
    if tail.len() == 1 {
        assert(all.drop_last() =~= seq![head]);
        assert(join(seq![head], sep) == head);
        assert(all.last() == tail[0]);
        assert(join(all, sep) =~= head + sep + join(tail, sep));
    } else {
        lemma_join_first(head, tail.drop_last(), sep);
        assert(all.drop_last() =~= seq![head] + tail.drop_last());
        assert(join(all, sep) =~= head + sep + join(tail, sep));
    }
}

/// Trimming takes away white space at both ends and nothing else.
pub proof fn law_trim(s: Seq<char>) -> (r: (int, int))
    ensures
        0 <= r.0 <= r.1 <= s.len(),
        trim(s) == s.subrange(r.0, r.1),
        all_white(s.take(r.0)),
        all_white(s.skip(r.1)),
        r.0 < r.1 ==> !is_white(s[r.0]) && !is_white(s[r.1 - 1]),
{
    let i = position(s, black()) as int;
    lemma_position_bounds(s, black());
    let t = trim_start(s);
    lemma_trim_end(t);
    let e = trim_end(t);
    assert forall|k: int| 0 <= k < i implies is_white(#[trigger] s.take(i)[k]) by {
        assert(!black()(s[k]));
    }
    let j = i + e.len();
    assert(trim(s) =~= s.subrange(i, j));
    assert forall|k: int| 0 <= k < s.skip(j).len() implies is_white(#[trigger] s.skip(j)[k]) by {
        assert(s.skip(j)[k] == t.skip(e.len() as int)[k]);
    }
    if i < j {
        assert(black()(s[i]));
        assert(s[j - 1] == e[e.len() - 1]);
    }
    (i, j)
}

proof fn lemma_trim_end(s: Seq<char>)
    ensures
        trim_end(s).len() <= s.len(),
        trim_end(s) == s.take(trim_end(s).len() as int),
        all_white(s.skip(trim_end(s).len() as int)),
        trim_end(s).len() > 0 ==> !is_white(trim_end(s).last()),
    decreases s.len(),
{
    if s.len() > 0 && is_white(s.last()) {
        let t = s.drop_last();
        lemma_trim_end(t);
        let n = trim_end(s).len() as int;
        assert(s.take(n) =~= t.take(n));
        assert forall|k: int| 0 <= k < s.skip(n).len() implies is_white(#[trigger] s.skip(n)[k]) by {
            if n + k < t.len() {
                assert(s.skip(n)[k] == t.skip(n)[k]);
            }
        }
    } else {
        assert(s.take(s.len() as int) =~= s);
    }
}

/// Each line with a line feed behind it.
pub open spec fn with_line_feeds(ls: Seq<Seq<char>>) -> Seq<char>
    decreases ls.len(),
{
    if ls.len() == 0 {
        Seq::empty()
    } else {
        ls[0] + seq!['\n'] + with_line_feeds(ls.skip(1))
    }
}

/// Lines that are written with a line feed behind each are read back, whether or
/// not the last one lacks it.
pub proof fn law_lines_are_read_back(ls: Seq<Seq<char>>)
    requires
        forall|i: int|
            0 <= i < ls.len() ==> !(#[trigger] ls[i]).contains('\n') && (ls[i].len() > 0
                ==> ls[i].last() != '\r'),
    ensures
        lines(with_line_feeds(ls)) == ls,
    decreases ls.len(),
{
    if ls.len() > 0 {
        let rest = ls.skip(1);
        assert forall|i: int| 0 <= i < rest.len() implies !(#[trigger] rest[i]).contains('\n') && (
        rest[i].len() > 0 ==> rest[i].last() != '\r') by {
            assert(rest[i] == ls[i + 1]);
        }
        law_lines_are_read_back(rest);
        let s = with_line_feeds(ls);
        let n = ls[0].len();
        assert forall|j: int| 0 <= j < n implies !only('\n')(#[trigger] s[j]) by {
            assert(s[j] == ls[0][j]);
            assert(!ls[0].contains('\n'));
        }
        assert(s[n as int] == '\n');
        lemma_position(s, only('\n'), n);
        assert(s.take(n as int) =~= ls[0]);
        assert(s.skip(n + 1int) =~= with_line_feeds(rest));
        assert(strip_return(ls[0]) == ls[0]);
        assert(lines(s) =~= ls);
    } else {
        assert(lines(with_line_feeds(ls)) =~= ls);
    }
}

/// A text without line feeds is one line.
pub proof fn law_one_line(s: Seq<char>)
    requires
        s.len() > 0,
        !s.contains('\n'),
    ensures
        lines(s) == seq![s],
{
    assert forall|j: int| 0 <= j < s.len() implies !only('\n')(#[trigger] s[j]) by {}
    lemma_position(s, only('\n'), s.len());
}

/// Words with white space between them are read back.
pub proof fn law_words_are_read_back(before: Seq<char>, word: Seq<char>, after: Seq<char>)
    requires
        all_white(before),
        word.len() > 0,
        no_white(word),
        after.len() > 0 ==> is_white(after[0]),
    ensures
        words(before + word + after) == seq![word] + words(after),
{
    let s = before + word + after;
    let n = before.len();
    assert forall|j: int| 0 <= j < n implies !black()(#[trigger] s[j]) by {
        assert(s[j] == before[j]);
    }
    assert(s[n as int] == word[0]);
    lemma_position(s, black(), n);
    let t = trim_start(s);
    assert(t =~= word + after);
    assert forall|j: int| 0 <= j < word.len() implies !white()(#[trigger] t[j]) by {
        assert(t[j] == word[j]);
    }
    assert(word.len() < t.len() ==> t[word.len() as int] == after[0]);
    lemma_position(t, white(), word.len());
    assert(t.take(word.len() as int) =~= word);
    assert(t.skip(word.len() as int) =~= after);
}

/// There are no words in white space.
pub proof fn law_no_words_in_white_space(s: Seq<char>)
    requires
        all_white(s),
    ensures
        words(s) == Seq::<Seq<char>>::empty(),
{
    assert forall|j: int| 0 <= j < s.len() implies !black()(#[trigger] s[j]) by {}
    lemma_position(s, black(), s.len());
    assert(trim_start(s).len() == 0);
}

/// A text that is read as a number holds nothing but digits, behind a plus sign at
/// most.
pub proof fn law_numbers_hold_digits(s: Seq<char>, max: nat, i: int)
    requires
        0 <= i < s.len(),
        parse_unsigned(s, max) is Some,
    ensures
        '0' <= s[i] <= '9' || (i == 0 && s[0] == '+' && s.len() > 1),
        parse_unsigned(s, max)->0 <= max,
{
    if s[0] == '+' {
        if i > 0 {
            assert(s[i] == s.skip(1)[i - 1]);
        }
    }
}

/// Lower case is of the same length, leaves what is no capital letter alone, and
/// holds no capital letter.
pub proof fn law_lower_case(s: Seq<char>, i: int)
    requires
        0 <= i < s.len(),
    ensures
        ascii_lowercase(s).len() == s.len(),
        !('A' <= s[i] <= 'Z') ==> ascii_lowercase(s)[i] == s[i],
        'A' <= s[i] <= 'Z' ==> ascii_lowercase(s)[i] as u32 == s[i] as u32 - 'A' as u32
            + 'a' as u32,
{
}

/// A text that neither begins nor ends with white space is trimmed to itself.
pub proof fn law_nothing_to_trim(s: Seq<char>)
    requires
        s.len() > 0,
        !is_white(s[0]),
        !is_white(s.last()),
    ensures
        trim(s) == s,
{
    let r = law_trim(s);
    if r.0 > 0 {
        assert(is_white(s.take(r.0)[0]));
    }
    if r.1 < s.len() {
        assert(is_white(s.skip(r.1)[s.len() - r.1 - 1]));
    }
    assert(s.subrange(0, s.len() as int) =~= s);
}

/// The digits of a number are digits, behind a minus sign where it is negative.
pub proof fn law_number_text(n: int, i: int)
    requires
        0 <= i < decimal_int(n).len(),
    ensures
        is_digit(decimal_int(n)[i]) || (i == 0 && n < 0 && decimal_int(n)[i] == '-'),
{
    if n < 0 {
        lemma_decimal_value((-n) as nat);
        if i > 0 {
            assert(decimal_int(n)[i] == decimal((-n) as nat)[i - 1]);
        }
    } else {
        lemma_decimal_value(n as nat);
    }
}

/// Of two texts that first differ at a character, the one with the lesser character
/// there comes first; and a text comes before every longer one that begins with it.
pub proof fn law_order_of_texts(a: Seq<char>, c: char, d: char, x: Seq<char>, y: Seq<char>)
    ensures
        c < d ==> text_less(a + seq![c] + x, a + seq![d] + y),
        text_less(a, a + seq![c] + x),
        !text_less(a, a),
    decreases a.len(),
{
    let l = a + seq![c] + x;
    let r = a + seq![d] + y;
    if a.len() > 0 {
        let b = a.skip(1);
        law_order_of_texts(b, c, d, x, y);
        assert(l.skip(1) =~= b + seq![c] + x);
        assert(r.skip(1) =~= b + seq![d] + y);
        assert(l[0] == a[0] && r[0] == a[0]);
    }
}

} // verus!
