//! Text handling: splitting, trimming and decimal numbers.

use vstd::prelude::*;
use vstd::string::{StrSliceExecFns, StringExecFns};

verus! {

/// The texts of a list of strings.
pub open spec fn texts(list: Seq<String>) -> Seq<Seq<char>> {
    list.map_values(|s: String| s@)
}

/// The pieces of `text` between the occurrences of `separator`. There is
/// always at least one, and a piece may be empty.
pub open spec fn pieces(text: Seq<char>, separator: char) -> Seq<Seq<char>>
    decreases text.len(),
{
    if text.len() == 0 {
        seq![text]
    } else if text.last() == separator {
        pieces(text.drop_last(), separator).push(Seq::empty())
    } else {
        let before = pieces(text.drop_last(), separator);
        before.drop_last().push(before.last().push(text.last()))
    }
}

/// The pieces put together again, with the separator between neighbours.
pub open spec fn joined(list: Seq<Seq<char>>, separator: char) -> Seq<char>
    decreases list.len(),
{
    if list.len() == 0 {
        Seq::empty()
    } else if list.len() == 1 {
        list[0]
    } else {
        joined(list.drop_last(), separator).push(separator) + list.last()
    }
}

proof fn lemma_pieces_nonempty(text: Seq<char>, separator: char)
    ensures
        pieces(text, separator).len() >= 1,
    decreases text.len(),
{
    if text.len() > 0 {
        lemma_pieces_nonempty(text.drop_last(), separator);
    }
}

/// Splitting loses nothing: the pieces joined by the separator are the text.
pub proof fn law_split_then_join(text: Seq<char>, separator: char)
    ensures
        pieces(text, separator).len() >= 1,
        joined(pieces(text, separator), separator) == text,
    decreases text.len(),
{
    lemma_pieces_nonempty(text, separator);
    if text.len() > 0 {
        let shorter = text.drop_last();
        let before = pieces(shorter, separator);
        law_split_then_join(shorter, separator);
        assert(text == shorter.push(text.last()));
        if text.last() == separator {
            let all = before.push(Seq::empty());
            assert(all.drop_last() == before);
            assert(joined(all, separator) == joined(before, separator).push(separator)
                + Seq::<char>::empty());
            assert(joined(all, separator) == text);
        } else {
            let all = before.drop_last().push(before.last().push(text.last()));
            if before.len() == 1 {
                assert(all.len() == 1);
                assert(joined(all, separator) == text);
            } else {
                assert(all.drop_last() == before.drop_last());
                assert(joined(all, separator) == joined(
                    before.drop_last(),
                    separator,
                ).push(separator) + before.last().push(text.last()));
                assert(joined(all, separator) == text);
            }
        }
    }
}

/// No piece holds the separator.
pub proof fn law_pieces_hold_no_separator(text: Seq<char>, separator: char)
    ensures
        forall|i: int|
            0 <= i < pieces(text, separator).len() ==> !(
            #[trigger] pieces(text, separator)[i]).contains(separator),
    decreases text.len(),
{
    if text.len() > 0 {
        let shorter = text.drop_last();
        let before = pieces(shorter, separator);
        law_pieces_hold_no_separator(shorter, separator);
        lemma_pieces_nonempty(shorter, separator);
        let all = pieces(text, separator);
        assert forall|i: int| 0 <= i < all.len() implies !(#[trigger] all[i]).contains(
            separator,
        ) by {
            if i < before.len() - 1 || text.last() == separator && i < before.len() {
                assert(all[i] == before[i]);
            } else if text.last() != separator {
                let grown = before.last().push(text.last());
                assert(all[i] == grown);
                assert forall|k: int| 0 <= k < grown.len() implies grown[k] != separator by {
                    if k < before.last().len() {
                        assert(grown[k] == before.last()[k]);
                        assert(before.last().contains(before.last()[k]));
                    }
                }
            }
        }
    }
}

/// Splits `text` at every occurrence of `separator`.
pub fn split(text: &str, separator: char) -> (list: Vec<String>)
    ensures
        texts(list@) == pieces(text@, separator),
        list@.len() >= 1,
{
    let mut list: Vec<String> = Vec::new();
    let mut start: usize = 0;
    let mut end: usize = 0;
    let length: usize = text.unicode_len();
    assert(text@.take(0) == Seq::<char>::empty());
    assert(text@.subrange(0, 0) == Seq::<char>::empty());
    assert(texts(list@).push(text@.subrange(0, 0)) =~= pieces(text@.take(0), separator));
    for c in it: text.chars()
        invariant
            length == text@.len(),
            it.seq() == text@,
            end == it.index(),
            start <= end <= length,
            texts(list@).push(text@.subrange(start as int, end as int)) == pieces(
                text@.take(end as int),
                separator,
            ),
    {
        let ghost before = texts(list@);
        let ghost current = text@.subrange(start as int, end as int);
        let ghost grown = text@.take(end as int + 1);
        assert(c == text@[end as int]);
        assert(grown.drop_last() == text@.take(end as int));
        assert(grown.last() == c);
        if c == separator {
            let piece: String = text.substring_char(start, end).to_owned();
            list.push(piece);
            end = end + 1;
            start = end;
            assert(texts(list@) == before.push(current));
            assert(text@.subrange(start as int, end as int) == Seq::<char>::empty());
        } else {
            end = end + 1;
            assert(text@.subrange(start as int, end as int) == current.push(c));
            assert(before.push(current).drop_last() == before);
        }
    }
    let ghost before = texts(list@);
    let piece: String = text.substring_char(start, end).to_owned();
    list.push(piece);
    assert(texts(list@) == before.push(text@.subrange(start as int, end as int)));
    assert(text@.take(end as int) == text@);
    list
}

proof fn lemma_pieces_of_extended(text: Seq<char>, tail: Seq<char>, separator: char)
    requires
        !tail.contains(separator),
    ensures
        pieces(text, separator).len() >= 1,
        pieces(text + tail, separator) == pieces(text, separator).drop_last().push(
            pieces(text, separator).last() + tail,
        ),
    decreases tail.len(),
{
    lemma_pieces_nonempty(text, separator);
    let before = pieces(text, separator);
    if tail.len() == 0 {
        assert(text + tail == text);
        assert(before.last() + tail == before.last());
        assert(before.drop_last().push(before.last()) == before);
    } else {
        let shorter = tail.drop_last();
        assert(tail[tail.len() - 1] != separator);
        assert forall|k: int| 0 <= k < shorter.len() implies shorter[k] != separator by {
            assert(tail.contains(tail[k]));
        }
        lemma_pieces_of_extended(text, shorter, separator);
        assert((text + tail).drop_last() == text + shorter);
        let middle = pieces(text + shorter, separator);
        assert(middle.drop_last() == before.drop_last());
        assert(middle.last().push(tail.last()) == before.last() + tail);
    }
}

/// A list of texts none of which holds the separator comes back from
/// splitting what it was joined to.
pub proof fn law_join_then_split(list: Seq<Seq<char>>, separator: char)
    requires
        list.len() >= 1,
        forall|i: int| 0 <= i < list.len() ==> !(#[trigger] list[i]).contains(separator),
    ensures
        pieces(joined(list, separator), separator) == list,
    decreases list.len(),
{
    if list.len() == 1 {
        lemma_pieces_of_extended(Seq::empty(), list[0], separator);
        assert(Seq::<char>::empty() + list[0] == list[0]);
        assert(pieces(Seq::empty(), separator) == seq![Seq::<char>::empty()]);
        assert(pieces(list[0], separator) == list);
    } else {
        let front = list.drop_last();
        law_join_then_split(front, separator);
        let head = joined(front, separator).push(separator);
        assert(head.drop_last() == joined(front, separator));
        assert(pieces(head, separator) == front.push(Seq::empty()));
        lemma_pieces_of_extended(head, list.last(), separator);
        assert(front.push(Seq::empty()).drop_last() == front);
        assert(Seq::<char>::empty() + list.last() == list.last());
        assert(front.push(list.last()) == list);
    }
}

/// The characters with the Unicode property `White_Space`.
pub open spec fn is_white_space(c: char) -> bool {
    ||| '\u{9}' <= c <= '\u{d}'
    ||| c == ' '
    ||| c == '\u{85}'
    ||| c == '\u{a0}'
    ||| c == '\u{1680}'
    ||| '\u{2000}' <= c <= '\u{200a}'
    ||| c == '\u{2028}'
    ||| c == '\u{2029}'
    ||| c == '\u{202f}'
    ||| c == '\u{205f}'
    ||| c == '\u{3000}'
}

fn white_space(c: char) -> (white: bool)
    ensures
        white == is_white_space(c),
{
    ('\u{9}' <= c && c <= '\u{d}') || c == ' ' || c == '\u{85}' || c == '\u{a0}' || c
        == '\u{1680}' || ('\u{2000}' <= c && c <= '\u{200a}') || c == '\u{2028}' || c
        == '\u{2029}' || c == '\u{202f}' || c == '\u{205f}' || c == '\u{3000}'
}

/// `inner` is `text` without the white space at its two ends: only white space
/// was cut off, and none is left at either end.
pub open spec fn is_trimmed(text: Seq<char>, inner: Seq<char>) -> bool {
    exists|from: int, to: int| #[trigger] is_trimmed_to(text, inner, from, to)
}

/// `inner` is what `from` and `to` cut out of `text` when its ends are trimmed.
pub open spec fn is_trimmed_to(text: Seq<char>, inner: Seq<char>, from: int, to: int) -> bool {
    &&& 0 <= from <= to <= text.len()
    &&& inner == text.subrange(from, to)
    &&& forall|i: int| 0 <= i < from ==> is_white_space(#[trigger] text[i])
    &&& forall|i: int| to <= i < text.len() ==> is_white_space(#[trigger] text[i])
    &&& inner.len() > 0 ==> !is_white_space(inner[0]) && !is_white_space(inner.last())
}

/// `text` without the white space at its two ends.
pub open spec fn trimmed(text: Seq<char>) -> Seq<char> {
    choose|inner: Seq<char>| is_trimmed(text, inner)
}

proof fn lemma_trim_exists(text: Seq<char>) -> (ends: (int, int))
    ensures
        is_trimmed_to(text, text.subrange(ends.0, ends.1), ends.0, ends.1),
    decreases text.len(),
{
    if text.len() == 0 {
        (0, 0)
    } else if is_white_space(text[0]) {
        let rest = text.skip(1);
        let (from, to) = lemma_trim_exists(rest);
        assert(text.subrange(from + 1, to + 1) =~= rest.subrange(from, to));
        assert forall|i: int| 0 <= i < from + 1 implies is_white_space(#[trigger] text[i]) by {
            if i > 0 {
                assert(text[i] == rest[i - 1]);
            }
        }
        assert forall|i: int| to + 1 <= i < text.len() implies is_white_space(
            #[trigger] text[i],
        ) by {
            assert(text[i] == rest[i - 1]);
        }
        (from + 1, to + 1)
    } else if is_white_space(text.last()) {
        let rest = text.drop_last();
        let (from, to) = lemma_trim_exists(rest);
        assert(text.subrange(from, to) =~= rest.subrange(from, to));
        assert forall|i: int| 0 <= i < from implies is_white_space(#[trigger] text[i]) by {
            assert(text[i] == rest[i]);
        }
        assert forall|i: int| to <= i < text.len() implies is_white_space(#[trigger] text[i]) by {
            if i < rest.len() {
                assert(text[i] == rest[i]);
            }
        }
        (from, to)
    } else {
        assert(text.subrange(0, text.len() as int) =~= text);
        (0, text.len() as int)
    }
}

/// Every text can be trimmed.
pub proof fn law_trim_exists(text: Seq<char>)
    ensures
        is_trimmed(text, trimmed(text)),
{
    let (from, to) = lemma_trim_exists(text);
    assert(is_trimmed(text, text.subrange(from, to)));
}

/// Trimming has one outcome.
pub proof fn law_trim_is_unique(text: Seq<char>, a: Seq<char>, b: Seq<char>)
    requires
        is_trimmed(text, a),
        is_trimmed(text, b),
    ensures
        a == b,
{
    let (f, t) = choose|from: int, to: int| #[trigger] is_trimmed_to(text, a, from, to);
    let (g, u) = choose|from: int, to: int| #[trigger] is_trimmed_to(text, b, from, to);
    if f < t {
        assert(a[0] == text[f]);
        assert(a.last() == text[t - 1]);
    }
    if g < u {
        assert(b[0] == text[g]);
        assert(b.last() == text[u - 1]);
    }
    assert(a =~= b);
}

/// `text` without the white space at its ends.
pub fn trim(text: &str) -> (inner: &str)
    ensures
        inner@ == trimmed(text@),
        is_trimmed(text@, inner@),
{
    let mut letters: Vec<char> = Vec::new();
    for c in it: text.chars()
        invariant
            it.seq() == text@,
            letters@ == text@.take(it.index() as int),
    {
        letters.push(c);
        assert(text@.take(it.index() as int + 1) == text@.take(it.index() as int).push(c));
    }
    assert(letters@ == text@);
    let mut from: usize = 0;
    while from < letters.len() && white_space(letters[from])
        invariant
            letters@ == text@,
            from <= letters@.len(),
            forall|i: int| 0 <= i < from ==> is_white_space(#[trigger] text@[i]),
        decreases letters@.len() - from,
    {
        from = from + 1;
    }
    let mut to: usize = letters.len();
    while from < to && white_space(letters[to - 1])
        invariant
            letters@ == text@,
            from <= to <= letters@.len(),
            forall|i: int| to <= i < text@.len() ==> is_white_space(#[trigger] text@[i]),
        decreases to,
    {
        to = to - 1;
    }
    let inner: &str = text.substring_char(from, to);
    proof {
        if from < to {
            assert(inner@[0] == text@[from as int]);
            assert(inner@.last() == text@[to - 1]);
        }
        assert(is_trimmed_to(text@, inner@, from as int, to as int));
        law_trim_exists(text@);
        law_trim_is_unique(text@, inner@, trimmed(text@));
    }
    inner
}

/// The decimal digit for `d`.
pub open spec fn digit(d: nat) -> char {
    seq!['0', '1', '2', '3', '4', '5', '6', '7', '8', '9'][d as int]
}

/// `n` in decimal, without leading zeros.
pub open spec fn decimal(n: nat) -> Seq<char>
    decreases n,
{
    if n < 10 {
        seq![digit(n)]
    } else {
        decimal(n / 10).push(digit(n % 10))
    }
}

fn digit_text(d: usize) -> (text: &'static str)
    requires
        d < 10,
    ensures
        text@ == seq![digit(d as nat)],
{
    proof {
        reveal_strlit("0");
        reveal_strlit("1");
        reveal_strlit("2");
        reveal_strlit("3");
        reveal_strlit("4");
        reveal_strlit("5");
        reveal_strlit("6");
        reveal_strlit("7");
        reveal_strlit("8");
        reveal_strlit("9");
    }
    let text: &'static str = match d {
        0 => "0",
        1 => "1",
        2 => "2",
        3 => "3",
        4 => "4",
        5 => "5",
        6 => "6",
        7 => "7",
        8 => "8",
        _ => "9",
    };
    assert(text@ =~= seq![digit(d as nat)]);
    text
}

/// Writes `n` in decimal.
pub fn decimal_text(n: usize) -> (text: String)
    ensures
        text@ == decimal(n as nat),
    decreases n,
{
    if n < 10 {
        digit_text(n).to_owned()
    } else {
        let mut text: String = decimal_text(n / 10);
        text.append(digit_text(n % 10));
        assert(text@ =~= decimal((n / 10) as nat).push(digit((n % 10) as nat)));
        text
    }
}

proof fn lemma_digit_injective(a: nat, b: nat)
    requires
        a < 10,
        b < 10,
        digit(a) == digit(b),
    ensures
        a == b,
{
}

/// Different numbers are written differently.
pub proof fn law_decimal_injective(a: nat, b: nat)
    requires
        decimal(a) == decimal(b),
    ensures
        a == b,
    decreases a,
{
    lemma_decimal_shape(a);
    lemma_decimal_shape(b);
    lemma_digit_injective(a % 10, b % 10);
    if a >= 10 || b >= 10 {
        assert(decimal(a).len() == decimal(b).len());
        assert(a >= 10 && b >= 10);
        assert(decimal(a).drop_last() == decimal(a / 10));
        assert(decimal(b).drop_last() == decimal(b / 10));
        law_decimal_injective(a / 10, b / 10);
    }
}

proof fn lemma_decimal_shape(n: nat)
    ensures
        decimal(n).len() >= 1,
        decimal(n).len() == 1 <==> n < 10,
        decimal(n).last() == digit(n % 10),
        n >= 10 ==> decimal(n).drop_last() == decimal(n / 10),
    decreases n,
{
    if n >= 10 {
        lemma_decimal_shape(n / 10);
        assert(decimal(n / 10).push(digit(n % 10)).drop_last() == decimal(n / 10));
    }
}

/// The texts of a list are those of its strings, one by one.
pub proof fn law_texts_are_one_by_one(list: Seq<String>)
    ensures
        texts(list).len() == list.len(),
        forall|i: int| 0 <= i < list.len() ==> #[trigger] texts(list)[i] == list[i]@,
{
}

/// Joining puts one separator between neighbours and nothing else: one text
/// stays as it is, and every further text follows a separator.
pub proof fn law_joining_adds_separators_only(
    list: Seq<Seq<char>>,
    text: Seq<char>,
    separator: char,
)
    requires
        list.len() >= 1,
    ensures
        joined(seq![text], separator) == text,
        joined(list.push(text), separator) == joined(list, separator) + seq![separator] + text,
{
    assert(list.push(text).drop_last() =~= list);
    assert(joined(list, separator).push(separator) =~= joined(list, separator) + seq![separator]);
}

/// The white space characters, by their code points.
pub proof fn law_white_space_code_points(c: char)
    ensures
        is_white_space(c) <==> {
            let code = c as u32;
            ||| code == 32 || code == 133 || code == 160 || code == 5760 || code == 8232
            ||| code == 8233 || code == 8239 || code == 8287 || code == 12288
            ||| 9 <= code <= 13
            ||| 8192 <= code <= 8202
        },
{
}

/// Trimming cuts off white space at the two ends and nothing else, and leaves
/// none there.
pub proof fn law_trimming_cuts_off_white_space_only(text: Seq<char>) -> (ends: (
    Seq<char>,
    Seq<char>,
))
    ensures
        text == ends.0 + trimmed(text) + ends.1,
        forall|i: int| 0 <= i < ends.0.len() ==> is_white_space(#[trigger] ends.0[i]),
        forall|i: int| 0 <= i < ends.1.len() ==> is_white_space(#[trigger] ends.1[i]),
        trimmed(text).len() > 0 ==> !is_white_space(trimmed(text)[0]) && !is_white_space(
            trimmed(text).last(),
        ),
{
    law_trim_exists(text);
    let inner = trimmed(text);
    let (from, to) = choose|from: int, to: int| #[trigger] is_trimmed_to(text, inner, from, to);
    let front = text.take(from);
    let back = text.skip(to);
    assert(text =~= front + inner + back);
    (front, back)
}

/// The number that a decimal text stands for.
pub open spec fn decimal_value(text: Seq<char>) -> int
    decreases text.len(),
{
    if text.len() == 0 {
        0
    } else {
        10 * decimal_value(text.drop_last()) + (text.last() as int - '0' as int)
    }
}

/// A number in decimal stands for that number, holds nothing but digits, and
/// begins with a zero only if it is nothing else.
pub proof fn law_decimal_stands_for_the_number(n: nat)
    ensures
        decimal_value(decimal(n)) == n,
        decimal(n).len() >= 1,
        forall|i: int| 0 <= i < decimal(n).len() ==> '0' <= #[trigger] decimal(n)[i] <= '9',
        decimal(n)[0] == '0' ==> n == 0,
    decreases n,
{
    reveal_with_fuel(decimal_value, 2);
    if n < 10 {
        assert(decimal(n).drop_last() =~= Seq::empty());
    } else {
        let front = decimal(n / 10);
        law_decimal_stands_for_the_number(n / 10);
        assert(decimal(n).drop_last() =~= front);
        assert(decimal(n)[0] == front[0]);
        assert forall|i: int| 0 <= i < decimal(n).len() implies '0' <= #[trigger] decimal(n)[i]
            <= '9' by {
            if i < front.len() {
                assert(decimal(n)[i] == front[i]);
            }
        }
    }
}

} // verus!
