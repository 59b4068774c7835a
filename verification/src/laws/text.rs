//! Laws of text.

use crate::decimal::{decimal_text, digit_text};
use crate::ordered::{
    lemma_text_less_irreflexive, lemma_text_less_total, lemma_text_less_transitive, text_less,
};
use crate::store::intents::utf8_len;
use crate::text::{ascii_lower, holds_text, trimmed, trimmed_end, trimmed_start};
use vstd::prelude::*;

verus! {

/// A character with the Unicode property White_Space, by its number.
pub open spec fn blank_code(code: int) -> bool {
    ||| 0x9 <= code <= 0xd
    ||| code == 0x20
    ||| code == 0x85
    ||| code == 0xa0
    ||| code == 0x1680
    ||| 0x2000 <= code <= 0x200a
    ||| code == 0x2028
    ||| code == 0x2029
    ||| code == 0x202f
    ||| code == 0x205f
    ||| code == 0x3000
}

/// `kept` is `text` from `start` to `end`, and what is left out around it is white space.
pub open spec fn cut_out(text: Seq<char>, kept: Seq<char>, start: int, end: int) -> bool {
    &&& 0 <= start <= end <= text.len()
    &&& kept == text.subrange(start, end)
    &&& forall|i: int|
        (0 <= i < start || end <= i < text.len()) ==> blank_code(#[trigger] text[i] as int)
}

/// Trimming takes white space away at both ends, all of it, and nothing else.
pub proof fn law_trimming_takes_white_space_only(text: Seq<char>)
    ensures
        exists|start: int, end: int| cut_out(text, trimmed(text), start, end),
        trimmed(text).len() > 0 ==> !blank_code(trimmed(text)[0] as int) && !blank_code(
            trimmed(text).last() as int,
        ),
{
    let start = lemma_start(text);
    let rest = trimmed_start(text);
    let length = lemma_end(rest);
    assert(rest.take(length) =~= text.subrange(start, start + length));
    assert forall|i: int| (0 <= i < start || start + length <= i < text.len()) implies blank_code(
        #[trigger] text[i] as int,
    ) by {
        if i >= start {
            assert(rest[i - start] == text[i]);
        }
    }
    assert(cut_out(text, trimmed(text), start, start + length));
}

/// A text that neither begins nor ends with white space is not trimmed, and white space around a
/// text makes no difference.
pub proof fn law_trimming_is_settled(text: Seq<char>, before: Seq<char>, after: Seq<char>)
    requires
        text.len() > 0,
        !blank_code(text[0] as int),
        !blank_code(text.last() as int),
        forall|i: int| 0 <= i < before.len() ==> blank_code(#[trigger] before[i] as int),
        forall|i: int| 0 <= i < after.len() ==> blank_code(#[trigger] after[i] as int),
    ensures
        trimmed(before + text + after) == text,
{
    let whole = before + text + after;
    law_trimming_takes_white_space_only(whole);
    let (start, end) = choose|start: int, end: int| cut_out(whole, trimmed(whole), start, end);
    let first = before.len() as int;
    let last = before.len() + text.len() - 1;
    assert(whole[first] == text[0]);
    assert(whole[last] == text.last());
    assert(start <= first && last < end);
    if start < first {
        assert(trimmed(whole)[0] == before[start]);
    }
    if end > last + 1 {
        assert(trimmed(whole).last() == whole[end - 1]);
        assert(whole[end - 1] == after[end - 1 - before.len() - text.len()]);
    }
    assert(trimmed(whole) =~= text);
}

proof fn lemma_start(text: Seq<char>) -> (start: int)
    ensures
        0 <= start <= text.len(),
        trimmed_start(text) == text.skip(start),
        forall|i: int| 0 <= i < start ==> blank_code(#[trigger] text[i] as int),
        start < text.len() ==> !blank_code(text[start] as int),
    decreases text.len(),
{
    if text.len() > 0 && blank_code(text[0] as int) {
        let rest = text.skip(1);
        let start = lemma_start(rest) + 1;
        assert(rest.skip(start - 1) =~= text.skip(start));
        assert forall|i: int| 0 <= i < start implies blank_code(#[trigger] text[i] as int) by {
            if i > 0 {
                assert(rest[i - 1] == text[i]);
            }
        }
        start
    } else {
        assert(text.skip(0) =~= text);
        0
    }
}

proof fn lemma_end(text: Seq<char>) -> (end: int)
    ensures
        0 <= end <= text.len(),
        trimmed_end(text) == text.take(end),
        forall|i: int| end <= i < text.len() ==> blank_code(#[trigger] text[i] as int),
        end > 0 ==> !blank_code(text[end - 1] as int),
    decreases text.len(),
{
    if text.len() > 0 && blank_code(text.last() as int) {
        let rest = text.drop_last();
        let end = lemma_end(rest);
        assert(rest.take(end) =~= text.take(end));
        assert forall|i: int| end <= i < text.len() implies blank_code(#[trigger] text[i] as int) by {
            if i < rest.len() {
                assert(rest[i] == text[i]);
            }
        }
        end
    } else {
        assert(text.take(text.len() as int) =~= text);
        text.len() as int
    }
}

/// Lowering replaces each capital from A to Z by its small letter, and leaves all else.
pub proof fn law_lowering_changes_capitals_only(text: Seq<char>, index: int)
    requires
        0 <= index < text.len(),
    ensures
        ascii_lower(text).len() == text.len(),
        65 <= text[index] as u32 <= 90 ==> ascii_lower(text)[index] as u32 == text[index] as u32
            + 32,
        !(65 <= text[index] as u32 <= 90) ==> ascii_lower(text)[index] == text[index],
{
}

/// Of two texts with a common beginning, the one with the smaller next character stands first, and
/// a text stands before its own continuations.
pub proof fn law_texts_are_ordered_by_their_first_difference(
    beginning: Seq<char>,
    left: Seq<char>,
    right: Seq<char>,
)
    requires
        right.len() > 0,
        left.len() > 0 ==> (left[0] as int) < right[0] as int,
    ensures
        text_less(beginning + left, beginning + right),
        !text_less(beginning + right, beginning + left),
    decreases beginning.len(),
{
    if beginning.len() == 0 {
        assert(beginning + left =~= left);
        assert(beginning + right =~= right);
        assert(text_less(left, right));
        assert(!text_less(right, left));
    } else {
        let rest = beginning.skip(1);
        law_texts_are_ordered_by_their_first_difference(rest, left, right);
        assert((beginning + left).skip(1) =~= rest + left);
        assert((beginning + right).skip(1) =~= rest + right);
        assert((beginning + left)[0] == beginning[0]);
        assert((beginning + right)[0] == beginning[0]);
        assert((beginning + left).len() > 0 && (beginning + right).len() > 0);
    }
}

/// The order of texts is one: of two texts one stands first unless they are the same.
pub proof fn law_texts_are_in_one_order(a: Seq<char>, b: Seq<char>, c: Seq<char>)
    ensures
        !text_less(a, a),
        a != b ==> text_less(a, b) != text_less(b, a),
        text_less(a, b) && text_less(b, c) ==> text_less(a, c),
{
    lemma_text_less_irreflexive(a);
    lemma_text_less_total(a, b);
    if text_less(a, b) && text_less(b, a) {
        lemma_text_less_transitive(a, b, a);
    }
    if text_less(a, b) && text_less(b, c) {
        lemma_text_less_transitive(a, b, c);
    }
}

/// A text holds another if that stands somewhere in it, with something before and behind.
pub proof fn law_texts_hold_their_parts(text: Seq<char>, part: Seq<char>)
    ensures
        holds_text(text, part) <==> exists|before: Seq<char>, after: Seq<char>|
            text == #[trigger] (before + part + after),
{
    if holds_text(text, part) {
        let start = choose|start: int|
            0 <= start <= text.len() - part.len() && #[trigger] text.subrange(
                start,
                start + part.len(),
            ) == part;
        let before = text.take(start);
        let after = text.skip(start + part.len());
        assert(text =~= before + text.subrange(start, start + part.len()) + after);
        assert(text == before + part + after);
    }
    if exists|before: Seq<char>, after: Seq<char>| text == #[trigger] (before + part + after) {
        let (before, after) = choose|before: Seq<char>, after: Seq<char>|
            text == #[trigger] (before + part + after);
        let start = before.len() as int;
        assert(text.subrange(start, start + part.len()) =~= part);
    }
}

/// The number that decimal digits stand for.
pub open spec fn number_of(digits: Seq<char>) -> int
    decreases digits.len(),
{
    if digits.len() == 0 {
        0
    } else {
        number_of(digits.drop_last()) * 10 + (digits.last() as int - 48)
    }
}

/// A number is written in decimal digits that stand for it, without zeros in front.
pub proof fn law_numbers_are_written_in_decimal(number: nat)
    ensures
        number_of(decimal_text(number)) == number,
        decimal_text(number).len() > 0,
        forall|i: int|
            0 <= i < decimal_text(number).len() ==> 48 <= #[trigger] decimal_text(number)[i] as int
                <= 57,
        decimal_text(number).len() > 1 ==> decimal_text(number)[0] as int != 48,
    decreases number,
{
    lemma_digit(number % 10);
    if number < 10 {
        reveal_with_fuel(number_of, 2);
        assert(decimal_text(number).drop_last() =~= Seq::<char>::empty());
    } else {
        law_numbers_are_written_in_decimal(number / 10);
        let text = decimal_text(number);
        let front = decimal_text(number / 10);
        assert(text.drop_last() =~= front);
        assert(text.last() == digit_text(number % 10)[0]);
        assert(text[0] == front[0]);
        assert forall|i: int| 0 <= i < text.len() implies 48 <= #[trigger] text[i] as int
            <= 57 by {
            if i < front.len() {
                assert(text[i] == front[i]);
            }
        }
        if front.len() == 1 {
            reveal_with_fuel(number_of, 2);
            assert(front.drop_last() =~= Seq::<char>::empty());
        }
    }
}

proof fn lemma_digit(digit: nat)
    requires
        digit < 10,
    ensures
        digit_text(digit).len() == 1,
        digit_text(digit)[0] as int == 48 + digit,
{
    reveal_strlit("0");
    reveal_strlit("1");
    reveal_strlit("2");
    reveal_strlit("3");
    reveal_strlit("4");
    reveal_strlit("5");
    reveal_strlit("6");
    reveal_strlit("7");
    reveal_strlit("8");
    reveal_strlit("9");
}

/// A text takes as many bytes as its parts together, and a character one to four by its number.
pub proof fn law_bytes_are_counted(before: Seq<char>, after: Seq<char>, c: char)
    ensures
        utf8_len(before + after) == utf8_len(before) + utf8_len(after),
        c as int <= 0x7f ==> utf8_len(seq![c]) == 1,
        0x80 <= c as int <= 0x7ff ==> utf8_len(seq![c]) == 2,
        0x800 <= c as int <= 0xffff ==> utf8_len(seq![c]) == 3,
        0x10000 <= c as int ==> utf8_len(seq![c]) == 4,
        utf8_len(Seq::empty()) == 0,
{
    lemma_bytes(before, after);
    reveal_with_fuel(utf8_len, 2);
    assert(seq![c].drop_last() =~= Seq::<char>::empty());
}

proof fn lemma_bytes(before: Seq<char>, after: Seq<char>)
    ensures
        utf8_len(before + after) == utf8_len(before) + utf8_len(after),
    decreases after.len(),
{
    let whole = before + after;
    if after.len() == 0 {
        assert(whole =~= before);
    } else {
        lemma_bytes(before, after.drop_last());
        assert(whole.drop_last() =~= before + after.drop_last());
        assert(whole.last() == after.last());
    }
}

} // verus!
