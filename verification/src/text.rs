//! Text: trimmed, lowered, searched.

use vstd::prelude::*;

verus! {

/// The Unicode White_Space property.
pub open spec fn is_white_space(c: char) -> bool {
    ||| '\u{9}' <= c <= '\u{d}'
    ||| c == '\u{20}'
    ||| c == '\u{85}'
    ||| c == '\u{a0}'
    ||| c == '\u{1680}'
    ||| '\u{2000}' <= c <= '\u{200a}'
    ||| c == '\u{2028}'
    ||| c == '\u{2029}'
    ||| c == '\u{202f}'
    ||| c == '\u{205f}'
    ||| c == '\u{3000}'
}

/// `text` without its leading white space.
pub open spec fn trimmed_start(text: Seq<char>) -> Seq<char>
    decreases text.len(),
{
    if text.len() > 0 && is_white_space(text[0]) {
        trimmed_start(text.skip(1))
    } else {
        text
    }
}

/// `text` without its trailing white space.
pub open spec fn trimmed_end(text: Seq<char>) -> Seq<char>
    decreases text.len(),
{
    if text.len() > 0 && is_white_space(text.last()) {
        trimmed_end(text.drop_last())
    } else {
        text
    }
}

/// `text` without leading and trailing white space.
pub open spec fn trimmed(text: Seq<char>) -> Seq<char> {
    trimmed_end(trimmed_start(text))
}

fn is_white(c: char) -> (white: bool)
    ensures
        white == is_white_space(c),
{
    ('\u{9}' <= c && c <= '\u{d}') || c == '\u{20}' || c == '\u{85}' || c == '\u{a0}' || c
        == '\u{1680}' || ('\u{2000}' <= c && c <= '\u{200a}') || c == '\u{2028}' || c
        == '\u{2029}' || c == '\u{202f}' || c == '\u{205f}' || c == '\u{3000}'
}

pub open spec fn ascii_lower_char(c: char) -> char {
    if 'A' <= c <= 'Z' {
        (c as u32 + 32) as char
    } else {
        c
    }
}

pub open spec fn ascii_lower(text: Seq<char>) -> Seq<char> {
    Seq::new(text.len(), |i: int| ascii_lower_char(text[i]))
}

/// The small letter that goes with the capital `c`.
fn small_letter(c: char) -> (letter: &'static str)
    requires
        'A' <= c <= 'Z',
    ensures
        letter@ == seq![ascii_lower_char(c)],
{
    let place: usize = (c as u32 - 'A' as u32) as usize;
    let letters = "abcdefghijklmnopqrstuvwxyz";
    proof {
        reveal_strlit("abcdefghijklmnopqrstuvwxyz");
        lemma_small_letters(letters@, place as int);
    }
    letters.substring_char(place, place + 1)
}

proof fn lemma_small_letters(letters: Seq<char>, place: int)
    requires
        letters == "abcdefghijklmnopqrstuvwxyz"@,
        0 <= place < 26,
    ensures
        letters.len() == 26,
        letters[place] as u32 == 97 + place,
{
    reveal_strlit("abcdefghijklmnopqrstuvwxyz");
    assert(place == 0 || place == 1 || place == 2 || place == 3 || place == 4 || place == 5
        || place == 6 || place == 7 || place == 8 || place == 9 || place == 10 || place == 11
        || place == 12 || place == 13 || place == 14 || place == 15 || place == 16 || place == 17
        || place == 18 || place == 19 || place == 20 || place == 21 || place == 22 || place == 23
        || place == 24 || place == 25);
}

/// `part` stands somewhere in `text`.
pub open spec fn holds_text(text: Seq<char>, part: Seq<char>) -> bool {
    exists|start: int|
        0 <= start <= text.len() - part.len() && #[trigger] text.subrange(
            start,
            start + part.len(),
        ) == part
}

/// Whether `part` stands in `text` at `start`.
fn stands_at(text: &Vec<char>, part: &Vec<char>, start: usize) -> (stands: bool)
    requires
        start + part@.len() <= text@.len(),
    ensures
        stands == (text@.subrange(start as int, start + part@.len()) == part@),
{
    let length: usize = text.len();
    for index in 0..part.len()
        invariant
            start + part@.len() <= length,
            length == text@.len(),
            forall|i: int| 0 <= i < index ==> text@[start + i] == #[trigger] part@[i],
    {
        if text[start + index] != part[index] {
            proof {
                assert(text@.subrange(start as int, start + part@.len())[index as int]
                    != part@[index as int]);
            }
            return false;
        }
    }
    proof {
        assert(text@.subrange(start as int, start + part@.len()) =~= part@);
    }
    true
}

/// Whether `part` stands somewhere in `text`.
pub(crate) fn contains_text(text: &str, part: &str) -> (found: bool)
    ensures
        found == holds_text(text@, part@),
{
    let text_chars = characters(text);
    let part_chars = characters(part);
    if part_chars.len() > text_chars.len() {
        return false;
    }
    let last: usize = text_chars.len() - part_chars.len();
    let mut start: usize = 0;
    while start <= last
        invariant
            text_chars@ == text@,
            part_chars@ == part@,
            last == text@.len() - part@.len(),
            start <= last + 1,
            forall|i: int|
                0 <= i < start ==> #[trigger] text@.subrange(i, i + part@.len()) != part@,
        decreases last + 1 - start,
    {
        if stands_at(&text_chars, &part_chars, start) {
            return true;
        }
        if start == last {
            return false;
        }
        start += 1;
    }
    false
}

/// The characters of a text.
pub(crate) fn characters(text: &str) -> (chars: Vec<char>)
    ensures
        chars@ == text@,
{
    let mut chars: Vec<char> = Vec::new();
    for c in rest: text.chars()
        invariant
            chars@ == rest.seq().take(rest.index() as int),
            rest.seq() == text@,
    {
        chars.push(c);
    }
    chars
}

/// Whether two texts are the same.
pub fn same_text(left: &str, right: &str) -> (same: bool)
    ensures
        same == (left@ == right@),
{
    left.to_owned() == right.to_owned()
}

/// The text without surrounding white space.
pub fn normalize(value: &str) -> (result: String)
    ensures
        result@ == trimmed(value@),
{
    let all = characters(value);
    let count: usize = all.len();
    let mut start: usize = 0;
    proof {
        assert(value@.skip(0) =~= value@);
    }
    while start < count && is_white(all[start])
        invariant
            all@ == value@,
            count == all@.len(),
            start <= count,
            trimmed_start(value@) == trimmed_start(value@.skip(start as int)),
        decreases count - start,
    {
        proof {
            assert(value@.skip(start as int).skip(1) =~= value@.skip(start + 1));
        }
        start = start + 1;
    }
    let ghost rest = value@.skip(start as int);
    let mut end: usize = count;
    proof {
        assert(rest =~= value@.subrange(start as int, end as int));
    }
    while end > start && is_white(all[end - 1])
        invariant
            all@ == value@,
            count == all@.len(),
            start <= end <= count,
            trimmed_end(rest) == trimmed_end(value@.subrange(start as int, end as int)),
        decreases end,
    {
        proof {
            let kept = value@.subrange(start as int, end as int);
            assert(kept.drop_last() =~= value@.subrange(start as int, end - 1));
        }
        end = end - 1;
    }
    value.substring_char(start, end).to_owned()
}

/// The text with its ASCII letters in lower case.
pub fn lowercase_text(value: &str) -> (result: String)
    ensures
        result@ == ascii_lower(value@),
{
    let all = characters(value);
    let count: usize = all.len();
    let mut lowered = String::new();
    let mut copied: usize = 0;
    for index in 0..count
        invariant
            count == all@.len(),
            all@ == value@,
            copied <= index,
            lowered@ =~= ascii_lower(value@.take(copied as int)),
            forall|i: int|
                copied <= i < index ==> ascii_lower_char(#[trigger] value@[i]) == value@[i],
    {
        let c: char = all[index];
        if 'A' <= c && c <= 'Z' {
            lowered.append(value.substring_char(copied, index));
            lowered.append(small_letter(c));
            copied = index + 1;
        }
    }
    lowered.append(value.substring_char(copied, count));
    proof {
        assert(lowered@ =~= ascii_lower(value@));
    }
    lowered
}

/// The form in which free-text options are told apart: trimmed, and blind to ASCII case.
pub fn normalize_option_string(value: &str) -> (result: String)
    ensures
        result@ == ascii_lower(trimmed(value@)),
{
    lowercase_text(normalize(value).as_str())
}

/// Trimming twice is trimming once.
pub proof fn lemma_trimmed_idempotent(text: Seq<char>)
    ensures
        trimmed(trimmed(text)) == trimmed(text),
{
    let start = trimmed_start(text);
    lemma_trimmed_start(text);
    lemma_trimmed_end(start);
    let result = trimmed(text);
    if result.len() > 0 {
        assert(result[0] == start[0]);
    }
}

proof fn lemma_trimmed_start(text: Seq<char>)
    ensures
        trimmed_start(text).len() > 0 ==> !is_white_space(trimmed_start(text)[0]),
    decreases text.len(),
{
    if text.len() > 0 && is_white_space(text[0]) {
        lemma_trimmed_start(text.skip(1));
    }
}

proof fn lemma_trimmed_end(text: Seq<char>)
    ensures
        trimmed_end(text).len() > 0 ==> !is_white_space(trimmed_end(text).last()),
        trimmed_end(text).len() > 0 ==> trimmed_end(text)[0] == text[0],
    decreases text.len(),
{
    if text.len() > 0 && is_white_space(text.last()) {
        lemma_trimmed_end(text.drop_last());
    }
}

} // verus!
