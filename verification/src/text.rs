//! Reading and writing text, character by character.
use vstd::prelude::*;
use vstd::utf8::{decode_utf8, valid_utf8};

verus! {

/// The texts of a list of strings.
pub open spec fn texts(strings: Seq<String>) -> Seq<Seq<char>> {
    strings.map_values(|string: String| string@)
}

/// The text that `String::from_utf8_lossy` makes of bytes.
pub uninterp spec fn lossy_text(bytes: Seq<u8>) -> Seq<char>;

/// Runs `String::from_utf8_lossy`. The text follows from the bytes; where they
/// are UTF-8, it is the text that they encode. What stands in for bytes that
/// are not is not said.
#[verifier::external_body]
pub(crate) fn from_utf8_lossy(bytes: &[u8]) -> (res: String)
    ensures
        res@ == lossy_text(bytes@),
        valid_utf8(bytes@) ==> res@ == decode_utf8(bytes@),
{
    String::from_utf8_lossy(bytes).into_owned()
}

/// Whether a character is white space, as Unicode has it.
pub open spec fn is_white(character: char) -> bool {
    let code = character as u32;
    ||| 0x09 <= code <= 0x0d
    ||| code == 0x20
    ||| code == 0x85
    ||| code == 0xa0
    ||| code == 0x1680
    ||| 0x2000 <= code <= 0x200a
    ||| code == 0x2028
    ||| code == 0x2029
    ||| code == 0x202f
    ||| code == 0x205f
    ||| code == 0x3000
}

/// Says whether a character is white space.
pub fn is_whitespace(character: char) -> (res: bool)
    ensures
        res == is_white(character),
{
    let code: u32 = character as u32;
    (0x09 <= code && code <= 0x0d) || code == 0x20 || code == 0x85 || code == 0xa0 || code == 0x1680
        || (0x2000 <= code && code <= 0x200a) || code == 0x2028 || code == 0x2029 || code == 0x202f
        || code == 0x205f || code == 0x3000
}

/// The characters of a text.
pub fn characters(text: &str) -> (res: Vec<char>)
    ensures
        res@ == text@,
{
    let mut res: Vec<char> = Vec::new();
    for character in it: text.chars()
        invariant
            it.seq() == text@,
            res@ == it.seq().take(it.index() as int),
    {
        res.push(character);
        assert(it.seq().take(it.index() + 1) =~= it.seq().take(it.index() as int).push(character));
    }
    res
}

/// The part of a text from character `start` to character `end`.
fn part(text: &str, start: usize, end: usize) -> (res: String)
    requires
        start <= end <= text@.len(),
    ensures
        res@ == text@.subrange(start as int, end as int),
{
    text.substring_char(start, end).to_owned()
}

/// A text without the white space at its ends.
pub open spec fn trimmed(text: Seq<char>) -> Seq<char>
    decreases text.len(),
{
    if text.len() == 0 {
        text
    } else if is_white(text.first()) {
        trimmed(text.drop_first())
    } else if is_white(text.last()) {
        trimmed(text.drop_last())
    } else {
        text
    }
}

/// Takes the white space off the ends of a text.
pub fn trim(text: &str) -> (res: String)
    ensures
        res@ == trimmed(text@),
{
    let characters: Vec<char> = characters(text);
    let length: usize = characters.len();
    let mut start: usize = 0;
    assert(text@.subrange(0, length as int) =~= text@);
    while start < length && is_whitespace(characters[start])
        invariant
            start <= length,
            length == text@.len(),
            characters@ == text@,
            trimmed(text@) == trimmed(text@.subrange(start as int, length as int)),
        decreases length - start,
    {
        assert(text@.subrange(start as int, length as int).drop_first() =~= text@.subrange(
            start + 1,
            length as int,
        ));
        start += 1;
    }
    let mut end: usize = length;
    while start < end && is_whitespace(characters[end - 1])
        invariant
            start <= end <= length,
            length == text@.len(),
            characters@ == text@,
            start < length ==> !is_white(text@[start as int]),
            trimmed(text@) == trimmed(text@.subrange(start as int, end as int)),
        decreases end,
    {
        assert(text@.subrange(start as int, end as int).drop_last() =~= text@.subrange(
            start as int,
            end - 1,
        ));
        end -= 1;
    }
    part(text, start, end)
}

/// No white space is left at the ends of a text once it was taken off, and
/// taking it off again changes nothing.
pub proof fn trimmed_text_is_tight(text: Seq<char>)
    ensures
        trimmed(text).len() > 0 ==> !is_white(trimmed(text).first()) && !is_white(
            trimmed(text).last(),
        ),
        trimmed(trimmed(text)) == trimmed(text),
    decreases text.len(),
{
    if text.len() > 0 {
        if is_white(text.first()) {
            trimmed_text_is_tight(text.drop_first());
        } else if is_white(text.last()) {
            trimmed_text_is_tight(text.drop_last());
        }
    }
}

/// The number of characters before the first white space.
pub open spec fn word_length(text: Seq<char>) -> nat
    decreases text.len(),
{
    if text.len() == 0 || is_white(text.first()) {
        0
    } else {
        1 + word_length(text.drop_first())
    }
}

/// The words of a text: what stands between white space.
pub open spec fn words(text: Seq<char>) -> Seq<Seq<char>>
    decreases text.len(),
{
    if text.len() == 0 {
        seq![]
    } else if word_length(text) == 0 {
        words(text.drop_first())
    } else {
        proof {
            word_in_text(text);
        }
        seq![text.take(word_length(text) as int)] + words(text.skip(word_length(text) as int))
    }
}

/// A word is no longer than its text.
pub proof fn word_in_text(text: Seq<char>)
    ensures
        word_length(text) <= text.len(),
    decreases text.len(),
{
    if text.len() > 0 {
        word_in_text(text.drop_first());
    }
}

/// Splits a text into its words.
pub fn split_whitespace(text: &str) -> (res: Vec<String>)
    ensures
        texts(res@) == words(text@),
{
    let characters: Vec<char> = characters(text);
    let length: usize = characters.len();
    let mut res: Vec<String> = Vec::new();
    let mut start: usize = 0;
    assert(text@.skip(0) =~= text@);
    assert(texts(res@) + words(text@) =~= words(text@));
    while start < length
        invariant
            start <= length,
            length == text@.len(),
            characters@ == text@,
            words(text@) == texts(res@) + words(text@.skip(start as int)),
        decreases length - start,
    {
        let ghost rest = text@.skip(start as int);
        let mut end: usize = start;
        while end < length && !is_whitespace(characters[end])
            invariant
                start <= end <= length,
                length == text@.len(),
                characters@ == text@,
                word_length(text@.skip(start as int)) == end - start + word_length(
                    text@.skip(end as int),
                ),
            decreases length - end,
        {
            assert(text@.skip(end as int).drop_first() =~= text@.skip(end + 1));
            end += 1;
        }
        assert(word_length(rest) == end - start);
        if start < end {
            let word: String = part(text, start, end);
            assert(word@ =~= rest.take(end - start));
            assert(rest.skip(end - start) =~= text@.skip(end as int));
            let ghost before = res@;
            res.push(word);
            assert(texts(res@) =~= texts(before).push(word@));
            assert(texts(before) + (seq![word@] + words(text@.skip(end as int))) =~= texts(res@)
                + words(text@.skip(end as int)));
            start = end;
        } else {
            assert(rest.drop_first() =~= text@.skip(start + 1));
            start += 1;
        }
    }
    assert(words(text@.skip(start as int)) =~= seq![]);
    assert(texts(res@) + seq![] =~= texts(res@));
    res
}

/// The number of characters before the first line feed.
pub open spec fn line_length(text: Seq<char>) -> nat
    decreases text.len(),
{
    if text.len() == 0 || text.first() == '\n' {
        0
    } else {
        1 + line_length(text.drop_first())
    }
}

/// A line without the carriage return at its end.
pub open spec fn without_return(line: Seq<char>) -> Seq<char> {
    if line.len() > 0 && line.last() == '\r' {
        line.drop_last()
    } else {
        line
    }
}

/// The lines of a text. A line ends with a line feed, or with a carriage return
/// and a line feed; the last one may lack its end.
pub open spec fn lines_of(text: Seq<char>) -> Seq<Seq<char>>
    decreases text.len(),
{
    let length = line_length(text);
    if text.len() == 0 {
        seq![]
    } else if length >= text.len() {
        seq![text]
    } else {
        seq![without_return(text.take(length as int))] + lines_of(text.skip(length as int + 1))
    }
}

/// Splits a text into its lines.
pub fn lines(text: &str) -> (res: Vec<String>)
    ensures
        texts(res@) == lines_of(text@),
{
    let characters: Vec<char> = characters(text);
    let length: usize = characters.len();
    let mut res: Vec<String> = Vec::new();
    let mut start: usize = 0;
    assert(text@.skip(0) =~= text@);
    assert(texts(res@) + lines_of(text@) =~= lines_of(text@));
    while start < length
        invariant
            start <= length,
            length == text@.len(),
            characters@ == text@,
            lines_of(text@) == texts(res@) + lines_of(text@.skip(start as int)),
        decreases length - start,
    {
        let ghost rest = text@.skip(start as int);
        let mut end: usize = start;
        while end < length && characters[end] != '\n'
            invariant
                start <= end <= length,
                length == text@.len(),
                characters@ == text@,
                line_length(text@.skip(start as int)) == end - start + line_length(
                    text@.skip(end as int),
                ),
            decreases length - end,
        {
            assert(text@.skip(end as int).drop_first() =~= text@.skip(end + 1));
            end += 1;
        }
        assert(line_length(rest) == end - start);
        let ghost before = res@;
        if end < length {
            let last: usize = if start < end && characters[end - 1] == '\r' {
                end - 1
            } else {
                end
            };
            let line: String = part(text, start, last);
            assert(line@ =~= without_return(rest.take(end - start)));
            assert(rest.skip(end - start + 1) =~= text@.skip(end + 1));
            res.push(line);
            assert(texts(res@) =~= texts(before).push(line@));
            assert(texts(before) + (seq![line@] + lines_of(text@.skip(end + 1))) =~= texts(res@)
                + lines_of(text@.skip(end + 1)));
            start = end + 1;
        } else {
            let line: String = part(text, start, end);
            assert(line@ =~= rest);
            res.push(line);
            assert(texts(res@) =~= texts(before).push(line@));
            assert(lines_of(text@.skip(end as int)) =~= seq![]);
            assert(texts(before) + seq![line@] =~= texts(res@) + seq![]);
            start = end;
        }
    }
    assert(lines_of(text@.skip(start as int)) =~= seq![]);
    assert(texts(res@) + seq![] =~= texts(res@));
    res
}

/// Texts, one after the other, with a separator between them.
pub open spec fn joined(list: Seq<Seq<char>>, separator: Seq<char>) -> Seq<char>
    decreases list.len(),
{
    if list.len() == 0 {
        seq![]
    } else if list.len() == 1 {
        list[0]
    } else {
        joined(list.drop_last(), separator) + separator + list.last()
    }
}

/// Joins strings with a separator.
pub fn join(list: &[String], separator: &str) -> (res: String)
    ensures
        res@ == joined(texts(list@), separator@),
{
    let mut res: String = String::new();
    let mut index: usize = 0;
    assert(texts(list@).take(0) =~= seq![]);
    while index < list.len()
        invariant
            index <= list@.len(),
            res@ == joined(texts(list@).take(index as int), separator@),
        decreases list@.len() - index,
    {
        let ghost longer = texts(list@).take(index + 1);
        assert(longer.drop_last() =~= texts(list@).take(index as int));
        assert(longer.last() == list@[index as int]@);
        if index > 0 {
            res.append(separator);
        } else {
            assert(res@ + longer[0] =~= longer[0]);
        }
        res.append(list[index].as_str());
        index += 1;
    }
    assert(texts(list@).take(list@.len() as int) =~= texts(list@));
    res
}

/// A character with a capital letter of the English alphabet made small.
pub open spec fn small(character: char) -> char {
    if 'A' <= character <= 'Z' {
        (character as u32 + 32) as char
    } else {
        character
    }
}

/// Whether the text holds the given small letters in one piece, capital or not.
pub open spec fn mentions(text: Seq<char>, letters: Seq<char>) -> bool {
    exists|start: int| #[trigger] mentions_at(text, letters, start)
}

/// Whether the given small letters stand at a place of the text, capital or
/// not.
pub open spec fn mentions_at(text: Seq<char>, letters: Seq<char>, start: int) -> bool {
    &&& 0 <= start <= text.len() - letters.len()
    &&& forall|k: int| 0 <= k < letters.len() ==> small(text[start + k]) == #[trigger] letters[k]
}

/// Makes a capital letter small.
fn to_small(character: char) -> (res: char)
    ensures
        res == small(character),
{
    if 'A' <= character && character <= 'Z' {
        (character as u8 + 32) as char
    } else {
        character
    }
}

/// Looks for small letters in a text, capital or not.
pub fn find_letters(text: &str, letters: &str) -> (res: bool)
    ensures
        res == mentions(text@, letters@),
{
    let place: Vec<char> = characters(text);
    let wanted: Vec<char> = characters(letters);
    if wanted.len() > place.len() {
        return false;
    }
    let last: usize = place.len() - wanted.len();
    let mut start: usize = 0;
    loop
        invariant
            start <= last,
            place@ == text@,
            wanted@ == letters@,
            last == place.len() - wanted.len(),
            forall|k: int| 0 <= k < start ==> !#[trigger] mentions_at(text@, letters@, k),
        decreases last - start,
    {
        let mut index: usize = 0;
        while index < wanted.len() && to_small(place[start + index]) == wanted[index]
            invariant
                index <= wanted@.len(),
                start + wanted.len() <= place.len(),
                forall|k: int|
                    0 <= k < index ==> small(place@[start + k]) == #[trigger] wanted@[k],
            decreases wanted@.len() - index,
        {
            index += 1;
        }
        if index == wanted.len() {
            assert(mentions_at(text@, letters@, start as int));
            return true;
        }
        assert(!mentions_at(text@, letters@, start as int)) by {
            assert(letters@[index as int] != small(text@[start + index]));
        }
        if start == last {
            return false;
        }
        start += 1;
    }
}

/// A decimal digit.
pub open spec fn digit(value: nat) -> char {
    (48 + value) as char
}

/// A number in decimal digits.
pub open spec fn decimal(value: nat) -> Seq<char>
    decreases value,
{
    if value < 10 {
        seq![digit(value)]
    } else {
        decimal(value / 10).push(digit(value % 10))
    }
}

/// The text of a digit.
fn digit_text(value: u32) -> (res: &'static str)
    requires
        value < 10,
    ensures
        res@ == seq![digit(value as nat)],
{
    proof {
        reveal_strlit("0");
        reveal_strlit("1");
        reveal_strlit("2");
        reveal_strlit("3");
        reveal_strlit("4");
        reveal_strlit("5");
        reveal_strlit("6");
        reveal_strlit("7");
        reveal_strlit("8");
        reveal_strlit("9");
    }
    match value {
        0 => "0",
        1 => "1",
        2 => "2",
        3 => "3",
        4 => "4",
        5 => "5",
        6 => "6",
        7 => "7",
        8 => "8",
        _ => "9",
    }
}

/// Writes a number in decimal digits.
pub fn to_decimal(value: u32) -> (res: String)
    ensures
        res@ == decimal(value as nat),
    decreases value,
{
    if value < 10 {
        digit_text(value).to_owned()
    } else {
        let res: String = to_decimal(value / 10).concat(digit_text(value % 10));
        assert(res@ =~= decimal(value as nat));
        res
    }
}

/// Different numbers are written differently.
pub proof fn decimals_differ(first: nat, second: nat)
    ensures
        decimal(first) == decimal(second) <==> first == second,
    decreases first,
{
    if decimal(first) == decimal(second) {
        assert(decimal(first).last() == digit(first % 10));
        assert(decimal(second).last() == digit(second % 10));
        assert(digit(first % 10) as int == 48 + first % 10);
        assert(digit(second % 10) as int == 48 + second % 10);
        if first >= 10 && second >= 10 {
            assert(decimal(first).drop_last() =~= decimal(first / 10));
            assert(decimal(second).drop_last() =~= decimal(second / 10));
            decimals_differ(first / 10, second / 10);
        } else if first >= 10 {
            assert(decimal(first / 10).len() > 0);
            assert(decimal(first).len() == decimal(first / 10).len() + 1);
        } else if second >= 10 {
            assert(decimal(second / 10).len() > 0);
            assert(decimal(second).len() == decimal(second / 10).len() + 1);
        }
    }
}

/// The texts of strings are the texts of each of them, in order.
pub proof fn texts_are_those_of_the_strings(strings: Seq<String>, index: int)
    requires
        0 <= index < strings.len(),
    ensures
        texts(strings).len() == strings.len(),
        texts(strings)[index] == strings[index]@,
{
}

/// What is taken off a text is white space at its ends and nothing else.
pub proof fn trimming_takes_only_white_space(text: Seq<char>)
    ensures
        exists|start: int, end: int|
            {
                &&& 0 <= start <= end <= text.len()
                &&& trimmed(text) == #[trigger] text.subrange(start, end)
                &&& forall|k: int| 0 <= k < start ==> is_white(#[trigger] text[k])
                &&& forall|k: int| end <= k < text.len() ==> is_white(#[trigger] text[k])
            },
{
    let (start, end) = trim_bounds(text);
    assert(trimmed(text) == text.subrange(start, end));
}

/// Where the text without the white space at its ends begins and ends.
#[verifier::spinoff_prover]
#[verifier::rlimit(40)]
proof fn trim_bounds(text: Seq<char>) -> (bounds: (int, int))
    ensures
        0 <= bounds.0 <= bounds.1 <= text.len(),
        trimmed(text) == text.subrange(bounds.0, bounds.1),
        forall|k: int| 0 <= k < bounds.0 ==> is_white(#[trigger] text[k]),
        forall|k: int| bounds.1 <= k < text.len() ==> is_white(#[trigger] text[k]),
    decreases text.len(),
{
    if text.len() == 0 {
        assert(trimmed(text) =~= text.subrange(0, 0));
        (0, 0)
    } else if is_white(text.first()) {
        let rest = text.drop_first();
        let (start, end) = trim_bounds(rest);
        assert(rest.subrange(start, end) =~= text.subrange(start + 1, end + 1));
        assert forall|k: int| 0 <= k < start + 1 implies is_white(#[trigger] text[k]) by {
            if k > 0 {
                assert(text[k] == rest[k - 1]);
            }
        }
        assert forall|k: int| end + 1 <= k < text.len() implies is_white(#[trigger] text[k]) by {
            assert(text[k] == rest[k - 1]);
        }
        (start + 1, end + 1)
    } else if is_white(text.last()) {
        let rest = text.drop_last();
        let (start, end) = trim_bounds(rest);
        assert(rest.subrange(start, end) =~= text.subrange(start, end));
        assert forall|k: int| 0 <= k < start implies is_white(#[trigger] text[k]) by {
            assert(text[k] == rest[k]);
        }
        assert forall|k: int| end <= k < text.len() implies is_white(#[trigger] text[k]) by {
            if k < rest.len() {
                assert(text[k] == rest[k]);
            }
        }
        (start, end)
    } else {
        assert(text =~= text.subrange(0, text.len() as int));
        (0, text.len() as int)
    }
}

/// A text between white space is what is left when that is taken off, if it has
/// none at its own ends.
pub proof fn trimming_finds_the_text_between_white_space(
    before: Seq<char>,
    text: Seq<char>,
    after: Seq<char>,
)
    requires
        forall|k: int| 0 <= k < before.len() ==> is_white(#[trigger] before[k]),
        forall|k: int| 0 <= k < after.len() ==> is_white(#[trigger] after[k]),
        text.len() > 0 ==> !is_white(text.first()) && !is_white(text.last()),
    ensures
        trimmed(before + text + after) == text,
    decreases before.len() + after.len(),
{
    let all = before + text + after;
    if before.len() > 0 {
        assert(all.first() == before[0]);
        assert(all.drop_first() =~= before.drop_first() + text + after);
        trimming_finds_the_text_between_white_space(before.drop_first(), text, after);
    } else if after.len() > 0 {
        if text.len() > 0 {
            assert(all.first() == text.first());
            assert(all.last() == after.last());
            assert(after.last() == after[after.len() - 1]);
            assert(all.drop_last() =~= before + text + after.drop_last());
            trimming_finds_the_text_between_white_space(before, text, after.drop_last());
        } else {
            assert(all.first() == after[0]);
            assert(all.drop_first() =~= before + text + after.drop_first());
            trimming_finds_the_text_between_white_space(before, text, after.drop_first());
        }
    } else {
        assert(all =~= text);
    }
}

proof fn words_end_at_white_space(first: Seq<char>, white: char, second: Seq<char>)
    requires
        is_white(white),
    ensures
        word_length(first.push(white) + second) == word_length(first),
    decreases first.len(),
{
    let text = first.push(white) + second;
    if first.len() > 0 {
        assert(text.first() == first.first());
        assert(text.drop_first() =~= first.drop_first().push(white) + second);
        words_end_at_white_space(first.drop_first(), white, second);
    } else {
        assert(text.first() == white);
    }
}

/// White space parts words: the words of a text are those before a white
/// character and those behind it.
pub proof fn white_space_parts_words(first: Seq<char>, white: char, second: Seq<char>)
    requires
        is_white(white),
    ensures
        words(first.push(white) + second) == words(first) + words(second),
    decreases first.len(),
{
    let text = first.push(white) + second;
    words_end_at_white_space(first, white, second);
    if first.len() == 0 {
        assert(text.drop_first() =~= second);
        assert(words(first) + words(second) =~= words(second));
    } else if word_length(first) == 0 {
        assert(text.drop_first() =~= first.drop_first().push(white) + second);
        white_space_parts_words(first.drop_first(), white, second);
    } else {
        let length = word_length(first) as int;
        word_in_text(first);
        assert(text.take(length) =~= first.take(length));
        assert(text.skip(length) =~= first.skip(length).push(white) + second);
        white_space_parts_words(first.skip(length), white, second);
        assert(seq![first.take(length)] + (words(first.skip(length)) + words(second)) =~= seq![
            first.take(length),
        ] + words(first.skip(length)) + words(second));
    }
}

/// A text without white space is one word, and an empty text has none.
pub proof fn text_without_white_space_is_one_word(text: Seq<char>)
    requires
        forall|k: int| 0 <= k < text.len() ==> !is_white(#[trigger] text[k]),
    ensures
        text.len() == 0 ==> words(text).len() == 0,
        text.len() > 0 ==> words(text) == seq![text],
{
    if text.len() > 0 {
        whole_text_is_a_word(text);
        let length = word_length(text) as int;
        assert(text[0] == text.first());
        assert(text.take(length) =~= text);
        assert(text.skip(length) =~= seq![]);
        assert(words(text.skip(length)) =~= seq![]);
        assert(seq![text] + Seq::<Seq<char>>::empty() =~= seq![text]);
    }
}

proof fn whole_text_is_a_word(text: Seq<char>)
    requires
        forall|k: int| 0 <= k < text.len() ==> !is_white(#[trigger] text[k]),
    ensures
        word_length(text) == text.len(),
    decreases text.len(),
{
    if text.len() > 0 {
        assert(text[0] == text.first());
        assert forall|k: int| 0 <= k < text.drop_first().len() implies !is_white(
            #[trigger] text.drop_first()[k],
        ) by {
            assert(text.drop_first()[k] == text[k + 1]);
        }
        whole_text_is_a_word(text.drop_first());
    }
}

proof fn lines_end_at_line_feeds(first: Seq<char>, rest: Seq<char>)
    requires
        forall|k: int| 0 <= k < first.len() ==> #[trigger] first[k] != '\n',
        rest.len() > 0 ==> rest.first() == '\n',
    ensures
        line_length(first + rest) == first.len(),
    decreases first.len(),
{
    let text = first + rest;
    if first.len() > 0 {
        assert(text.first() == first[0]);
        assert(text.drop_first() =~= first.drop_first() + rest);
        assert forall|k: int|
            0 <= k < first.drop_first().len() implies #[trigger] first.drop_first()[k] != '\n' by {
            assert(first.drop_first()[k] == first[k + 1]);
        }
        lines_end_at_line_feeds(first.drop_first(), rest);
    } else {
        assert(text =~= rest);
    }
}

/// A line feed ends a line: the lines of a text are what stands before its first
/// line feed, without a carriage return at the end, and the lines behind it.
pub proof fn line_feeds_end_lines(first: Seq<char>, second: Seq<char>)
    requires
        forall|k: int| 0 <= k < first.len() ==> #[trigger] first[k] != '\n',
    ensures
        first.len() == 0 || first.last() != '\r' ==> lines_of(first.push('\n') + second) == seq![
            first,
        ] + lines_of(second),
        first.len() > 0 && first.last() == '\r' ==> lines_of(first.push('\n') + second) == seq![
            first.subrange(0, first.len() - 1),
        ] + lines_of(second),
{
    let text = first.push('\n') + second;
    let rest = seq!['\n'] + second;
    assert(text =~= first + rest);
    lines_end_at_line_feeds(first, rest);
    assert(text.take(first.len() as int) =~= first);
    assert(text.skip(first.len() as int + 1) =~= second);
    if first.len() > 0 {
        assert(first.drop_last() =~= first.subrange(0, first.len() - 1));
    }
}

/// A text without a line feed is one line as it is, and an empty text has none.
pub proof fn text_without_line_feeds_is_one_line(text: Seq<char>)
    requires
        forall|k: int| 0 <= k < text.len() ==> #[trigger] text[k] != '\n',
    ensures
        text.len() == 0 ==> lines_of(text).len() == 0,
        text.len() > 0 ==> lines_of(text) == seq![text],
{
    lines_end_at_line_feeds(text, seq![]);
    assert(text + Seq::<char>::empty() =~= text);
}

/// Joined lists are joined by the separator between them; a single text is joined
/// to itself.
pub proof fn lists_are_joined_by_the_separator(
    first: Seq<Seq<char>>,
    second: Seq<Seq<char>>,
    separator: Seq<char>,
    text: Seq<char>,
)
    requires
        first.len() > 0,
        second.len() > 0,
    ensures
        joined(first + second, separator) == joined(first, separator) + separator + joined(
            second,
            separator,
        ),
        joined(seq![text], separator) == text,
        joined(seq![], separator).len() == 0,
    decreases second.len(),
{
    let all = first + second;
    assert(all.drop_last() =~= first + second.drop_last());
    assert(all.last() == second.last());
    if second.len() == 1 {
        assert(first + second.drop_last() =~= first);
        assert(second.last() == second[0]);
    } else {
        lists_are_joined_by_the_separator(first, second.drop_last(), separator, text);
        let start = joined(first, separator);
        let middle = joined(second.drop_last(), separator);
        assert(start + separator + middle + separator + second.last() =~= start + separator + (
        middle + separator + second.last()));
    }
}

/// Letters are found exactly if the text has a part of their length that is the
/// same, character by character, but for capitals of the English alphabet.
pub proof fn letters_are_found_in_either_case(text: Seq<char>, letters: Seq<char>)
    ensures
        mentions(text, letters) <==> exists|before: Seq<char>, part: Seq<char>, after: Seq<char>|
            {
                &&& text == #[trigger] (before + part + after)
                &&& part.len() == letters.len()
                &&& forall|k: int|
                    0 <= k < part.len() ==> {
                        ||| #[trigger] part[k] == letters[k] && !(65 <= part[k] as int <= 90)
                        ||| 65 <= part[k] as int <= 90 && part[k] as int + 32 == letters[k] as int
                    }
            },
{
    if mentions(text, letters) {
        let start = choose|start: int| #[trigger] mentions_at(text, letters, start);
        let before = text.take(start);
        let part = text.subrange(start, start + letters.len());
        let after = text.skip(start + letters.len());
        assert(text =~= before + part + after);
        assert forall|k: int| 0 <= k < part.len() implies {
            ||| #[trigger] part[k] == letters[k] && !(65 <= part[k] as int <= 90)
            ||| 65 <= part[k] as int <= 90 && part[k] as int + 32 == letters[k] as int
        } by {
            assert(small(text[start + k]) == letters[k]);
        }
    }
    if exists|before: Seq<char>, part: Seq<char>, after: Seq<char>|
        {
            &&& text == #[trigger] (before + part + after)
            &&& part.len() == letters.len()
            &&& forall|k: int|
                0 <= k < part.len() ==> {
                    ||| #[trigger] part[k] == letters[k] && !(65 <= part[k] as int <= 90)
                    ||| 65 <= part[k] as int <= 90 && part[k] as int + 32 == letters[k] as int
                }
        } {
        let (before, part, after) = choose|
            before: Seq<char>,
            part: Seq<char>,
            after: Seq<char>,
        |
            {
                &&& text == #[trigger] (before + part + after)
                &&& part.len() == letters.len()
                &&& forall|k: int|
                    0 <= k < part.len() ==> {
                        ||| #[trigger] part[k] == letters[k] && !(65 <= part[k] as int <= 90)
                        ||| 65 <= part[k] as int <= 90 && part[k] as int + 32 == letters[k] as int
                    }
            };
        let start = before.len() as int;
        assert forall|k: int| 0 <= k < letters.len() implies small(text[start + k])
            == #[trigger] letters[k] by {
            assert(text[start + k] == part[k]);
            let character = part[k];
        }
        assert(mentions_at(text, letters, start));
    }
}

/// The number that decimal digits stand for.
pub open spec fn number_of(digits: Seq<char>) -> int
    decreases digits.len(),
{
    if digits.len() == 0 {
        0
    } else {
        10 * number_of(digits.drop_last()) + (digits.last() as int - 48)
    }
}

/// A number is written in decimal digits that stand for it, without a zero at the
/// front unless it is zero.
pub proof fn decimals_stand_for_their_number(value: nat)
    ensures
        number_of(decimal(value)) == value,
        forall|k: int| 0 <= k < decimal(value).len() ==> 48 <= #[trigger] decimal(value)[k] as int
            <= 57,
        decimal(value).len() > 0,
        decimal(value)[0] as int == 48 ==> value == 0 && decimal(value).len() == 1,
    decreases value,
{
    if value < 10 {
        let digits = decimal(value);
        assert(digits.drop_last() =~= seq![]);
        assert(digits.last() as int == 48 + value);
        assert(number_of(seq![]) == 0);
    } else {
        decimals_stand_for_their_number(value / 10);
        let digits = decimal(value);
        assert(digits.drop_last() =~= decimal(value / 10));
        assert(digits.last() as int == 48 + value % 10);
        assert(digits[0] == decimal(value / 10)[0]);
        assert forall|k: int| 0 <= k < digits.len() implies 48 <= #[trigger] digits[k] as int
            <= 57 by {
            if k < digits.len() - 1 {
                assert(digits[k] == decimal(value / 10)[k]);
            }
        }
    }
}

/// White space is what Unicode calls so, 25 characters in all: six controls, the
/// space, the no-break space, and the spaces and separators from U+1680 on.
pub proof fn white_space_is_that_of_unicode(character: char)
    ensures
        is_white(character) <==> seq![
            '\u{9}', '\u{a}', '\u{b}', '\u{c}', '\u{d}', '\u{20}', '\u{85}', '\u{a0}', '\u{1680}',
            '\u{2000}', '\u{2001}', '\u{2002}', '\u{2003}', '\u{2004}', '\u{2005}', '\u{2006}',
            '\u{2007}', '\u{2008}', '\u{2009}', '\u{200a}', '\u{2028}', '\u{2029}', '\u{202f}',
            '\u{205f}', '\u{3000}',
        ].contains(character),
{
    let all = seq![
        '\u{9}', '\u{a}', '\u{b}', '\u{c}', '\u{d}', '\u{20}', '\u{85}', '\u{a0}', '\u{1680}',
        '\u{2000}', '\u{2001}', '\u{2002}', '\u{2003}', '\u{2004}', '\u{2005}', '\u{2006}',
        '\u{2007}', '\u{2008}', '\u{2009}', '\u{200a}', '\u{2028}', '\u{2029}', '\u{202f}',
        '\u{205f}', '\u{3000}',
    ];
    let code = character as int;
    if is_white(character) {
        let index = if code <= 0x0d {
            code - 0x09
        } else if code == 0x20 {
            5
        } else if code == 0x85 {
            6
        } else if code == 0xa0 {
            7
        } else if code == 0x1680 {
            8
        } else if code <= 0x200a {
            code - 0x2000 + 9
        } else if code == 0x2028 {
            20
        } else if code == 0x2029 {
            21
        } else if code == 0x202f {
            22
        } else if code == 0x205f {
            23
        } else {
            24
        };
        assert(all[index] == character);
    }
}

} // verus!
