//! Text, as sequences of characters.

use vstd::prelude::*;

verus! {

broadcast use vstd::string::group_string_axioms;

/// The characters of `text`.
pub fn letters(text: &str) -> (list: Vec<char>)
    ensures
        list@ == text@,
{
    let mut list: Vec<char> = Vec::new();
    for letter in walk: text.chars()
        invariant
            list@ == walk.seq().take(walk.index() as int),
            walk.seq() == text@,
    {
        list.push(letter);
        assert(list@ =~= walk.seq().take(walk.index() + 1));
    }
    assert(list@ =~= text@);
    list
}

/// Whether `letter` separates words: the characters with the Unicode property
/// of white space.
pub open spec fn is_blank(letter: char) -> bool {
    ||| '\u{9}' <= letter <= '\u{d}'
    ||| letter == ' '
    ||| letter == '\u{85}'
    ||| letter == '\u{a0}'
    ||| letter == '\u{1680}'
    ||| '\u{2000}' <= letter <= '\u{200a}'
    ||| letter == '\u{2028}'
    ||| letter == '\u{2029}'
    ||| letter == '\u{202f}'
    ||| letter == '\u{205f}'
    ||| letter == '\u{3000}'
}

/// Whether `letter` separates words.
pub fn blank(letter: char) -> (yes: bool)
    ensures
        yes == is_blank(letter),
{
    ('\u{9}' <= letter && letter <= '\u{d}') || letter == ' ' || letter == '\u{85}' || letter
        == '\u{a0}' || letter == '\u{1680}' || ('\u{2000}' <= letter && letter <= '\u{200a}')
        || letter == '\u{2028}' || letter == '\u{2029}' || letter == '\u{202f}' || letter
        == '\u{205f}' || letter == '\u{3000}'
}

/// Where the first word of `text[from..to]` starts: the first character that is
/// not blank, or the end.
pub open spec fn word_start(text: Seq<char>, from: int, to: int) -> int
    decreases to - from,
{
    if from >= to || !is_blank(text[from]) {
        from
    } else {
        word_start(text, from + 1, to)
    }
}

/// Where a word that starts at `from` ends: the next blank character, or the
/// end.
pub open spec fn word_end(text: Seq<char>, from: int, to: int) -> int
    decreases to - from,
{
    if from >= to || is_blank(text[from]) {
        from
    } else {
        word_end(text, from + 1, to)
    }
}

/// The first word of `text`, if it has one.
pub open spec fn first_word(text: Seq<char>) -> Option<Seq<char>> {
    let start = word_start(text, 0, text.len() as int);
    if start >= text.len() {
        None
    } else {
        Some(text.subrange(start, word_end(text, start, text.len() as int)))
    }
}

/// A word lies within the text that it is looked for in.
pub proof fn lemma_word_bounds(text: Seq<char>, from: int, to: int)
    requires
        0 <= from <= to <= text.len(),
    ensures
        from <= word_start(text, from, to) <= to,
        from <= word_end(text, from, to) <= to,
    decreases to - from,
{
    if from < to {
        lemma_word_bounds(text, from + 1, to);
    }
}

/// The first word of `text[from..to]`, as its own bounds.
pub fn find_word(text: &Vec<char>, from: usize, to: usize) -> (bounds: Option<(usize, usize)>)
    requires
        from <= to <= text@.len(),
    ensures
        match bounds {
            Some((start, end)) => from <= start < end <= to && first_word(
                text@.subrange(from as int, to as int),
            ) == Some(text@.subrange(start as int, end as int)),
            None => first_word(text@.subrange(from as int, to as int)) is None,
        },
{
    let ghost window = text@.subrange(from as int, to as int);
    let ghost length = window.len() as int;
    let mut start: usize = from;
    while start < to && blank(text[start])
        invariant
            from <= start <= to <= text@.len(),
            window == text@.subrange(from as int, to as int),
            length == window.len(),
            word_start(window, 0, length) == word_start(window, start - from, length),
        decreases to - start,
    {
        assert(window[start - from] == text@[start as int]);
        start += 1;
    }
    if start == to {
        return None;
    }
    assert(window[start - from] == text@[start as int]);
    let mut end: usize = start;
    while end < to && !blank(text[end])
        invariant
            from <= start <= end <= to <= text@.len(),
            window == text@.subrange(from as int, to as int),
            length == window.len(),
            word_end(window, start - from, length) == word_end(window, end - from, length),
        decreases to - end,
    {
        assert(window[end - from] == text@[end as int]);
        end += 1;
    }
    if end < to {
        assert(window[end - from] == text@[end as int]);
    }
    assert(window.subrange(start - from, end - from) =~= text@.subrange(start as int, end as int));
    Some((start, end))
}

/// The first place in `text` at or after `from` where `part`, which is not
/// empty, stands; the length of the text where there is none.
pub open spec fn find_part(text: Seq<char>, part: Seq<char>, from: int) -> int
    decreases text.len() - from,
{
    if from + part.len() > text.len() || from < 0 || part.len() == 0 {
        text.len() as int
    } else if text.subrange(from, from + part.len()) == part {
        from
    } else {
        find_part(text, part, from + 1)
    }
}

/// `text` cut at every `separator`.
pub open spec fn cut(text: Seq<char>, separator: char) -> Seq<Seq<char>>
    decreases text.len(),
{
    if text.len() == 0 {
        seq![Seq::<char>::empty()]
    } else {
        let before = cut(text.drop_last(), separator);
        if text.last() == separator {
            before.push(Seq::<char>::empty())
        } else {
            before.update(before.len() - 1, before.last().push(text.last()))
        }
    }
}

/// A line without the carriage return that belongs to its line break.
pub open spec fn without_return(line: Seq<char>) -> Seq<char> {
    if line.len() > 0 && line.last() == '\r' {
        line.drop_last()
    } else {
        line
    }
}

/// The lines of `text`: each ends with a line feed, which may follow a carriage
/// return; the last may end with the text.
pub open spec fn lines(text: Seq<char>) -> Seq<Seq<char>> {
    let parts = cut(text, '\n');
    let ended = Seq::new((parts.len() - 1) as nat, |i: int| without_return(parts[i]));
    if parts.last().len() == 0 {
        ended
    } else {
        ended.push(parts.last())
    }
}

/// A cut text has at least one part.
pub proof fn lemma_cut_nonempty(text: Seq<char>, separator: char)
    ensures
        cut(text, separator).len() >= 1,
    decreases text.len(),
{
    if text.len() > 0 {
        lemma_cut_nonempty(text.drop_last(), separator);
    }
}

/// What the parts of a text up to `at` become, given where the last begins.
pub open spec fn line_bounds(text: Seq<char>, bounds: Seq<(usize, usize)>) -> Seq<Seq<char>> {
    Seq::new(bounds.len(), |i: int| text.subrange(bounds[i].0 as int, bounds[i].1 as int))
}

/// Where the lines of `text` stand.
pub fn find_lines(text: &Vec<char>) -> (bounds: Vec<(usize, usize)>)
    ensures
        forall|i: int|
            0 <= i < bounds@.len() ==> (#[trigger] bounds@[i]).0 <= bounds@[i].1 <= text@.len(),
        line_bounds(text@, bounds@) == lines(text@),
{
    let mut bounds: Vec<(usize, usize)> = Vec::new();
    let mut start: usize = 0;
    let mut i: usize = 0;
    proof {
        assert(text@.take(0) =~= Seq::<char>::empty());
        assert(line_bounds(text@, bounds@) =~= ended_lines(cut(text@.take(0), '\n')));
        assert(text@.subrange(0, 0) =~= cut(text@.take(0), '\n').last());
    }
    while i < text.len()
        invariant
            start <= i <= text@.len(),
            forall|n: int|
                0 <= n < bounds@.len() ==> (#[trigger] bounds@[n]).0 <= bounds@[n].1
                    <= text@.len(),
            line_bounds(text@, bounds@) == ended_lines(cut(text@.take(i as int), '\n')),
            cut(text@.take(i as int), '\n').last() == text@.subrange(start as int, i as int),
        decreases text@.len() - i,
    {
        let ghost before = cut(text@.take(i as int), '\n');
        let ghost done = line_bounds(text@, bounds@);
        proof {
            lemma_cut_nonempty(text@.take(i as int), '\n');
            assert(text@.take(i + 1).drop_last() =~= text@.take(i as int));
            assert(text@.take(i + 1).last() == text@[i as int]);
        }
        if text[i] == '\n' {
            let end: usize = if i > start && text[i - 1] == '\r' {
                i - 1
            } else {
                i
            };
            bounds.push((start, end));
            proof {
                let after = cut(text@.take(i + 1), '\n');
                assert(after == before.push(Seq::<char>::empty()));
                let line = text@.subrange(start as int, i as int);
                assert(line.len() > 0 ==> line.last() == text@[i - 1]);
                assert(without_return(line) =~= text@.subrange(start as int, end as int));
                assert(line_bounds(text@, bounds@) =~= done.push(without_return(line)));
                assert(ended_lines(after) =~= ended_lines(before).push(
                    without_return(before.last()),
                ));
            }
            start = i + 1;
            assert(text@.subrange(start as int, i + 1) =~= Seq::<char>::empty());
        } else {
            proof {
                let after = cut(text@.take(i + 1), '\n');
                assert(ended_lines(after) =~= ended_lines(before));
                assert(after.last() =~= text@.subrange(start as int, i + 1));
            }
        }
        i += 1;
    }
    assert(text@.take(text@.len() as int) =~= text@);
    let ghost done = line_bounds(text@, bounds@);
    if start < i {
        bounds.push((start, i));
        assert(line_bounds(text@, bounds@) =~= done.push(text@.subrange(start as int, i as int)));
    }
    assert(line_bounds(text@, bounds@) =~= lines(text@));
    bounds
}

/// The lines of all parts but the last.
pub open spec fn ended_lines(parts: Seq<Seq<char>>) -> Seq<Seq<char>> {
    Seq::new((parts.len() - 1) as nat, |i: int| without_return(parts[i]))
}

/// The number that a text of decimal digits stands for.
pub open spec fn decimal(digits: Seq<char>) -> nat
    decreases digits.len(),
{
    if digits.len() == 0 {
        0
    } else {
        decimal(digits.drop_last()) * 10 + (digits.last() as nat - '0' as nat) as nat
    }
}

/// Whether `letter` is a decimal digit.
pub open spec fn is_digit(letter: char) -> bool {
    '0' <= letter <= '9'
}

/// Whether `text` is one or more decimal digits.
pub open spec fn is_decimal(text: Seq<char>) -> bool {
    text.len() > 0 && forall|i: int| 0 <= i < text.len() ==> is_digit(#[trigger] text[i])
}

/// The digits of a number that may be written with a plus sign.
pub open spec fn unsigned_digits(text: Seq<char>) -> Seq<char> {
    if text.len() > 0 && text[0] == '+' {
        text.skip(1)
    } else {
        text
    }
}

/// The unsigned number that `text` writes, if it writes one that fits.
pub open spec fn parsed_u64(text: Seq<char>) -> Option<u64> {
    let digits = unsigned_digits(text);
    if is_decimal(digits) && decimal(digits) <= u64::MAX {
        Some(decimal(digits) as u64)
    } else {
        None
    }
}

/// More digits make no smaller number.
proof fn lemma_decimal_grows(digits: Seq<char>, count: int)
    requires
        0 <= count <= digits.len(),
    ensures
        decimal(digits.take(count)) <= decimal(digits),
    decreases digits.len() - count,
{
    if count < digits.len() {
        assert(digits.take(count + 1).drop_last() =~= digits.take(count));
        lemma_decimal_grows(digits, count + 1);
    } else {
        assert(digits.take(count) =~= digits);
    }
}

/// The unsigned number that `text[from..to]` writes, if it writes one that
/// fits.
pub fn parse_u64(text: &Vec<char>, from: usize, to: usize) -> (number: Option<u64>)
    requires
        from <= to <= text@.len(),
    ensures
        number == parsed_u64(text@.subrange(from as int, to as int)),
{
    let ghost window = text@.subrange(from as int, to as int);
    let ghost digits = unsigned_digits(window);
    let first: usize = if from < to && text[from] == '+' {
        from + 1
    } else {
        from
    };
    assert(digits =~= text@.subrange(first as int, to as int));
    if first == to {
        return None;
    }
    let mut value: u64 = 0;
    let mut i: usize = first;
    assert(digits.take(0) =~= Seq::<char>::empty());
    while i < to
        invariant
            first <= i <= to <= text@.len(),
            digits == text@.subrange(first as int, to as int),
            digits == unsigned_digits(window),
            window == text@.subrange(from as int, to as int),
            value == decimal(digits.take(i - first)),
            forall|n: int| 0 <= n < i - first ==> is_digit(#[trigger] digits[n]),
        decreases to - i,
    {
        let letter = text[i];
        assert(digits[i - first] == letter);
        if letter < '0' || letter > '9' {
            return None;
        }
        let digit: u64 = letter as u64 - '0' as u64;
        proof {
            assert(digits.take(i - first + 1).drop_last() =~= digits.take(i - first));
            assert(digits.take(i - first + 1).last() == letter);
            lemma_decimal_grows(digits, i - first + 1);
        }
        if value > u64::MAX / 10 || value * 10 > u64::MAX - digit {
            return None;
        }
        value = value * 10 + digit;
        i += 1;
    }
    assert(digits.take(to - first) =~= digits);
    Some(value)
}

/// The first place in `text[from..to]` where `part` stands, counted from the
/// start of the whole text; `to` where there is none.
pub fn find_part_within(text: &Vec<char>, from: usize, to: usize, part: &Vec<char>) -> (at: usize)
    requires
        from <= to <= text@.len(),
        part@.len() > 0,
    ensures
        from <= at <= to,
        at - from == find_part(text@.subrange(from as int, to as int), part@, 0),
        at < to ==> at + part@.len() <= to,
{
    let ghost window = text@.subrange(from as int, to as int);
    let mut at: usize = from;
    while at < to && part.len() <= to - at
        invariant
            from <= at <= to <= text@.len(),
            part@.len() > 0,
            window == text@.subrange(from as int, to as int),
            find_part(window, part@, 0) == find_part(window, part@, at - from),
        decreases to - at,
    {
        if stands_at(text, at, part) {
            assert(window.subrange(at - from, at - from + part@.len()) =~= part@);
            return at;
        }
        assert(window.subrange(at - from, at - from + part@.len()) =~= text@.subrange(
            at as int,
            at + part@.len(),
        ));
        at += 1;
    }
    to
}

/// Whether `part` stands in `text` at `at`.
pub fn stands_at(text: &Vec<char>, at: usize, part: &Vec<char>) -> (found: bool)
    requires
        at + part@.len() <= text@.len(),
    ensures
        found == (text@.subrange(at as int, at + part@.len()) == part@),
{
    let ghost here = text@.subrange(at as int, at + part@.len());
    let length = text.len();
    let mut i: usize = 0;
    while i < part.len()
        invariant
            i <= part@.len(),
            length == text@.len(),
            at + part@.len() <= length,
            here == text@.subrange(at as int, at + part@.len()),
            forall|n: int| 0 <= n < i ==> here[n] == part@[n],
        decreases part@.len() - i,
    {
        assert(here[i as int] == text@[at + i]);
        if text[at + i] != part[i] {
            return false;
        }
        i += 1;
    }
    assert(here =~= part@);
    true
}

/// The text that the bytes of a path stand for, where bytes that are not text
/// are replaced.
pub uninterp spec fn lossy_text(bytes: Seq<u8>) -> Seq<char>;

/// Calls `String::from_utf8_lossy` of the standard library. Its result is a
/// function of the bytes alone, named [`lossy_text`]; what it puts in place of
/// bytes that are not text is not stated.
#[verifier::external_body]
pub(crate) fn lossy_string(bytes: &[u8]) -> (text: String)
    ensures
        text@ == lossy_text(bytes@),
{
    String::from_utf8_lossy(bytes).into_owned()
}

/// The decimal digits of a number.
pub open spec fn digits_of(value: nat) -> Seq<u8>
    decreases value,
{
    if value < 10 {
        seq![(0x30 + value) as u8]
    } else {
        digits_of(value / 10).push((0x30 + value % 10) as u8)
    }
}

/// Writes a number in decimal.
pub fn decimal_bytes(value: u64) -> (digits: Vec<u8>)
    ensures
        digits@ == digits_of(value as nat),
    decreases value,
{
    if value < 10 {
        let digits = vec![0x30u8 + value as u8];
        assert(digits@ =~= digits_of(value as nat));
        return digits;
    }
    let mut digits = decimal_bytes(value / 10);
    digits.push(0x30u8 + (value % 10) as u8);
    digits
}

/// A digit as text.
pub open spec fn digit_text(digit: u64) -> Seq<char> {
    match digit {
        0 => "0"@,
        1 => "1"@,
        2 => "2"@,
        3 => "3"@,
        4 => "4"@,
        5 => "5"@,
        6 => "6"@,
        7 => "7"@,
        8 => "8"@,
        _ => "9"@,
    }
}

/// A number in decimal, as text.
pub open spec fn number_text(value: u64) -> Seq<char>
    decreases value,
{
    if value < 10 {
        digit_text(value)
    } else {
        number_text(value / 10) + digit_text(value % 10)
    }
}

/// Writes a number in decimal, as text.
pub fn decimal_text(value: u64) -> (text: String)
    ensures
        text@ == number_text(value),
    decreases value,
{
    let mut text = if value < 10 {
        String::new()
    } else {
        decimal_text(value / 10)
    };
    let digit = match value % 10 {
        0 => "0",
        1 => "1",
        2 => "2",
        3 => "3",
        4 => "4",
        5 => "5",
        6 => "6",
        7 => "7",
        8 => "8",
        _ => "9",
    };
    text.append(digit);
    assert(value < 10 ==> text@ =~= digit@);
    text
}

/// Words about a place.
pub fn words_at(words: &str, path: &Vec<u8>) -> (text: String)
    ensures
        text@ == words@ + lossy_text(path@),
{
    let mut text = words.to_owned();
    text.append(lossy_string(path.as_slice()).as_str());
    text
}

} // verus!
