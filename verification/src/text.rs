//! Text: splitting at whitespace, and decimal numbers read and written.

use vstd::prelude::*;

verus! {

// ---- whitespace ----

/// Whether a character is white space: the characters to which Unicode
/// gives the property `White_Space`.
pub open spec fn is_whitespace(c: char) -> bool {
    let code = c as u32;
    ||| 0x09 <= code <= 0x0D
    ||| code == 0x20
    ||| code == 0x85
    ||| code == 0xA0
    ||| code == 0x1680
    ||| 0x2000 <= code <= 0x200A
    ||| code == 0x2028
    ||| code == 0x2029
    ||| code == 0x202F
    ||| code == 0x205F
    ||| code == 0x3000
}

/// Decides whether a character is white space.
pub fn char_is_whitespace(c: char) -> (white: bool)
    ensures
        white == is_whitespace(c),
{
    let code: u32 = c as u32;
    (0x09 <= code && code <= 0x0D) || code == 0x20 || code == 0x85 || code == 0xA0 || code
        == 0x1680 || (0x2000 <= code && code <= 0x200A) || code == 0x2028 || code == 0x2029
        || code == 0x202F || code == 0x205F || code == 0x3000
}

/// The end of the run of characters that are not white space and start at
/// `from`: the place of the first white space from `from` on, or the length
/// of the text.
pub open spec fn word_end(text: Seq<char>, from: int) -> int
    decreases text.len() - from,
{
    if from < 0 || from >= text.len() || is_whitespace(text[from]) {
        from
    } else {
        word_end(text, from + 1)
    }
}

/// A word ends no earlier than it starts and no later than the text.
pub proof fn lemma_word_end_bounds(text: Seq<char>, from: int)
    requires
        0 <= from <= text.len(),
    ensures
        from <= word_end(text, from) <= text.len(),
        from < text.len() && !is_whitespace(text[from]) ==> from < word_end(text, from),
        forall|i: int| from <= i < word_end(text, from) ==> !is_whitespace(#[trigger] text[i]),
        word_end(text, from) < text.len() ==> is_whitespace(text[word_end(text, from)]),
    decreases text.len() - from,
{
    if from < text.len() && !is_whitespace(text[from]) {
        lemma_word_end_bounds(text, from + 1);
    }
}

/// The words of a text from the place `from` on: its maximal runs of
/// characters that are not white space, in order.
pub open spec fn words_from(text: Seq<char>, from: int) -> Seq<Seq<char>>
    decreases text.len() - from,
{
    if from < 0 || from >= text.len() {
        Seq::empty()
    } else if is_whitespace(text[from]) {
        words_from(text, from + 1)
    } else {
        proof {
            lemma_word_end_bounds(text, from);
        }
        seq![text.subrange(from, word_end(text, from))] + words_from(text, word_end(text, from))
    }
}

/// The words of a text: its maximal runs of characters that are not white
/// space, in order. A text of white space only has no words.
pub open spec fn words(text: Seq<char>) -> Seq<Seq<char>> {
    words_from(text, 0)
}

/// The views of the strings of a list, in order.
pub open spec fn texts(strings: Seq<String>) -> Seq<Seq<char>> {
    Seq::new(strings.len(), |i: int| strings[i]@)
}

/// Splits a text at white space.
pub fn split_whitespace(text: &str) -> (parts: Vec<String>)
    ensures
        texts(parts@) == words(text@),
{
    let length: usize = text.unicode_len();
    let mut parts: Vec<String> = Vec::new();
    let mut at: usize = 0;
    assert(texts(parts@) =~= Seq::<Seq<char>>::empty());
    while at < length
        invariant
            at <= length,
            length == text@.len(),
            texts(parts@) + words_from(text@, at as int) == words(text@),
        decreases length - at,
    {
        if char_is_whitespace(text.get_char(at)) {
            at += 1;
        } else {
            let start: usize = at;
            proof {
                lemma_word_end_bounds(text@, start as int);
            }
            while at < length && !char_is_whitespace(text.get_char(at))
                invariant
                    start <= at <= length,
                    length == text@.len(),
                    word_end(text@, at as int) == word_end(text@, start as int),
                decreases length - at,
            {
                at += 1;
            }
            let word = String::from_str(text.substring_char(start, at));
            let ghost before = texts(parts@);
            parts.push(word);
            assert(texts(parts@) =~= before.push(text@.subrange(start as int, at as int)));
            assert(before.push(text@.subrange(start as int, at as int)) + words_from(
                text@,
                at as int,
            ) =~= before + words_from(text@, start as int));
        }
    }
    assert(words_from(text@, at as int) =~= Seq::<Seq<char>>::empty());
    assert(texts(parts@) + Seq::<Seq<char>>::empty() =~= texts(parts@));
    parts
}

// ---- decimal numbers, written ----

/// The character of a decimal digit.
pub open spec fn digit_char(digit: int) -> char {
    if digit == 0 {
        '0'
    } else if digit == 1 {
        '1'
    } else if digit == 2 {
        '2'
    } else if digit == 3 {
        '3'
    } else if digit == 4 {
        '4'
    } else if digit == 5 {
        '5'
    } else if digit == 6 {
        '6'
    } else if digit == 7 {
        '7'
    } else if digit == 8 {
        '8'
    } else {
        '9'
    }
}

/// The decimal digits of a natural number, without leading zeros.
pub open spec fn decimal_digits(n: nat) -> Seq<char>
    decreases n,
{
    if n < 10 {
        seq![digit_char(n as int)]
    } else {
        decimal_digits(n / 10).push(digit_char((n % 10) as int))
    }
}

/// An integer in decimal: a minus sign before a negative number, then the
/// digits of its magnitude.
pub open spec fn decimal(n: int) -> Seq<char> {
    if n < 0 {
        seq!['-'] + decimal_digits((-n) as nat)
    } else {
        decimal_digits(n as nat)
    }
}

fn digit_text(digit: u8) -> (text: &'static str)
    requires
        digit < 10,
    ensures
        text@ == seq![digit_char(digit as int)],
{
    proof {
        reveal_strlit("0");
        reveal_strlit("1");
        reveal_strlit("2");
        reveal_strlit("3");
        reveal_strlit("4");
        reveal_strlit("5");
        reveal_strlit("6");
        reveal_strlit("7");
        reveal_strlit("8");
        reveal_strlit("9");
    }
    let text = if digit == 0 {
        "0"
    } else if digit == 1 {
        "1"
    } else if digit == 2 {
        "2"
    } else if digit == 3 {
        "3"
    } else if digit == 4 {
        "4"
    } else if digit == 5 {
        "5"
    } else if digit == 6 {
        "6"
    } else if digit == 7 {
        "7"
    } else if digit == 8 {
        "8"
    } else {
        "9"
    };
    assert(text@ =~= seq![digit_char(digit as int)]);
    text
}

/// The characters of a list of digits that runs from the lowest digit up,
/// highest digit first.
pub open spec fn high_first(low_first: Seq<u8>) -> Seq<char> {
    Seq::new(low_first.len(), |i: int| digit_char(low_first[low_first.len() - 1 - i] as int))
}

/// Appends a natural number in decimal to a text.
pub fn append_decimal_digits(text: &mut String, n: u64)
    ensures
        final(text)@ == old(text)@ + decimal_digits(n as nat),
{
    let mut rest: u64 = n;
    let mut low_first: Vec<u8> = Vec::new();
    assert(decimal_digits(rest as nat) + high_first(low_first@) =~= decimal_digits(n as nat));
    while rest >= 10
        invariant
            decimal_digits(rest as nat) + high_first(low_first@) == decimal_digits(n as nat),
            forall|i: int| 0 <= i < low_first@.len() ==> low_first@[i] < 10,
        decreases rest,
    {
        let digit: u8 = (rest % 10) as u8;
        let ghost before = low_first@;
        low_first.push(digit);
        assert(decimal_digits((rest / 10) as nat) + high_first(low_first@) =~= decimal_digits(
            rest as nat,
        ) + high_first(before));
        rest = rest / 10;
    }
    let ghost start = text@;
    text.append(digit_text(rest as u8));
    let mut left: usize = low_first.len();
    while left > 0
        invariant
            left <= low_first@.len(),
            forall|i: int| 0 <= i < low_first@.len() ==> low_first@[i] < 10,
            text@ == start + decimal_digits(rest as nat) + high_first(low_first@).subrange(
                0,
                low_first@.len() - left,
            ),
        decreases left,
    {
        let ghost before = text@;
        left -= 1;
        text.append(digit_text(low_first[left]));
        assert(text@ =~= start + decimal_digits(rest as nat) + high_first(low_first@).subrange(
            0,
            low_first@.len() - left,
        ));
    }
    assert(text@ =~= start + (decimal_digits(rest as nat) + high_first(low_first@)));
}

/// Appends an integer in decimal to a text.
pub fn append_decimal(text: &mut String, n: i64)
    ensures
        final(text)@ == old(text)@ + decimal(n as int),
{
    let ghost start = text@;
    if n < 0 {
        proof {
            reveal_strlit("-");
        }
        text.append("-");
        let magnitude: u64 = ((-(n + 1)) as u64) + 1;
        append_decimal_digits(text, magnitude);
        assert(text@ =~= start + decimal(n as int));
    } else {
        append_decimal_digits(text, n as u64);
    }
}

// ---- decimal numbers, read ----

/// Whether a character is one of the digits 0 to 9.
pub open spec fn is_digit(c: char) -> bool {
    0x30 <= c as u32 <= 0x39
}

/// The number that a digit stands for.
pub open spec fn digit_value(c: char) -> int {
    c as u32 - 0x30
}

/// The number that a sequence of digits stands for.
pub open spec fn decimal_value(digits: Seq<char>) -> int
    decreases digits.len(),
{
    if digits.len() == 0 {
        0
    } else {
        decimal_value(digits.drop_last()) * 10 + digit_value(digits.last())
    }
}

/// Whether every character is a digit.
pub open spec fn all_digits(digits: Seq<char>) -> bool {
    forall|i: int| 0 <= i < digits.len() ==> is_digit(#[trigger] digits[i])
}

/// The digits of a text that may start with a plus sign.
pub open spec fn unsigned_part(text: Seq<char>) -> Seq<char> {
    if text.len() > 0 && text[0] == '+' {
        text.drop_first()
    } else {
        text
    }
}

/// The number that a text stands for as a `u64`: an optional plus sign,
/// then at least one digit and nothing else, and a value that fits.
pub open spec fn parsed_u64(text: Seq<char>) -> Option<u64> {
    let digits = unsigned_part(text);
    if digits.len() > 0 && all_digits(digits) && decimal_value(digits) <= u64::MAX {
        Some(decimal_value(digits) as u64)
    } else {
        None
    }
}

/// A sequence of digits stands for no less than any of its prefixes.
pub proof fn lemma_decimal_value_grows(digits: Seq<char>, upto: int)
    requires
        all_digits(digits),
        0 <= upto <= digits.len(),
    ensures
        0 <= decimal_value(digits.subrange(0, upto)) <= decimal_value(digits),
    decreases digits.len(),
{
    if digits.len() == 0 {
        assert(digits.subrange(0, upto) =~= digits);
    } else if upto == digits.len() {
        assert(digits.subrange(0, upto) =~= digits);
        lemma_decimal_value_grows(digits.drop_last(), upto - 1);
        assert(is_digit(digits[digits.len() - 1]));
    } else {
        let shorter = digits.drop_last();
        assert(shorter.subrange(0, upto) =~= digits.subrange(0, upto));
        assert forall|i: int| 0 <= i < shorter.len() implies is_digit(#[trigger] shorter[i]) by {
            assert(shorter[i] == digits[i]);
        }
        lemma_decimal_value_grows(shorter, upto);
        assert(is_digit(digits[digits.len() - 1]));
    }
}

/// Reads a `u64` from a text in decimal.
pub fn parse_u64(text: &str) -> (number: Option<u64>)
    ensures
        number == parsed_u64(text@),
{
    let length: usize = text.unicode_len();
    let first: usize = if length > 0 && text.get_char(0) == '+' {
        1
    } else {
        0
    };
    let ghost digits = unsigned_part(text@);
    assert(digits =~= text@.subrange(first as int, length as int));
    if first == length {
        return None;
    }
    let mut value: u64 = 0;
    let mut at: usize = first;
    assert(digits.subrange(0, 0) =~= Seq::<char>::empty());
    while at < length
        invariant
            first <= at <= length,
            length == text@.len(),
            digits == unsigned_part(text@),
            digits == text@.subrange(first as int, length as int),
            all_digits(digits.subrange(0, at - first)),
            value == decimal_value(digits.subrange(0, at - first)),
        decreases length - at,
    {
        let code: u32 = text.get_char(at) as u32;
        let ghost seen = digits.subrange(0, at - first);
        let ghost next = digits.subrange(0, at - first + 1);
        assert(next.drop_last() =~= seen);
        assert(next.last() == text@[at as int]);
        if code < 0x30 || code > 0x39 {
            assert(digits[at - first] == text@[at as int]);
            assert(!is_digit(digits[at - first]));
            assert(!all_digits(digits));
            return None;
        }
        assert(all_digits(next)) by {
            assert forall|i: int| 0 <= i < next.len() implies is_digit(#[trigger] next[i]) by {
                if i < seen.len() {
                    assert(next[i] == seen[i]);
                }
            }
        }
        let digit: u64 = (code - 0x30) as u64;
        let grown: Option<u64> = match value.checked_mul(10) {
            Some(tenfold) => tenfold.checked_add(digit),
            None => None,
        };
        match grown {
            Some(sum) => {
                value = sum;
            },
            None => {
                proof {
                    assert(digit_value(next.last()) == digit);
                    assert(decimal_value(next) == value * 10 + digit);
                    assert(decimal_value(next) > u64::MAX);
                    if all_digits(digits) {
                        lemma_decimal_value_grows(digits, at - first + 1);
                    }
                    assert(!(all_digits(digits) && decimal_value(digits) <= u64::MAX));
                }
                return None;
            },
        }
        at += 1;
    }
    assert(digits.subrange(0, at - first) =~= digits);
    Some(value)
}

} // verus!
