//! Characters, fields and decimal numbers: the small grammar that the
//! configuration and the labels are written in.

use vstd::prelude::*;
use vstd::string::StringExecFns;

verus! {

/// Position of the first `sep` in `text`, or the length of `text` when it
/// holds none.
pub open spec fn find(text: Seq<char>, sep: char) -> int
    decreases text.len(),
{
    if text.len() == 0 || text[0] == sep {
        0
    } else {
        1 + find(text.drop_first(), sep)
    }
}

/// The part of `text` before its first `sep`; all of it when it holds none.
pub open spec fn first_field(text: Seq<char>, sep: char) -> Seq<char> {
    text.take(find(text, sep))
}

/// `find` is the only position that is preceded by no separator and is
/// itself a separator or the end.
pub proof fn lemma_find(text: Seq<char>, sep: char, position: int)
    requires
        0 <= position <= text.len(),
        forall|j: int| 0 <= j < position ==> text[j] != sep,
        position == text.len() || text[position] == sep,
    ensures
        find(text, sep) == position,
    decreases text.len(),
{
    if text.len() > 0 && text[0] != sep {
        lemma_find(text.drop_first(), sep, position - 1);
    }
}

/// What `find` gives lies within the text, is preceded by no separator, and
/// is a separator unless it is the end.
pub proof fn law_find_is_first(text: Seq<char>, sep: char)
    ensures
        0 <= find(text, sep) <= text.len(),
        find(text, sep) < text.len() ==> text[find(text, sep)] == sep,
        forall|j: int| 0 <= j < find(text, sep) ==> text[j] != sep,
    decreases text.len(),
{
    if text.len() > 0 && text[0] != sep {
        let rest = text.drop_first();
        law_find_is_first(rest, sep);
        assert forall|j: int| 0 <= j < find(text, sep) implies text[j] != sep by {
            if j > 0 {
                assert(rest[j - 1] == text[j]);
            }
        }
    }
}

/// The characters of a string, one by one.
pub fn chars_of(text: &str) -> (chars: Vec<char>)
    ensures
        chars@ == text@,
{
    let mut chars: Vec<char> = Vec::new();
    for c in iter: text.chars()
        invariant
            iter.seq() == text@,
            chars@ == text@.take(iter.index()),
    {
        chars.push(c);
    }
    chars
}

/// Finds the first `sep` among `chars[from..to]`; gives `to` when there is
/// none.
pub fn find_in(chars: &Vec<char>, from: usize, to: usize, sep: char) -> (position: usize)
    requires
        from <= to <= chars@.len(),
    ensures
        from <= position <= to,
        position - from == find(chars@.subrange(from as int, to as int), sep),
{
    let mut position: usize = from;
    while position < to && chars[position] != sep
        invariant
            from <= position <= to <= chars@.len(),
            forall|j: int| from <= j < position ==> chars@[j] != sep,
        decreases to - position,
    {
        position = position + 1;
    }
    proof {
        lemma_find(chars@.subrange(from as int, to as int), sep, position - from);
    }
    position
}

/// Whether `c` is one of `0`..`9`.
pub open spec fn is_digit(c: char) -> bool {
    '0' <= c && c <= '9'
}

/// The number that a decimal digit stands for.
pub open spec fn digit_value(c: char) -> nat {
    (c as u32 - '0' as u32) as nat
}

/// Whether every character is a decimal digit.
pub open spec fn all_digits(digits: Seq<char>) -> bool {
    forall|i: int| 0 <= i < digits.len() ==> is_digit(#[trigger] digits[i])
}

/// The number that a sequence of decimal digits writes, most significant
/// digit first.
pub open spec fn decimal_value(digits: Seq<char>) -> nat
    decreases digits.len(),
{
    if digits.len() == 0 {
        0
    } else {
        decimal_value(digits.drop_last()) * 10 + digit_value(digits.last())
    }
}

/// `text` without one leading `+`, if it has one.
pub open spec fn unsigned_body(text: Seq<char>) -> Seq<char> {
    if text.len() > 0 && text[0] == '+' {
        text.skip(1)
    } else {
        text
    }
}

/// The 32-bit number that `text` writes in decimal, if it writes one: an
/// optional `+`, then at least one digit and nothing but digits, with a value
/// of at most `u32::MAX`. Leading zeros are accepted; blanks, a `-`, an empty
/// text or a lone sign are not.
pub open spec fn parse_u32(text: Seq<char>) -> Option<u32> {
    let body = unsigned_body(text);
    if body.len() > 0 && all_digits(body) && decimal_value(body) <= u32::MAX {
        Some(decimal_value(body) as u32)
    } else {
        None
    }
}

/// A number never gets smaller when digits are written behind it.
proof fn lemma_decimal_value_grows(digits: Seq<char>, shorter: int)
    requires
        0 <= shorter <= digits.len(),
    ensures
        decimal_value(digits.take(shorter)) <= decimal_value(digits),
    decreases digits.len(),
{
    if shorter == digits.len() {
        assert(digits.take(shorter) =~= digits);
    } else {
        assert(digits.drop_last().take(shorter) =~= digits.take(shorter));
        lemma_decimal_value_grows(digits.drop_last(), shorter);
    }
}

/// Reads `chars[from..to]` as a decimal 32-bit number.
pub fn parse_decimal(chars: &Vec<char>, from: usize, to: usize) -> (number: Option<u32>)
    requires
        from <= to <= chars@.len(),
    ensures
        number == parse_u32(chars@.subrange(from as int, to as int)),
{
    let start: usize = if from < to && chars[from] == '+' {
        from + 1
    } else {
        from
    };
    let ghost body = chars@.subrange(start as int, to as int);
    if start == to {
        return None;
    }
    let mut value: u64 = 0;
    let mut position: usize = start;
    while position < to
        invariant
            from <= start <= position <= to <= chars@.len(),
            start < to,
            body == chars@.subrange(start as int, to as int),
            body == unsigned_body(chars@.subrange(from as int, to as int)),
            all_digits(body.take(position - start)),
            value == decimal_value(body.take(position - start)),
            value <= u32::MAX,
        decreases to - position,
    {
        let c: char = chars[position];
        let ghost seen = body.take(position - start + 1);
        assert(seen.drop_last() =~= body.take(position - start));
        assert(seen.last() == c);
        if !(c >= '0' && c <= '9') {
            return None;
        }
        let digit: u64 = (c as u32 - '0' as u32) as u64;
        value = value * 10 + digit;
        if value > u32::MAX as u64 {
            proof {
                lemma_decimal_value_grows(body, position - start + 1);
            }
            return None;
        }
        assert(all_digits(seen));
        position = position + 1;
    }
    assert(body.take(to - start) =~= body);
    Some(value as u32)
}

/// The character that writes a digit.
pub open spec fn digit_char(digit: nat) -> char {
    if digit == 0 {
        '0'
    } else if digit == 1 {
        '1'
    } else if digit == 2 {
        '2'
    } else if digit == 3 {
        '3'
    } else if digit == 4 {
        '4'
    } else if digit == 5 {
        '5'
    } else if digit == 6 {
        '6'
    } else if digit == 7 {
        '7'
    } else if digit == 8 {
        '8'
    } else {
        '9'
    }
}

/// A number written in decimal, without sign or leading zeros.
pub open spec fn decimal_text(number: nat) -> Seq<char>
    decreases number,
{
    if number < 10 {
        seq![digit_char(number)]
    } else {
        decimal_text(number / 10).push(digit_char(number % 10))
    }
}

/// The one-character text of a digit.
fn digit_text(digit: u32) -> (text: &'static str)
    requires
        digit < 10,
    ensures
        text@ == seq![digit_char(digit as nat)],
{
    proof {
        reveal_strlit("0");
        reveal_strlit("1");
        reveal_strlit("2");
        reveal_strlit("3");
        reveal_strlit("4");
        reveal_strlit("5");
        reveal_strlit("6");
        reveal_strlit("7");
        reveal_strlit("8");
        reveal_strlit("9");
    }
    let text: &'static str = if digit == 0 {
        "0"
    } else if digit == 1 {
        "1"
    } else if digit == 2 {
        "2"
    } else if digit == 3 {
        "3"
    } else if digit == 4 {
        "4"
    } else if digit == 5 {
        "5"
    } else if digit == 6 {
        "6"
    } else if digit == 7 {
        "7"
    } else if digit == 8 {
        "8"
    } else {
        "9"
    };
    text
}

/// Writes a number in decimal.
pub fn render_decimal(number: u32) -> (text: String)
    ensures
        text@ == decimal_text(number as nat),
    decreases number,
{
    if number < 10 {
        String::from_str(digit_text(number))
    } else {
        let text = render_decimal(number / 10).concat(digit_text(number % 10));
        text
    }
}

/// What is written can be read back: the decimal text of a 32-bit number
/// parses to that number.
pub proof fn law_decimal_round_trip(number: u32)
    ensures
        parse_u32(decimal_text(number as nat)) == Some(number),
{
    lemma_decimal_text(number as nat);
    assert(decimal_text(number as nat)[0] != '+');
}

/// The decimal text of a number is made of digits and writes that number.
proof fn lemma_decimal_text(number: nat)
    ensures
        decimal_text(number).len() >= 1,
        all_digits(decimal_text(number)),
        decimal_value(decimal_text(number)) == number,
    decreases number,
{
    let text = decimal_text(number);
    if number < 10 {
        assert(decimal_value(text.drop_last()) == 0);
    } else {
        lemma_decimal_text(number / 10);
        assert(text.drop_last() =~= decimal_text(number / 10));
        assert(all_digits(text));
    }
}

} // verus!
