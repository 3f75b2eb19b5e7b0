//! Words and numbers as they appear in attribute values.

use vstd::prelude::*;

verus! {

/// `String::push`: appends a character to the end of the text.
pub assume_specification[ String::push ](s: &mut String, c: char)
    ensures
        final(s)@ == old(s)@.push(c),
;

/// `==` of std on two string slices: whether they hold the same characters.
#[verifier::external_body]
pub(crate) fn str_eq(a: &str, b: &str) -> (same: bool)
    ensures
        same == (a@ == b@),
{
    a == b
}

/// The characters of a text, one by one.
pub fn chars_of(text: &str) -> (chars: Vec<char>)
    ensures
        chars@ == text@,
{
    let mut chars: Vec<char> = Vec::new();
    for c in it: text.chars()
        invariant
            it.seq() == text@,
            chars@ == it.seq().take(it.index() as int),
    {
        chars.push(c);
        assert(it.seq().take(it.index() + 1) =~= it.seq().take(it.index() as int).push(c));
    }
    assert(text@.take(text@.len() as int) =~= text@);
    chars
}

/// A text made of the given characters.
pub fn text_of(chars: &Vec<char>) -> (text: String)
    ensures
        text@ == chars@,
{
    let mut text = String::new();
    let mut i: usize = 0;
    while i < chars.len()
        invariant
            i <= chars@.len(),
            text@ == chars@.take(i as int),
        decreases chars@.len() - i,
    {
        text.push(chars[i]);
        assert(chars@.take(i + 1) =~= chars@.take(i as int).push(chars@[i as int]));
        i = i + 1;
    }
    assert(chars@.take(chars@.len() as int) =~= chars@);
    text
}

/// The character of a decimal digit.
pub open spec fn digit_char(digit: nat) -> char {
    if digit == 0 {
        '0'
    } else if digit == 1 {
        '1'
    } else if digit == 2 {
        '2'
    } else if digit == 3 {
        '3'
    } else if digit == 4 {
        '4'
    } else if digit == 5 {
        '5'
    } else if digit == 6 {
        '6'
    } else if digit == 7 {
        '7'
    } else if digit == 8 {
        '8'
    } else {
        '9'
    }
}

/// A natural number in decimal, without leading zeros or grouping.
pub open spec fn decimal_nat(n: nat) -> Seq<char>
    decreases n,
{
    if n < 10 {
        seq![digit_char(n)]
    } else {
        decimal_nat(n / 10).push(digit_char(n % 10))
    }
}

/// An integer in decimal: a minus sign before a negative number, no sign
/// otherwise.
pub open spec fn decimal(n: int) -> Seq<char> {
    if n < 0 {
        seq!['-'] + decimal_nat((-n) as nat)
    } else {
        decimal_nat(n as nat)
    }
}

fn digit_of(digit: u64) -> (c: char)
    requires
        digit < 10,
    ensures
        c == digit_char(digit as nat),
{
    if digit == 0 {
        '0'
    } else if digit == 1 {
        '1'
    } else if digit == 2 {
        '2'
    } else if digit == 3 {
        '3'
    } else if digit == 4 {
        '4'
    } else if digit == 5 {
        '5'
    } else if digit == 6 {
        '6'
    } else if digit == 7 {
        '7'
    } else if digit == 8 {
        '8'
    } else {
        '9'
    }
}

/// Appends a number in decimal to a text.
pub fn push_decimal_u64(out: &mut String, n: u64)
    ensures
        final(out)@ == old(out)@ + decimal_nat(n as nat),
    decreases n,
{
    if n >= 10 {
        push_decimal_u64(out, n / 10);
    }
    out.push(digit_of(n % 10));
}

/// Appends an integer in decimal to a text.
pub fn push_decimal_i64(out: &mut String, n: i64)
    ensures
        final(out)@ == old(out)@ + decimal(n as int),
{
    if n < 0 {
        out.push('-');
        let magnitude: u64 = if n == i64::MIN {
            9223372036854775808u64
        } else {
            (-n) as u64
        };
        push_decimal_u64(out, magnitude);
    } else {
        push_decimal_u64(out, n as u64);
    }
}

/// A number in decimal.
pub fn decimal_u64(n: u64) -> (text: String)
    ensures
        text@ == decimal_nat(n as nat),
{
    let mut text = String::new();
    push_decimal_u64(&mut text, n);
    text
}

/// An integer in decimal.
pub fn decimal_i64(n: i64) -> (text: String)
    ensures
        text@ == decimal(n as int),
{
    let mut text = String::new();
    push_decimal_i64(&mut text, n);
    text
}

/// The value of a decimal digit; nothing for any other character.
pub open spec fn digit_value(c: char) -> Option<nat> {
    if c == '0' {
        Some(0)
    } else if c == '1' {
        Some(1)
    } else if c == '2' {
        Some(2)
    } else if c == '3' {
        Some(3)
    } else if c == '4' {
        Some(4)
    } else if c == '5' {
        Some(5)
    } else if c == '6' {
        Some(6)
    } else if c == '7' {
        Some(7)
    } else if c == '8' {
        Some(8)
    } else if c == '9' {
        Some(9)
    } else {
        None
    }
}

/// The number that a text of one or more decimal digits stands for; nothing
/// for any other text.
pub open spec fn digits_value(text: Seq<char>) -> Option<nat>
    decreases text.len(),
{
    if text.len() == 0 {
        None
    } else if text.len() == 1 {
        digit_value(text[0])
    } else {
        match (digits_value(text.drop_last()), digit_value(text.last())) {
            (Some(high), Some(low)) => Some(high * 10 + low),
            _ => None,
        }
    }
}

/// The integer that a text stands for: decimal digits, with a minus sign in
/// front for a negative number.
pub open spec fn integer_value(text: Seq<char>) -> Option<int> {
    if text.len() > 0 && text[0] == '-' {
        match digits_value(text.drop_first()) {
            Some(magnitude) => Some(-(magnitude as int)),
            None => None,
        }
    } else {
        match digits_value(text) {
            Some(value) => Some(value as int),
            None => None,
        }
    }
}

/// A number written in decimal and read back is the number.
pub proof fn lemma_decimal_nat_read(n: nat)
    ensures
        digits_value(decimal_nat(n)) == Some(n),
        decimal_nat(n).len() >= 1,
    decreases n,
{
    if n >= 10 {
        lemma_decimal_nat_read(n / 10);
        let text = decimal_nat(n);
        assert(text.drop_last() =~= decimal_nat(n / 10));
        assert(text.last() == digit_char(n % 10));
        assert(digit_value(digit_char(n % 10)) == Some(n % 10));
        if text.len() == 1 {
            assert(decimal_nat(n / 10).len() == 0);
        }
    } else {
        assert(digit_value(digit_char(n)) == Some(n));
    }
}

/// The first character of a number written in decimal is a digit.
pub proof fn lemma_decimal_nat_first(n: nat)
    ensures
        decimal_nat(n).len() >= 1,
        decimal_nat(n)[0] != '-',
    decreases n,
{
    if n >= 10 {
        lemma_decimal_nat_first(n / 10);
    }
}

/// An integer written in decimal and read back is the integer.
pub proof fn lemma_decimal_read(n: int)
    ensures
        integer_value(decimal(n)) == Some(n),
{
    if n < 0 {
        lemma_decimal_nat_read((-n) as nat);
        assert(decimal(n).drop_first() =~= decimal_nat((-n) as nat));
    } else {
        lemma_decimal_nat_read(n as nat);
        lemma_decimal_nat_first(n as nat);
    }
}

/// The digits read so far never stand for more than the whole text does.
proof fn lemma_digits_prefix(text: Seq<char>, count: int)
    requires
        1 <= count <= text.len(),
        digits_value(text) is Some,
    ensures
        digits_value(text.take(count)) is Some,
        digits_value(text.take(count))->0 <= digits_value(text)->0,
    decreases text.len(),
{
    if count == text.len() {
        assert(text.take(count) =~= text);
    } else {
        assert(text.drop_last().take(count) =~= text.take(count));
        lemma_digits_prefix(text.drop_last(), count);
    }
}

fn value_of_digit(c: char) -> (value: Option<u64>)
    ensures
        match value {
            Some(v) => digit_value(c) == Some(v as nat),
            None => digit_value(c) is None,
        },
{
    if c == '0' {
        Some(0)
    } else if c == '1' {
        Some(1)
    } else if c == '2' {
        Some(2)
    } else if c == '3' {
        Some(3)
    } else if c == '4' {
        Some(4)
    } else if c == '5' {
        Some(5)
    } else if c == '6' {
        Some(6)
    } else if c == '7' {
        Some(7)
    } else if c == '8' {
        Some(8)
    } else if c == '9' {
        Some(9)
    } else {
        None
    }
}

/// Reads the digits `chars[from..]` as a number that fits 64 bits.
fn parse_digits(chars: &Vec<char>, from: usize) -> (value: Option<u64>)
    requires
        from <= chars@.len(),
    ensures
        match value {
            Some(v) => digits_value(chars@.skip(from as int)) == Some(v as nat),
            None => match digits_value(chars@.skip(from as int)) {
                Some(v) => v > u64::MAX,
                None => true,
            },
        },
{
    let ghost text = chars@.skip(from as int);
    if from == chars.len() {
        return None;
    }
    let mut acc: u64 = 0;
    let mut i: usize = from;
    while i < chars.len()
        invariant
            from <= i <= chars@.len(),
            from < chars@.len(),
            text == chars@.skip(from as int),
            i > from ==> digits_value(text.take(i - from)) == Some(acc as nat),
            i == from ==> acc == 0,
        decreases chars@.len() - i,
    {
        let ghost before = text.take(i - from);
        let ghost now = text.take(i + 1 - from);
        proof {
            assert(now.drop_last() =~= before);
            assert(now.last() == chars@[i as int]);
        }
        match value_of_digit(chars[i]) {
            None => {
                proof {
                    assert(digits_value(now) is None);
                    if digits_value(text) is Some {
                        lemma_digits_prefix(text, i + 1 - from);
                    }
                }
                return None;
            },
            Some(d) => {
                if acc > (u64::MAX - d) / 10 {
                    proof {
                        assert(acc * 10 + d > u64::MAX);
                        assert(digits_value(now) == Some((acc * 10 + d) as nat));
                        if digits_value(text) is Some {
                            lemma_digits_prefix(text, i + 1 - from);
                        }
                    }
                    return None;
                }
                acc = acc * 10 + d;
            },
        }
        i = i + 1;
    }
    proof {
        assert(text.take(text.len() as int) =~= text);
    }
    Some(acc)
}

/// Reads a text of decimal digits as a number that fits 64 bits.
pub fn parse_u64(text: &str) -> (value: Option<u64>)
    ensures
        match value {
            Some(v) => digits_value(text@) == Some(v as nat),
            None => match digits_value(text@) {
                Some(v) => v > u64::MAX,
                None => true,
            },
        },
{
    let chars = chars_of(text);
    assert(chars@.skip(0) =~= text@);
    parse_digits(&chars, 0)
}

/// Reads a text as an integer that fits 64 bits.
pub fn parse_i64(text: &str) -> (value: Option<i64>)
    ensures
        match value {
            Some(v) => integer_value(text@) == Some(v as int),
            None => match integer_value(text@) {
                Some(v) => v < i64::MIN || v > i64::MAX,
                None => true,
            },
        },
{
    let chars = chars_of(text);
    if chars.len() > 0 && chars[0] == '-' {
        assert(chars@.skip(1) =~= text@.drop_first());
        match parse_digits(&chars, 1) {
            Some(magnitude) => {
                if magnitude > 9223372036854775808u64 {
                    None
                } else if magnitude == 9223372036854775808u64 {
                    Some(i64::MIN)
                } else {
                    Some(-(magnitude as i64))
                }
            },
            None => None,
        }
    } else {
        assert(chars@.skip(0) =~= text@);
        match parse_digits(&chars, 0) {
            Some(value) => {
                if value > 9223372036854775807u64 {
                    None
                } else {
                    Some(value as i64)
                }
            },
            None => None,
        }
    }
}

/// Reads a text as an integer that fits the machine's word.
pub fn parse_isize(text: &str) -> (value: Option<isize>)
    ensures
        match value {
            Some(v) => integer_value(text@) == Some(v as int),
            None => match integer_value(text@) {
                Some(v) => v < isize::MIN || v > isize::MAX,
                None => true,
            },
        },
{
    match parse_i64(text) {
        Some(v) => {
            if v >= isize::MIN as i64 && v <= isize::MAX as i64 {
                Some(v as isize)
            } else {
                None
            }
        },
        None => None,
    }
}

/// The boolean that a text stands for: `1` and `true` for true, `0` and
/// `false` for false, nothing for any other text.
pub open spec fn bool_value(text: Seq<char>) -> Option<bool> {
    if text == seq!['1'] || text == seq!['t', 'r', 'u', 'e'] {
        Some(true)
    } else if text == seq!['0'] || text == seq!['f', 'a', 'l', 's', 'e'] {
        Some(false)
    } else {
        None
    }
}

/// Reads a boolean attribute value, in the digit or the word form.
pub fn parse_bool(text: &str) -> (value: Option<bool>)
    ensures
        value == bool_value(text@),
{
    proof {
        reveal_strlit("1");
        reveal_strlit("0");
        reveal_strlit("true");
        reveal_strlit("false");
        assert("1"@ =~= seq!['1']);
        assert("0"@ =~= seq!['0']);
        assert("true"@ =~= seq!['t', 'r', 'u', 'e']);
        assert("false"@ =~= seq!['f', 'a', 'l', 's', 'e']);
    }
    if str_eq(text, "1") || str_eq(text, "true") {
        Some(true)
    } else if str_eq(text, "0") || str_eq(text, "false") {
        Some(false)
    } else {
        None
    }
}

/// The literal of a boolean attribute: `1` for true, `0` for false.
pub open spec fn bool_literal(value: bool) -> Seq<char> {
    if value {
        seq!['1']
    } else {
        seq!['0']
    }
}

/// The literal that a boolean attribute is written with: `"1"` or `"0"`,
/// never a word.
pub fn serialize_bool_ooxml(value: bool) -> (literal: &'static str)
    ensures
        literal@ == bool_literal(value),
{
    proof {
        reveal_strlit("1");
        reveal_strlit("0");
    }
    if value {
        "1"
    } else {
        "0"
    }
}

/// As [`serialize_bool_ooxml`], by cases on the value.
pub fn serialize_bool_ooxml_explicit(value: bool) -> (literal: &'static str)
    ensures
        literal@ == bool_literal(value),
{
    proof {
        reveal_strlit("1");
        reveal_strlit("0");
    }
    match value {
        true => "1",
        false => "0",
    }
}

} // verus!
