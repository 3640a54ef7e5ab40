use vstd::prelude::*;

verus! {

/// Appends one character to a string.
///
/// Trusted: calls `String::push`, which std documents as appending the given
/// character to the end of the string.
#[verifier::external_body]
pub(crate) fn push_char(s: &mut String, c: char)
    ensures
        final(s)@ == old(s)@.push(c),
{
    s.push(c);
}


/// The character of a decimal digit.
pub open spec fn digit_char(d: nat) -> char {
    if d == 0 {
        '0'
    } else if d == 1 {
        '1'
    } else if d == 2 {
        '2'
    } else if d == 3 {
        '3'
    } else if d == 4 {
        '4'
    } else if d == 5 {
        '5'
    } else if d == 6 {
        '6'
    } else if d == 7 {
        '7'
    } else if d == 8 {
        '8'
    } else {
        '9'
    }
}

/// The decimal numeral of a natural number, without leading zeros.
pub open spec fn decimal_spec(n: nat) -> Seq<char>
    decreases n,
{
    if n < 10 {
        seq![digit_char(n)]
    } else {
        decimal_spec(n / 10).push(digit_char(n % 10))
    }
}

fn digit(d: u64) -> (c: char)
    requires
        d < 10,
    ensures
        c == digit_char(d as nat),
{
    match d {
        0 => '0',
        1 => '1',
        2 => '2',
        3 => '3',
        4 => '4',
        5 => '5',
        6 => '6',
        7 => '7',
        8 => '8',
        _ => '9',
    }
}

/// Appends the decimal numeral of `n`.
pub fn push_decimal(s: &mut String, n: u64)
    ensures
        final(s)@ == old(s)@ + decimal_spec(n as nat),
    decreases n,
{
    if n >= 10 {
        push_decimal(s, n / 10);
    }
    push_char(s, digit(n % 10));
}

/// The decimal numeral of `n`.
pub fn decimal(n: u64) -> (numeral: String)
    ensures
        numeral@ == decimal_spec(n as nat),
{
    let mut numeral = String::new();
    push_decimal(&mut numeral, n);
    numeral
}

/// Whether a character is white space in the sense of Unicode's `White_Space` property, the
/// set that `char::is_whitespace` tests.
pub open spec fn is_white_space(c: char) -> bool {
    ||| '\u{9}' <= c <= '\u{d}'
    ||| c == ' '
    ||| c == '\u{85}'
    ||| c == '\u{a0}'
    ||| c == '\u{1680}'
    ||| '\u{2000}' <= c <= '\u{200a}'
    ||| c == '\u{2028}'
    ||| c == '\u{2029}'
    ||| c == '\u{202f}'
    ||| c == '\u{205f}'
    ||| c == '\u{3000}'
}

/// A text is blank when it is empty after trimming white space: all of it is white space.
pub open spec fn blank_spec(s: Seq<char>) -> bool {
    forall|i: int| 0 <= i < s.len() ==> is_white_space(#[trigger] s[i])
}

/// Whether a character is Unicode white space.
pub fn white_space(c: char) -> (ws: bool)
    ensures
        ws == is_white_space(c),
{
    ('\u{9}' <= c && c <= '\u{d}') || c == ' ' || c == '\u{85}' || c == '\u{a0}' || c == '\u{1680}'
        || ('\u{2000}' <= c && c <= '\u{200a}') || c == '\u{2028}' || c == '\u{2029}' || c
        == '\u{202f}' || c == '\u{205f}' || c == '\u{3000}'
}

/// Whether a text is empty once surrounding white space is trimmed.
pub fn is_blank(text: &str) -> (blank: bool)
    ensures
        blank == blank_spec(text@),
{
    let ghost chars = text@;
    for c in iter: text.chars()
        invariant
            iter.seq() == chars,
            chars == text@,
            forall|i: int| 0 <= i < iter.index() ==> is_white_space(#[trigger] chars[i]),
    {
        if !white_space(c) {
            assert(!is_white_space(chars[iter.index() as int]));
            return false;
        }
    }
    true
}

/// Whether a character is an ASCII decimal digit.
pub open spec fn is_digit(c: char) -> bool {
    '0' <= c <= '9'
}

/// The value of a string of decimal digits.
pub open spec fn digits_value(s: Seq<char>) -> nat
    decreases s.len(),
{
    if s.len() == 0 {
        0
    } else {
        digits_value(s.drop_last()) * 10 + ((s.last() as u32) - ('0' as u32)) as nat
    }
}

/// Whether every character of a text is a decimal digit.
pub open spec fn all_digits(s: Seq<char>) -> bool {
    forall|i: int| 0 <= i < s.len() ==> is_digit(#[trigger] s[i])
}

/// A numeral without its leading `+`, if it has one.
pub open spec fn unsigned_body(s: Seq<char>) -> Seq<char> {
    if s.len() > 0 && s[0] == '+' {
        s.drop_first()
    } else {
        s
    }
}

/// The number that a text spells as an unsigned 64-bit integer: an optional `+`, then one or
/// more decimal digits whose value fits; `None` for any other text.
pub open spec fn u64_numeral(s: Seq<char>) -> Option<u64> {
    let body = unsigned_body(s);
    if body.len() > 0 && all_digits(body) && digits_value(body) <= u64::MAX {
        Some(digits_value(body) as u64)
    } else {
        None
    }
}

proof fn lemma_digits_value_grows(s: Seq<char>, t: Seq<char>)
    requires
        s.len() <= t.len(),
        s == t.take(s.len() as int),
        forall|i: int| 0 <= i < t.len() ==> is_digit(#[trigger] t[i]),
    ensures
        digits_value(s) <= digits_value(t),
    decreases t.len(),
{
    if s.len() < t.len() {
        assert(t.drop_last().take(s.len() as int) =~= s);
        lemma_digits_value_grows(s, t.drop_last());
    } else {
        assert(s =~= t);
    }
}

/// Reads an unsigned 64-bit integer written in decimal, as `str::parse::<u64>` does.
pub fn parse_u64(text: &str) -> (value: Option<u64>)
    ensures
        value == u64_numeral(text@),
{
    let mut chars: Vec<char> = Vec::new();
    for c in iter: text.chars()
        invariant
            iter.seq() == text@,
            chars@ == text@.take(iter.index() as int),
    {
        chars.push(c);
        assert(chars@ =~= text@.take(iter.index() + 1));
    }
    assert(chars@ =~= text@);
    let len = chars.len();
    let start: usize = if len > 0 && chars[0] == '+' {
        1
    } else {
        0
    };
    let ghost body = chars@.subrange(start as int, len as int);
    assert(body =~= unsigned_body(text@));
    if start == len {
        return None;
    }
    let mut value: u64 = 0;
    let mut i: usize = start;
    while i < len
        invariant
            start <= i <= len,
            start < len,
            len == chars@.len(),
            body == chars@.subrange(start as int, len as int),
            chars@ == text@,
            body == unsigned_body(text@),
            forall|k: int| 0 <= k < i - start ==> is_digit(#[trigger] body[k]),
            value == digits_value(body.take(i - start)),
        decreases len - i,
    {
        let c = chars[i];
        assert(body[i - start] == c);
        if !('0' <= c && c <= '9') {
            return None;
        }
        let digit = (c as u32 - '0' as u32) as u64;
        assert(body.take(i - start + 1).drop_last() =~= body.take(i - start));
        let times = value.checked_mul(10);
        let next = match times {
            Some(t) => t.checked_add(digit),
            None => None,
        };
        match next {
            Some(n) => {
                value = n;
            },
            None => {
                proof {
                    if all_digits(body) {
                        lemma_digits_value_grows(body.take(i - start + 1), body);
                    }
                }
                return None;
            },
        }
        i = i + 1;
    }
    assert(body.take(len - start) =~= body);
    Some(value)
}

} // verus!
