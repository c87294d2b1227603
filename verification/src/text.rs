//! Numbers and bytes as text.

use vstd::prelude::*;
use vstd::utf8::{decode_utf8, valid_utf8};

verus! {

/// The character of a digit below sixteen.
pub open spec fn digit_char(d: nat) -> char {
    if d < 10 {
        ('0' as nat + d) as char
    } else {
        ('a' as nat + (d - 10)) as char
    }
}

/// A number in decimal, without leading zeros.
pub open spec fn decimal(n: nat) -> Seq<char>
    decreases n,
{
    if n < 10 {
        seq![digit_char(n)]
    } else {
        decimal(n / 10).push(digit_char(n % 10))
    }
}

/// Bytes in lowercase hexadecimal, two digits for each.
pub open spec fn hexadecimal(data: Seq<u8>) -> Seq<char>
    decreases data.len(),
{
    if data.len() == 0 {
        Seq::empty()
    } else {
        hexadecimal(data.drop_last()).push(digit_char(data.last() as nat / 16)).push(
            digit_char(data.last() as nat % 16),
        )
    }
}

/// The value of a digit in a base of at most thirty-six, whichever its case.
pub open spec fn digit_value(c: char, radix: nat) -> Option<nat> {
    let v = if '0' <= c <= '9' {
        (c as nat - '0' as nat) as nat
    } else if 'a' <= c <= 'z' {
        (c as nat - 'a' as nat + 10) as nat
    } else if 'A' <= c <= 'Z' {
        (c as nat - 'A' as nat + 10) as nat
    } else {
        radix
    };
    if v < radix {
        Some(v)
    } else {
        None
    }
}

/// The value of a row of digits, most significant first.
pub open spec fn digits_value(digits: Seq<char>, radix: nat) -> Option<nat>
    decreases digits.len(),
{
    if digits.len() == 0 {
        Some(0)
    } else {
        match (digits_value(digits.drop_last(), radix), digit_value(digits.last(), radix)) {
            (Some(high), Some(low)) => Some(high * radix + low),
            _ => None,
        }
    }
}

/// An unsigned number of at most `max`: an optional plus sign, then one or more digits.
pub open spec fn number_value(text: Seq<char>, radix: nat, max: nat) -> Option<nat> {
    let digits = if text.len() > 0 && text[0] == '+' {
        text.skip(1)
    } else {
        text
    };
    match digits_value(digits, radix) {
        Some(v) => if digits.len() > 0 && v <= max {
            Some(v)
        } else {
            None
        },
        None => None,
    }
}

/// The characters of a string.
pub fn chars_of(text: &str) -> (chars: Vec<char>)
    ensures
        chars@ == text@,
{
    let mut chars: Vec<char> = Vec::new();
    for c in it: text.chars()
        invariant
            chars@ == it.seq().take(it.index() as int),
            it.seq() == text@,
    {
        chars.push(c);
    }
    chars
}

/// The text of a digit below sixteen.
fn digit_text(d: u8) -> (text: &'static str)
    requires
        d < 16,
    ensures
        text@ == seq![digit_char(d as nat)],
{
    let digits: [&'static str; 16] = [
        "0", "1", "2", "3", "4", "5", "6", "7", "8", "9", "a", "b", "c", "d", "e", "f",
    ];
    proof {
        reveal_strlit("0");
        reveal_strlit("1");
        reveal_strlit("2");
        reveal_strlit("3");
        reveal_strlit("4");
        reveal_strlit("5");
        reveal_strlit("6");
        reveal_strlit("7");
        reveal_strlit("8");
        reveal_strlit("9");
        reveal_strlit("a");
        reveal_strlit("b");
        reveal_strlit("c");
        reveal_strlit("d");
        reveal_strlit("e");
        reveal_strlit("f");
    }
    digits[d as usize]
}

/// A number in decimal.
pub fn decimal_text(n: u64) -> (text: String)
    ensures
        text@ == decimal(n as nat),
    decreases n,
{
    let mut text = if n < 10 {
        String::new()
    } else {
        decimal_text(n / 10)
    };
    text.append(digit_text((n % 10) as u8));
    proof {
        assert(decimal(n as nat) =~= text@);
    }
    text
}

/// Bytes in lowercase hexadecimal.
pub fn hex(data: &[u8]) -> (text: String)
    ensures
        text@ == hexadecimal(data@),
{
    let mut text = String::new();
    let mut i: usize = 0;
    while i < data.len()
        invariant
            i <= data@.len(),
            text@ == hexadecimal(data@.take(i as int)),
        decreases data@.len() - i,
    {
        text.append(digit_text(data[i] / 16));
        text.append(digit_text(data[i] % 16));
        proof {
            let next = data@.take(i + 1);
            assert(next.drop_last() =~= data@.take(i as int));
            assert(hexadecimal(next) =~= text@);
        }
        i += 1;
    }
    proof {
        assert(data@.take(data@.len() as int) =~= data@);
    }
    text
}

/// The value of one digit.
fn digit_of(c: char, radix: u32) -> (value: Option<u32>)
    requires
        radix <= 36,
    ensures
        match value {
            Some(v) => digit_value(c, radix as nat) == Some(v as nat),
            None => digit_value(c, radix as nat) is None,
        },
{
    let v: u32 = if '0' <= c && c <= '9' {
        c as u32 - '0' as u32
    } else if 'a' <= c && c <= 'z' {
        c as u32 - 'a' as u32 + 10
    } else if 'A' <= c && c <= 'Z' {
        c as u32 - 'A' as u32 + 10
    } else {
        radix
    };
    if v < radix {
        Some(v)
    } else {
        None
    }
}

/// A row of digits that starts with a row of greater value than `max` has no value up to `max`.
proof fn lemma_digits_grow(digits: Seq<char>, radix: nat, max: nat, n: int)
    requires
        0 <= n <= digits.len(),
        radix >= 1,
        match digits_value(digits.take(n), radix) {
            Some(v) => v > max,
            None => true,
        },
    ensures
        match digits_value(digits, radix) {
            Some(v) => v > max,
            None => true,
        },
    decreases digits.len(),
{
    if n == digits.len() {
        assert(digits.take(n) =~= digits);
    } else {
        assert(digits.drop_last().take(n) =~= digits.take(n));
        lemma_digits_grow(digits.drop_last(), radix, max, n);
        if let Some(high) = digits_value(digits.drop_last(), radix) {
            assert(high * radix >= high) by (nonlinear_arith)
                requires
                    radix >= 1,
            ;
        }
    }
}

/// Reads an unsigned number of at most `max`.
pub fn parse_number(text: &str, radix: u32, max: u64) -> (value: Option<u64>)
    requires
        2 <= radix <= 36,
    ensures
        match value {
            Some(v) => number_value(text@, radix as nat, max as nat) == Some(v as nat),
            None => number_value(text@, radix as nat, max as nat) is None,
        },
{
    let chars = chars_of(text);
    let start: usize = if chars.len() > 0 && chars[0] == '+' {
        1
    } else {
        0
    };
    let ghost digits = text@.skip(start as int);
    proof {
        assert(text@.skip(0) =~= text@);
    }
    if chars.len() == start {
        return None;
    }
    let mut value: u64 = 0;
    let mut i: usize = start;
    while i < chars.len()
        invariant
            2 <= radix <= 36,
            chars@ == text@,
            start <= i <= chars.len(),
            digits == text@.skip(start as int),
            digits.len() > 0,
            digits == (if text@.len() > 0 && text@[0] == '+' {
                text@.skip(1)
            } else {
                text@
            }),
            value <= max,
            digits_value(digits.take(i - start), radix as nat) == Some(value as nat),
        decreases chars.len() - i,
    {
        proof {
            let next = digits.take(i - start + 1);
            assert(next.drop_last() =~= digits.take(i - start));
            assert(next.last() == chars[i as int]);
        }
        let grown: Option<u128> = match digit_of(chars[i], radix) {
            Some(d) => {
                assert(value * radix + d <= u64::MAX * 36 + 36) by (nonlinear_arith)
                    requires
                        value <= u64::MAX,
                        radix <= 36,
                        d <= 36,
                ;
                assert(0 <= value * radix) by (nonlinear_arith);
                Some(value as u128 * radix as u128 + d as u128)
            },
            None => None,
        };
        match grown {
            Some(v) if v <= max as u128 => {
                value = v as u64;
            },
            _ => {
                proof {
                    lemma_digits_grow(digits, radix as nat, max as nat, i - start + 1);
                }
                return None;
            },
        }
        i += 1;
    }
    proof {
        assert(digits.take(digits.len() as int) =~= digits);
    }
    Some(value)
}

/// Whether two texts are the same.
pub fn same_text(a: &str, b: &str) -> (r: bool)
    ensures
        r == (a@ == b@),
{
    a.to_owned() == b.to_owned()
}

/// Calls `String::from_utf8`: the bytes as text where they are valid UTF-8, and `None` where they
/// are not.
#[verifier::external_body]
fn from_utf8(data: Vec<u8>) -> (text: Option<String>)
    ensures
        match text {
            Some(t) => valid_utf8(data@) && t@ == decode_utf8(data@),
            None => !valid_utf8(data@),
        },
{
    String::from_utf8(data).ok()
}

/// The bytes as text, where they are valid UTF-8.
pub fn utf8_text(data: &Vec<u8>) -> (text: Option<String>)
    ensures
        match text {
            Some(t) => valid_utf8(data@) && t@ == decode_utf8(data@),
            None => !valid_utf8(data@),
        },
{
    let copy = data.clone();
    proof {
        assert(copy@ =~= data@);
    }
    from_utf8(copy)
}

/// A text without the zero characters at its end.
pub open spec fn without_zeros(text: Seq<char>) -> Seq<char>
    decreases text.len(),
{
    if text.len() > 0 && text.last() == '\0' {
        without_zeros(text.drop_last())
    } else {
        text
    }
}

/// Drops the zero characters at the end of a text.
pub fn trim_zeros(text: &str) -> (trimmed: String)
    ensures
        trimmed@ == without_zeros(text@),
{
    let chars = chars_of(text);
    let mut n: usize = chars.len();
    proof {
        assert(text@.take(n as int) =~= text@);
    }
    while n > 0 && chars[n - 1] == '\0'
        invariant
            chars@ == text@,
            n <= chars@.len(),
            without_zeros(text@.take(n as int)) == without_zeros(text@),
        decreases n,
    {
        proof {
            assert(text@.take(n as int).drop_last() =~= text@.take(n - 1));
        }
        n -= 1;
    }
    proof {
        assert(text@.take(n as int) =~= text@.subrange(0, n as int));
    }
    text.substring_char(0, n).to_owned()
}

} // verus!
