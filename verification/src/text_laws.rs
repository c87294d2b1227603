//! What holds of numbers and bytes as text.

use crate::args::{hex_decoded, HexError};
use crate::text::{decimal, digits_value, hexadecimal, number_value, without_zeros};
use vstd::prelude::*;
use vstd::utf8::{encode_utf8, is_ascii_chars, is_ascii_chars_encode_utf8};

verus! {

/// Whether a character is a decimal digit of a value.
pub open spec fn is_digit(c: char, d: nat) -> bool {
    d < 10 && c as int == 48 + d
}

/// A number below ten is written with one digit, and one more digit at the end multiplies by ten
/// and adds.
pub proof fn law_decimal_grows(n: nat, d: nat)
    requires
        d < 10,
    ensures
        decimal(d).len() == 1,
        is_digit(decimal(d)[0], d),
        n > 0 ==> {
            &&& decimal(10 * n + d).len() == decimal(n).len() + 1
            &&& decimal(n).is_prefix_of(decimal(10 * n + d))
            &&& is_digit(decimal(10 * n + d).last(), d)
        },
{
    assert((10 * n + d) / 10 == n && (10 * n + d) % 10 == d) by (nonlinear_arith)
        requires
            d < 10,
    ;
}

/// A number in decimal is made of digits, starts with a zero only if it is zero, and reads back as
/// the number.
pub proof fn law_decimal_reads_back(n: nat, max: nat)
    requires
        n <= max,
    ensures
        decimal(n).len() > 0,
        forall|i: int| 0 <= i < decimal(n).len() ==> '0' <= #[trigger] decimal(n)[i] <= '9',
        decimal(n)[0] == '0' ==> n == 0,
        number_value(decimal(n), 10, max) == Some(n),
    decreases n,
{
    lemma_decimal_value(n);
    assert(decimal(n)[0] != '+');
}

/// The digits of a number have its value.
proof fn lemma_decimal_value(n: nat)
    ensures
        decimal(n).len() > 0,
        forall|i: int| 0 <= i < decimal(n).len() ==> '0' <= #[trigger] decimal(n)[i] <= '9',
        decimal(n)[0] == '0' ==> n == 0,
        digits_value(decimal(n), 10) == Some(n),
    decreases n,
{
    reveal_with_fuel(digits_value, 2);
    if n < 10 {
        assert(decimal(n).drop_last() =~= Seq::empty());
    } else {
        let high = n / 10;
        lemma_decimal_value(high);
        assert(decimal(n).drop_last() =~= decimal(high));
        assert(high * 10 + n % 10 == n) by (nonlinear_arith)
            requires
                high == n / 10,
        ;
    }
}

/// Two numbers are written the same only if they are the same.
pub proof fn law_decimal_tells_apart(a: nat, b: nat)
    requires
        decimal(a) == decimal(b),
    ensures
        a == b,
{
    lemma_decimal_value(a);
    lemma_decimal_value(b);
}

/// A number is read digit by digit: one more digit at the end multiplies by the base and adds, as
/// long as the value is not too great. What is no digit of the base is refused.
pub proof fn law_number_grows(text: Seq<char>, c: char, radix: nat, max: nat)
    requires
        2 <= radix <= 36,
        text.len() > 0,
        number_value(text, radix, max) is Some,
    ensures
        '0' <= c <= '9' && c as nat - 48 < radix ==> {
            let v = number_value(text, radix, max)->0 * radix + (c as nat - 48);
            number_value(text.push(c), radix, max) == if v <= max {
                Some(v as nat)
            } else {
                None
            }
        },
        'a' <= c <= 'z' && c as nat - 87 < radix ==> {
            let v = number_value(text, radix, max)->0 * radix + (c as nat - 87);
            number_value(text.push(c), radix, max) == if v <= max {
                Some(v as nat)
            } else {
                None
            }
        },
        'A' <= c <= 'Z' && c as nat - 55 < radix ==> {
            let v = number_value(text, radix, max)->0 * radix + (c as nat - 55);
            number_value(text.push(c), radix, max) == if v <= max {
                Some(v as nat)
            } else {
                None
            }
        },
        !('0' <= c <= '9') && !('a' <= c <= 'z') && !('A' <= c <= 'Z') ==> number_value(
            text.push(c),
            radix,
            max,
        ) is None,
        '0' <= c <= '9' && c as nat - 48 >= radix ==> number_value(
            text.push(c),
            radix,
            max,
        ) is None,
        'a' <= c <= 'z' && c as nat - 87 >= radix ==> number_value(
            text.push(c),
            radix,
            max,
        ) is None,
        'A' <= c <= 'Z' && c as nat - 55 >= radix ==> number_value(
            text.push(c),
            radix,
            max,
        ) is None,
{
    let more = text.push(c);
    if text[0] == '+' {
        assert(more.skip(1) =~= text.skip(1).push(c));
        assert(more.skip(1).drop_last() =~= text.skip(1));
    } else {
        assert(more.drop_last() =~= text);
    }
}

/// A number has at least one digit, may start with one plus sign, and is read without it; nothing
/// that follows what is refused makes it a number.
pub proof fn law_number_starts(text: Seq<char>, c: char, radix: nat, max: nat)
    requires
        2 <= radix <= 36,
    ensures
        number_value(Seq::empty(), radix, max) is None,
        number_value(seq!['+'], radix, max) is None,
        text.len() > 0 && text[0] != '+' ==> number_value(seq!['+'] + text, radix, max)
            == number_value(text, radix, max),
        text.len() > 0 && text != seq!['+'] && number_value(text, radix, max) is None
            ==> number_value(text.push(c), radix, max) is None,
{
    let signed = seq!['+'] + text;
    assert(signed.skip(1) =~= text);
    assert(seq!['+'].skip(1) =~= Seq::empty());
    if text.len() > 0 && text != seq!['+'] && number_value(text, radix, max) is None {
        let more = text.push(c);
        let digits = if text[0] == '+' {
            text.skip(1)
        } else {
            text
        };
        let all = if more[0] == '+' {
            more.skip(1)
        } else {
            more
        };
        assert(all.drop_last() =~= digits);
        if text[0] == '+' && digits.len() == 0 {
            assert(text =~= seq!['+']);
        }
        if let Some(high) = digits_value(digits, radix) {
            assert(high * radix >= high) by (nonlinear_arith)
                requires
                    radix >= 1,
            ;
        }
    }
}

/// A single digit has its own value.
pub proof fn law_one_digit(d: nat, max: nat)
    requires
        d < 10,
        d <= max,
    ensures
        number_value(seq![(48 + d) as char], 10, max) == Some(d),
        number_value(seq![(48 + d) as char], 16, max) == Some(d),
        d < 6 ==> max >= 16 ==> {
            &&& number_value(seq![(97 + d) as char], 16, max) == Some(10 + d)
            &&& number_value(seq![(65 + d) as char], 16, max) == Some(10 + d)
            &&& number_value(seq![(97 + d) as char], 10, max) is None
        },
{
    reveal_with_fuel(digits_value, 2);
    let texts = (seq![(48 + d) as char], seq![(97 + d) as char], seq![(65 + d) as char]);
    assert(texts.0.drop_last() =~= Seq::empty());
    assert(texts.1.drop_last() =~= Seq::empty());
    assert(texts.2.drop_last() =~= Seq::empty());
}

/// Whether a character is a lowercase hexadecimal digit of a value.
pub open spec fn is_hex_digit(c: char, d: nat) -> bool {
    ||| d < 10 && c as int == 48 + d
    ||| 10 <= d < 16 && c as int == 87 + d
}

/// Every byte is written with two lowercase hexadecimal digits, the higher one first, in order.
pub proof fn law_hexadecimal_digits(data: Seq<u8>)
    ensures
        hexadecimal(data).len() == 2 * data.len(),
        forall|i: int|
            0 <= i < data.len() ==> {
                &&& is_hex_digit(hexadecimal(data)[2 * i], (#[trigger] data[i]) as nat / 16)
                &&& is_hex_digit(hexadecimal(data)[2 * i + 1], data[i] as nat % 16)
            },
    decreases data.len(),
{
    if data.len() > 0 {
        let before = data.drop_last();
        law_hexadecimal_digits(before);
        assert forall|i: int| 0 <= i < data.len() implies {
            &&& is_hex_digit(hexadecimal(data)[2 * i], (#[trigger] data[i]) as nat / 16)
            &&& is_hex_digit(hexadecimal(data)[2 * i + 1], data[i] as nat % 16)
        } by {
            if i < before.len() {
                assert(before[i] == data[i]);
            }
        }
    }
}

/// Bytes that are written in hexadecimal are read back as they were.
pub proof fn law_hexadecimal_reads_back(data: Seq<u8>, r: Result<Vec<u8>, HexError>)
    requires
        hex_decoded(encode_utf8(hexadecimal(data)), r),
    ensures
        r matches Ok(read) && read@ == data,
{
    let text = hexadecimal(data);
    law_hexadecimal_digits(data);
    assert forall|i: int| 0 <= i < text.len() implies '\0' <= #[trigger] text[i] <= '\u{7f}' by {
        let k = i / 2;
        let d = data[k] as nat;
        assert(0 <= k < data.len());
        if i == 2 * k {
            assert(is_hex_digit(text[i], d / 16));
        } else {
            assert(i == 2 * k + 1);
            assert(is_hex_digit(text[i], d % 16));
        }
    }
    assert(is_ascii_chars(text));
    is_ascii_chars_encode_utf8(text);
    let bytes = encode_utf8(text);
    assert forall|i: int| 0 <= i < data.len() implies {
        &&& crate::args::hex_digit(bytes[2 * i]) == Some((#[trigger] data[i] / 16) as u8)
        &&& crate::args::hex_digit(bytes[2 * i + 1]) == Some((data[i] % 16) as u8)
    } by {
        assert(text[2 * i] as u8 == bytes[2 * i]);
        assert(text[2 * i + 1] as u8 == bytes[2 * i + 1]);
    }
    assert forall|i: int| 0 <= i < bytes.len() implies crate::args::hex_digit(
        #[trigger] bytes[i],
    ) is Some by {
        let k = i / 2;
        assert(i == 2 * k || i == 2 * k + 1);
        assert(data[k] / 16 < 16);
    }
    match r {
        Ok(read) => {
            assert(read@ =~= data);
        },
        Err(_) => {},
    }
}

/// What is left of a text without the zeros at its end is its start; only zeros were dropped, and
/// all of them.
pub proof fn law_only_zeros_dropped(text: Seq<char>)
    ensures
        without_zeros(text).is_prefix_of(text),
        forall|i: int|
            without_zeros(text).len() <= i < text.len() ==> #[trigger] text[i] == '\0',
        without_zeros(text).len() > 0 ==> without_zeros(text).last() != '\0',
    decreases text.len(),
{
    if text.len() > 0 && text.last() == '\0' {
        let before = text.drop_last();
        law_only_zeros_dropped(before);
        assert forall|i: int| without_zeros(text).len() <= i < text.len() implies #[trigger] text[i]
            == '\0' by {
            if i < before.len() {
                assert(before[i] == text[i]);
            }
        }
    }
}

} // verus!
