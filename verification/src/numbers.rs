//! Numbers as text: decimal and hexadecimal digits, and the integers that decimal text
//! stands for.

use vstd::prelude::*;

use crate::text;

verus! {

/// The character of a digit: `0` to `9`, then the letters from `first_letter` on.
pub open spec fn digit_char(digit: nat, first_letter: char) -> char {
    if digit < 10 {
        ('0' as nat + digit) as char
    } else {
        (first_letter as nat + digit - 10) as char
    }
}

fn to_digit_char(digit: u8, first_letter: char) -> (c: char)
    requires
        digit < 16,
        first_letter == 'a' || first_letter == 'A',
    ensures
        c == digit_char(digit as nat, first_letter),
{
    if digit < 10 {
        (('0' as u8) + digit) as char
    } else {
        ((first_letter as u8) + (digit - 10)) as char
    }
}

/// `number` in decimal digits, without leading zeros.
pub open spec fn decimal(number: nat) -> Seq<char>
    decreases number,
{
    if number < 10 {
        seq![digit_char(number, 'a')]
    } else {
        decimal(number / 10).push(digit_char(number % 10, 'a'))
    }
}

pub fn to_decimal(number: u64) -> (text: String)
    ensures
        text@ == decimal(number as nat),
    decreases number,
{
    if number < 10 {
        let mut text = String::new();
        text.push(to_digit_char(number as u8, 'a'));
        assert(text@ == decimal(number as nat));
        text
    } else {
        let mut text = to_decimal(number / 10);
        text.push(to_digit_char((number % 10) as u8, 'a'));
        text
    }
}

/// Decimal digits stand for the number that they were made from, so different numbers have
/// different digits.
pub proof fn decimal_reads_back(number: nat)
    ensures
        digits_value(decimal(number)) == Some(number),
        decimal(number).len() > 0,
        forall|i: int| 0 <= i < decimal(number).len() ==> text::ascii_digit(#[trigger] decimal(number)[i]),
    decreases number,
{
    if number >= 10 {
        let digits = decimal(number);
        decimal_reads_back(number / 10);
        assert(digits.drop_last() == decimal(number / 10));
        assert(digits.last() == digit_char(number % 10, 'a'));
        assert(digits.len() > 1);
        assert(number == number / 10 * 10 + number % 10);
    } else {
        assert(decimal(number).last() == digit_char(number, 'a'));
    }
}

/// Each byte as two small hexadecimal digits.
pub open spec fn hex_of(bytes: Seq<u8>) -> Seq<char>
    decreases bytes.len(),
{
    if bytes.len() == 0 {
        Seq::empty()
    } else {
        hex_of(bytes.drop_last()).push(digit_char((bytes.last() / 16) as nat, 'a')).push(
            digit_char((bytes.last() % 16) as nat, 'a'),
        )
    }
}

/// The bytes as small hexadecimal digits, two for each.
pub fn to_hex(bytes: &[u8]) -> (text: String)
    ensures
        text@ == hex_of(bytes@),
{
    let mut text = String::new();
    let mut i: usize = 0;
    assert(bytes@.take(0) == Seq::<u8>::empty());
    while i < bytes.len()
        invariant
            i <= bytes@.len(),
            text@ == hex_of(bytes@.take(i as int)),
        decreases bytes@.len() - i,
    {
        assert(bytes@.take(i + 1).drop_last() == bytes@.take(i as int));
        text.push(to_digit_char(bytes[i] / 16, 'a'));
        text.push(to_digit_char(bytes[i] % 16, 'a'));
        i = i + 1;
    }
    assert(bytes@.take(i as int) == bytes@);
    text
}

/// Hexadecimal text has two characters for each byte, each a digit or one of `a` to `f`.
pub proof fn hex_has_two_digits_per_byte(bytes: Seq<u8>)
    ensures
        hex_of(bytes).len() == 2 * bytes.len(),
        forall|i: int|
            0 <= i < hex_of(bytes).len() ==> {
                ||| '0' <= #[trigger] hex_of(bytes)[i] <= '9'
                ||| 'a' <= hex_of(bytes)[i] <= 'f'
            },
    decreases bytes.len(),
{
    if bytes.len() > 0 {
        hex_has_two_digits_per_byte(bytes.drop_last());
    }
}

/// Different bytes have different hexadecimal text.
pub proof fn hex_tells_bytes_apart(left: Seq<u8>, right: Seq<u8>)
    requires
        hex_of(left) == hex_of(right),
    ensures
        left == right,
    decreases left.len(),
{
    hex_has_two_digits_per_byte(left);
    hex_has_two_digits_per_byte(right);
    if left.len() > 0 {
        let a = hex_of(left);
        let b = hex_of(right);
        assert(a.drop_last().drop_last() == hex_of(left.drop_last()));
        assert(b.drop_last().drop_last() == hex_of(right.drop_last()));
        hex_tells_bytes_apart(left.drop_last(), right.drop_last());
        assert(a[a.len() - 1] == digit_char((left.last() % 16) as nat, 'a'));
        assert(b[b.len() - 1] == digit_char((right.last() % 16) as nat, 'a'));
        assert(a[a.len() - 2] == digit_char((left.last() / 16) as nat, 'a'));
        assert(b[b.len() - 2] == digit_char((right.last() / 16) as nat, 'a'));
        assert(left.last() == right.last());
        assert(left == left.drop_last().push(left.last()));
        assert(right == right.drop_last().push(right.last()));
    } else {
        assert(left == right);
    }
}

/// `port` as the four capital hexadecimal digits of the kernel's socket tables.
pub open spec fn port_hex(port: u16) -> Seq<char> {
    seq![
        digit_char((port / 4096) as nat, 'A'),
        digit_char((port / 256 % 16) as nat, 'A'),
        digit_char((port / 16 % 16) as nat, 'A'),
        digit_char((port % 16) as nat, 'A'),
    ]
}

pub fn to_port_hex(port: u16) -> (text: String)
    ensures
        text@ == port_hex(port),
{
    let mut text = String::new();
    text.push(to_digit_char((port / 4096) as u8, 'A'));
    text.push(to_digit_char((port / 256 % 16) as u8, 'A'));
    text.push(to_digit_char((port / 16 % 16) as u8, 'A'));
    text.push(to_digit_char((port % 16) as u8, 'A'));
    assert(text@ == port_hex(port));
    text
}

/// The number that a text of decimal digits stands for; nothing else has a value.
pub open spec fn digits_value(text: Seq<char>) -> Option<nat>
    decreases text.len(),
{
    if text.len() == 0 || !text::ascii_digit(text.last()) {
        None
    } else {
        let digit = (text.last() as nat - '0' as nat) as nat;
        if text.len() == 1 {
            Some(digit)
        } else {
            match digits_value(text.drop_last()) {
                Some(value) => Some(value * 10 + digit),
                None => None,
            }
        }
    }
}

/// The integer that `text` stands for: decimal digits behind at most one sign.
pub open spec fn integer_value(text: Seq<char>) -> Option<int> {
    if text.len() > 0 && (text[0] == '-' || text[0] == '+') {
        match digits_value(text.skip(1)) {
            Some(value) => Some(if text[0] == '-' { -value } else { value as int }),
            None => None,
        }
    } else {
        match digits_value(text) {
            Some(value) => Some(value as int),
            None => None,
        }
    }
}

/// The integer that `text` stands for, if it lies between `low` and `high`.
pub open spec fn bounded_integer(text: Seq<char>, low: int, high: int) -> Option<int> {
    match integer_value(text) {
        Some(value) => if low <= value <= high {
            Some(value)
        } else {
            None
        },
        None => None,
    }
}

proof fn lemma_prefix_value(text: Seq<char>, length: int)
    requires
        0 < length <= text.len(),
        digits_value(text) is Some,
    ensures
        digits_value(text.take(length)) is Some,
        digits_value(text.take(length))->0 <= digits_value(text)->0,
    decreases text.len(),
{
    if length < text.len() {
        assert(text.drop_last().take(length) == text.take(length));
        lemma_prefix_value(text.drop_last(), length);
    } else {
        assert(text.take(length) == text);
    }
}

/// The value of the digits from `from` on, if it is at most 2^63.
fn parse_digits(chars: &Vec<char>, from: usize) -> (value: Option<u64>)
    requires
        from <= chars@.len(),
    ensures
        match value {
            Some(value) => digits_value(chars@.skip(from as int)) == Some(value as nat) && value
                <= 0x8000_0000_0000_0000u64,
            None => match digits_value(chars@.skip(from as int)) {
                Some(value) => value > 0x8000_0000_0000_0000u64,
                None => true,
            },
        },
{
    let ghost text = chars@.skip(from as int);
    let mut value: u64 = 0;
    let mut i: usize = from;
    while i < chars.len()
        invariant
            from <= i <= chars@.len(),
            text == chars@.skip(from as int),
            value <= 0x8000_0000_0000_0000u64,
            i == from ==> value == 0,
            i > from ==> digits_value(text.take(i - from)) == Some(value as nat),
        decreases chars@.len() - i,
    {
        let c = chars[i];
        let ghost longer = text.take(i - from + 1);
        assert(longer.drop_last() == text.take(i - from));
        assert(longer.last() == c);
        if c < '0' || c > '9' {
            proof {
                if digits_value(text) is Some {
                    lemma_prefix_value(text, i - from + 1);
                }
            }
            return None;
        }
        let digit: u64 = ((c as u8) - ('0' as u8)) as u64;
        let wide: u128 = (value as u128) * 10 + (digit as u128);
        assert(digits_value(longer) == Some(wide as nat));
        if wide > 0x8000_0000_0000_0000u128 {
            proof {
                if digits_value(text) is Some {
                    lemma_prefix_value(text, i - from + 1);
                }
            }
            return None;
        }
        value = wide as u64;
        i = i + 1;
    }
    assert(text.take(i - from) == text);
    if i == from {
        return None;
    }
    Some(value)
}

/// The 64-bit integer that `text` stands for: decimal digits behind at most one sign.
pub fn parse_i64(text: &str) -> (value: Option<i64>)
    ensures
        match value {
            Some(value) => bounded_integer(text@, i64::MIN as int, i64::MAX as int) == Some(
                value as int,
            ),
            None => bounded_integer(text@, i64::MIN as int, i64::MAX as int) is None,
        },
{
    let chars = text::to_chars(text);
    if chars.len() > 0 && (chars[0] == '-' || chars[0] == '+') {
        let negative = chars[0] == '-';
        match parse_digits(&chars, 1) {
            Some(value) => {
                if negative {
                    if value == 0x8000_0000_0000_0000u64 {
                        Some(i64::MIN)
                    } else {
                        Some(-(value as i64))
                    }
                } else if value < 0x8000_0000_0000_0000u64 {
                    Some(value as i64)
                } else {
                    None
                }
            },
            None => None,
        }
    } else {
        assert(chars@.skip(0) == chars@);
        match parse_digits(&chars, 0) {
            Some(value) => {
                if value < 0x8000_0000_0000_0000u64 {
                    Some(value as i64)
                } else {
                    None
                }
            },
            None => None,
        }
    }
}

/// The 32-bit integer that `text` stands for: decimal digits behind at most one sign.
pub fn parse_i32(text: &str) -> (value: Option<i32>)
    ensures
        match value {
            Some(value) => bounded_integer(text@, i32::MIN as int, i32::MAX as int) == Some(
                value as int,
            ),
            None => bounded_integer(text@, i32::MIN as int, i32::MAX as int) is None,
        },
{
    match parse_i64(text) {
        Some(value) => {
            if -0x8000_0000i64 <= value && value <= 0x7fff_ffffi64 {
                Some(value as i32)
            } else {
                None
            }
        },
        None => None,
    }
}

// ---------------------------------------------------------------------------
// Laws

/// One more digit makes a number ten times as large and adds the digit; texts with anything but
/// digits stand for no number.
pub proof fn digits_count_by_tens(text: Seq<char>, value: nat, digit: char)
    requires
        digits_value(text) == Some(value),
    ensures
        '0' <= digit <= '9' ==> digits_value(text.push(digit)) == Some(
            (value * 10 + (digit as int - '0' as int)) as nat,
        ),
        '0' <= digit <= '9' ==> digits_value(seq![digit]) == Some((digit as int - '0' as int) as nat),
        !('0' <= digit <= '9') ==> digits_value(text.push(digit)) is None,
        digits_value(Seq::empty()) is None,
        forall|i: int| 0 <= i < text.len() ==> '0' <= #[trigger] text[i] <= '9',
    decreases text.len(),
{
    assert(text.push(digit).drop_last() == text);
    if text.len() > 1 {
        let shorter = text.drop_last();
        digits_count_by_tens(shorter, digits_value(shorter)->0, digit);
        assert forall|i: int| 0 <= i < text.len() implies '0' <= #[trigger] text[i] <= '9' by {
            if i < shorter.len() {
                assert(shorter[i] == text[i]);
            }
        }
    }
}

/// A sign in front of digits decides the sign of the number, and a number outside of the bounds
/// does not count.
pub proof fn signs_and_bounds_decide(digits: Seq<char>, value: nat, low: int, high: int)
    requires
        digits_value(digits) == Some(value),
    ensures
        bounded_integer(digits, low, high) == if low <= value <= high {
            Some(value as int)
        } else {
            None
        },
        bounded_integer(seq!['+'] + digits, low, high) == bounded_integer(digits, low, high),
        bounded_integer(seq!['-'] + digits, low, high) == if low <= -value <= high {
            Some(-value)
        } else {
            None
        },
{
    digits_count_by_tens(digits, value, '0');
    assert(digits.len() > 0);
    assert('0' <= digits[0] <= '9');
    assert((seq!['+'] + digits).skip(1) == digits);
    assert((seq!['-'] + digits).skip(1) == digits);
}

/// Decimal digits have no leading zeros.
pub proof fn decimals_do_not_begin_with_zero(number: nat)
    requires
        number > 0,
    ensures
        decimal(number)[0] != '0',
        decimal(0) == seq!['0'],
    decreases number,
{
    decimal_reads_back(number);
    if number >= 10 {
        decimal_reads_back(number / 10);
        decimals_do_not_begin_with_zero(number / 10);
    }
}

/// The value of a capital hexadecimal digit.
pub open spec fn capital_digit_value(c: char) -> int {
    if '0' <= c <= '9' {
        c as int - '0' as int
    } else {
        c as int - 'A' as int + 10
    }
}

/// The four hexadecimal digits of a port stand for the port, and are digits or capital letters.
pub proof fn port_digits_stand_for_the_port(port: u16)
    ensures
        port_hex(port).len() == 4,
        capital_digit_value(port_hex(port)[0]) * 4096 + capital_digit_value(port_hex(port)[1]) * 256
            + capital_digit_value(port_hex(port)[2]) * 16 + capital_digit_value(port_hex(port)[3])
            == port,
        forall|i: int|
            0 <= i < 4 ==> {
                ||| '0' <= #[trigger] port_hex(port)[i] <= '9'
                ||| 'A' <= port_hex(port)[i] <= 'F'
            },
{
    let a = (port / 4096) as nat;
    let b = (port / 256 % 16) as nat;
    let c = (port / 16 % 16) as nat;
    let d = (port % 16) as nat;
    lemma_capital_digit(a);
    lemma_capital_digit(b);
    lemma_capital_digit(c);
    lemma_capital_digit(d);
    let digits = port_hex(port);
    assert(digits[0] == digit_char(a, 'A') && digits[1] == digit_char(b, 'A'));
    assert(digits[2] == digit_char(c, 'A') && digits[3] == digit_char(d, 'A'));
    assert(a * 4096 + b * 256 + c * 16 + d == port) by {
        let x = port / 16;
        let y = port / 256;
        assert(port == x * 16 + d);
        assert(x == y * 16 + c) by {
            assert(port / 16 / 16 == port / 256);
        }
        assert(y == a * 16 + b) by {
            assert(port / 256 / 16 == port / 4096);
        }
    }
}

proof fn lemma_capital_digit(digit: nat)
    requires
        digit < 16,
    ensures
        capital_digit_value(digit_char(digit, 'A')) == digit,
        '0' <= digit_char(digit, 'A') <= '9' || 'A' <= digit_char(digit, 'A') <= 'F',
{
}

/// The value of a small hexadecimal digit.
pub open spec fn small_digit_value(c: char) -> int {
    if '0' <= c <= '9' {
        c as int - '0' as int
    } else {
        c as int - 'a' as int + 10
    }
}

/// The two hexadecimal digits of a byte stand for the byte, the higher one first, and the digits of
/// the bytes follow each other.
pub proof fn hex_digits_stand_for_the_bytes(bytes: Seq<u8>, byte: u8)
    ensures
        hex_of(bytes.push(byte)).take(hex_of(bytes).len() as int) == hex_of(bytes),
        hex_of(bytes.push(byte)).len() == hex_of(bytes).len() + 2,
        small_digit_value(hex_of(bytes.push(byte))[hex_of(bytes).len() as int]) * 16
            + small_digit_value(hex_of(bytes.push(byte))[hex_of(bytes).len() as int + 1]) == byte,
{
    assert(bytes.push(byte).drop_last() == bytes);
    let high = (byte / 16) as nat;
    let low = (byte % 16) as nat;
    assert(high * 16 + low == byte);
}

} // verus!
