//! Numbers as text.
use crate::text::chars_of;
use vstd::prelude::*;

verus! {

/// The character of a digit.
pub open spec fn digit(d: int) -> char {
    if d == 0 {
        '0'
    } else if d == 1 {
        '1'
    } else if d == 2 {
        '2'
    } else if d == 3 {
        '3'
    } else if d == 4 {
        '4'
    } else if d == 5 {
        '5'
    } else if d == 6 {
        '6'
    } else if d == 7 {
        '7'
    } else if d == 8 {
        '8'
    } else if d == 9 {
        '9'
    } else if d == 10 {
        'a'
    } else if d == 11 {
        'b'
    } else if d == 12 {
        'c'
    } else if d == 13 {
        'd'
    } else if d == 14 {
        'e'
    } else {
        'f'
    }
}

/// The value of a decimal digit.
pub open spec fn digit_value(c: char) -> Option<int> {
    if c == '0' {
        Some(0)
    } else if c == '1' {
        Some(1)
    } else if c == '2' {
        Some(2)
    } else if c == '3' {
        Some(3)
    } else if c == '4' {
        Some(4)
    } else if c == '5' {
        Some(5)
    } else if c == '6' {
        Some(6)
    } else if c == '7' {
        Some(7)
    } else if c == '8' {
        Some(8)
    } else if c == '9' {
        Some(9)
    } else {
        None
    }
}

/// A number in decimal digits, without leading zeros.
pub open spec fn decimal(n: int) -> Seq<char>
    decreases n,
{
    if n < 10 {
        seq![digit(n)]
    } else {
        decimal(n / 10).push(digit(n % 10))
    }
}

/// The number that decimal digits stand for.
pub open spec fn digits_value(s: Seq<char>) -> int
    decreases s.len(),
{
    if s.len() == 0 {
        0
    } else {
        digits_value(s.drop_last()) * 10 + digit_value(s.last()).unwrap()
    }
}

/// Every character is a decimal digit.
pub open spec fn all_digits(s: Seq<char>) -> bool {
    forall|i: int| 0 <= i < s.len() ==> digit_value(#[trigger] s[i]).is_some()
}

/// A text without the plus sign that may begin it.
pub open spec fn unsigned_part(s: Seq<char>) -> Seq<char> {
    if s.len() > 0 && s[0] == '+' {
        s.skip(1)
    } else {
        s
    }
}

/// The number of at most `max` that a text holds: an optional plus sign and at least one
/// decimal digit, with nothing else.
pub open spec fn parsed(s: Seq<char>, max: int) -> Option<int> {
    let d = unsigned_part(s);
    if d.len() > 0 && all_digits(d) && digits_value(d) <= max {
        Some(digits_value(d))
    } else {
        None
    }
}

/// The four hexadecimal digits of a number of 16 bits.
pub open spec fn hex4(n: int) -> Seq<char> {
    seq![digit(n / 4096), digit(n / 256 % 16), digit(n / 16 % 16), digit(n % 16)]
}

fn digit_char(d: u64) -> (res: char)
    requires
        d < 16,
    ensures
        res == digit(d as int),
{
    match d {
        0 => '0',
        1 => '1',
        2 => '2',
        3 => '3',
        4 => '4',
        5 => '5',
        6 => '6',
        7 => '7',
        8 => '8',
        9 => '9',
        10 => 'a',
        11 => 'b',
        12 => 'c',
        13 => 'd',
        14 => 'e',
        _ => 'f',
    }
}

/// A number in decimal digits.
pub fn decimal_text(n: u64) -> (res: String)
    ensures
        res@ == decimal(n as int),
    decreases n,
{
    if n < 10 {
        let mut out: String = String::new();
        out.push(digit_char(n));
        proof {
            assert(out@ =~= seq![digit(n as int)]);
        }
        out
    } else {
        let mut out: String = decimal_text(n / 10);
        out.push(digit_char(n % 10));
        out
    }
}

/// A number of 16 bits in four hexadecimal digits.
pub fn hex4_text(n: u16) -> (res: String)
    ensures
        res@ == hex4(n as int),
{
    let m: u64 = n as u64;
    let mut out: String = String::new();
    out.push(digit_char(m / 4096));
    out.push(digit_char(m / 256 % 16));
    out.push(digit_char(m / 16 % 16));
    out.push(digit_char(m % 16));
    proof {
        assert(out@ =~= hex4(n as int));
    }
    out
}

fn value_of(c: char) -> (res: Option<u64>)
    ensures
        res.is_some() == digit_value(c).is_some(),
        res.is_some() ==> res.unwrap() == digit_value(c).unwrap() && res.unwrap() < 10,
{
    match c {
        '0' => Some(0),
        '1' => Some(1),
        '2' => Some(2),
        '3' => Some(3),
        '4' => Some(4),
        '5' => Some(5),
        '6' => Some(6),
        '7' => Some(7),
        '8' => Some(8),
        '9' => Some(9),
        _ => None,
    }
}

/// More digits do not make a number smaller.
proof fn lemma_digits_grow(s: Seq<char>, n: int)
    requires
        0 <= n <= s.len(),
        all_digits(s),
    ensures
        0 <= digits_value(s.take(n)) <= digits_value(s),
    decreases s.len(),
{
    if s.len() > 0 {
        let front = s.drop_last();
        assert forall|i: int| 0 <= i < front.len() implies digit_value(
            #[trigger] front[i],
        ).is_some() by {
            assert(front[i] == s[i]);
        }
        assert(digit_value(s[s.len() - 1]).is_some());
        if n < s.len() {
            lemma_digits_grow(front, n);
            assert(front.take(n) =~= s.take(n));
        } else {
            lemma_digits_grow(front, front.len() as int);
            assert(s.take(n) =~= s);
            assert(front.take(front.len() as int) =~= front);
        }
    } else {
        assert(s.take(n) =~= s);
    }
}

/// The number of at most `max` that a text holds.
pub fn parse_number(s: &str, max: u64) -> (res: Option<u64>)
    requires
        max <= u32::MAX,
    ensures
        res.is_some() == parsed(s@, max as int).is_some(),
        res.is_some() ==> res.unwrap() == parsed(s@, max as int).unwrap(),
{
    let chars: Vec<char> = chars_of(s);
    let first: usize = if chars.len() > 0 && chars[0] == '+' {
        1
    } else {
        0
    };
    let total: usize = chars.len();
    let ghost d = unsigned_part(s@);
    proof {
        assert(d =~= s@.skip(first as int));
    }
    if total == first {
        return None;
    }
    let mut value: u64 = 0;
    let mut i: usize = first;
    while i < total
        invariant
            first <= i <= total,
            total == chars@.len(),
            max <= u32::MAX,
            chars@ == s@,
            d == s@.skip(first as int),
            d == unsigned_part(s@),
            value <= max,
            forall|j: int| 0 <= j < i - first ==> digit_value(#[trigger] d[j]).is_some(),
            value == digits_value(d.take(i - first)),
        decreases total - i,
    {
        let ghost n = i - first;
        proof {
            assert(d[n] == chars@[i as int]);
            assert(d.take(n + 1).drop_last() =~= d.take(n));
        }
        match value_of(chars[i]) {
            Some(v) => {
                value = value * 10 + v;
                if value > max {
                    proof {
                        if all_digits(d) {
                            lemma_digits_grow(d, n + 1);
                        }
                    }
                    return None;
                }
            },
            None => {
                return None;
            },
        }
        i = i + 1;
    }
    proof {
        assert(d.take(total - first) =~= d);
    }
    Some(value)
}

/// The number of 32 bits that a text holds.
pub fn parse_u32(s: &str) -> (res: Option<u32>)
    ensures
        res.is_some() == parsed(s@, u32::MAX as int).is_some(),
        res.is_some() ==> res.unwrap() == parsed(s@, u32::MAX as int).unwrap(),
{
    match parse_number(s, 0xffff_ffff) {
        Some(n) => Some(n as u32),
        None => None,
    }
}

/// The number of 16 bits that a text holds.
pub fn parse_u16(s: &str) -> (res: Option<u16>)
    ensures
        res.is_some() == parsed(s@, u16::MAX as int).is_some(),
        res.is_some() ==> res.unwrap() == parsed(s@, u16::MAX as int).unwrap(),
{
    match parse_number(s, 0xffff) {
        Some(n) => Some(n as u16),
        None => None,
    }
}

/// The digits of a number stand for it, and none of them is a sign.
pub proof fn lemma_decimal(n: int)
    requires
        n >= 0,
    ensures
        decimal(n).len() > 0,
        all_digits(decimal(n)),
        digits_value(decimal(n)) == n,
    decreases n,
{
    reveal_with_fuel(digits_value, 2);
    let s = decimal(n);
    if n < 10 {
        assert(s.drop_last() =~= Seq::empty());
    } else {
        lemma_decimal(n / 10);
        let front = decimal(n / 10);
        assert(s.drop_last() =~= front);
        assert forall|i: int| 0 <= i < s.len() implies digit_value(#[trigger] s[i]).is_some() by {
            if i < front.len() {
                assert(s[i] == front[i]);
            }
        }
    }
}

/// A number that is written in decimal reads back as the same number.
pub proof fn number_reads_back(n: int, max: int)
    requires
        0 <= n <= max,
    ensures
        parsed(decimal(n), max) == Some(n),
{
    lemma_decimal(n);
    assert(digit_value(decimal(n)[0]).is_some());
}

/// Different numbers of 16 bits have different hexadecimal digits.
pub proof fn hex4_tells_apart(a: int, b: int)
    requires
        0 <= a <= u16::MAX,
        0 <= b <= u16::MAX,
        hex4(a) == hex4(b),
    ensures
        a == b,
{
    lemma_digit(a / 4096, b / 4096);
    lemma_digit(a / 256 % 16, b / 256 % 16);
    lemma_digit(a / 16 % 16, b / 16 % 16);
    lemma_digit(a % 16, b % 16);
    assert(hex4(a)[0] == hex4(b)[0]);
    assert(hex4(a)[1] == hex4(b)[1]);
    assert(hex4(a)[2] == hex4(b)[2]);
    assert(hex4(a)[3] == hex4(b)[3]);
}

/// Different digits are different characters.
proof fn lemma_digit(a: int, b: int)
    requires
        0 <= a < 16,
        0 <= b < 16,
    ensures
        digit(a) == digit(b) ==> a == b,
{
}

} // verus!
