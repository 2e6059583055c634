//! Integers as text: decimal and hexadecimal notation, written and read.

use vstd::prelude::*;

verus! {

/// The character of the digit `d`, upper case above 9.
pub open spec fn digit_char(d: int) -> char {
    if d == 0 {
        '0'
    } else if d == 1 {
        '1'
    } else if d == 2 {
        '2'
    } else if d == 3 {
        '3'
    } else if d == 4 {
        '4'
    } else if d == 5 {
        '5'
    } else if d == 6 {
        '6'
    } else if d == 7 {
        '7'
    } else if d == 8 {
        '8'
    } else if d == 9 {
        '9'
    } else if d == 10 {
        'A'
    } else if d == 11 {
        'B'
    } else if d == 12 {
        'C'
    } else if d == 13 {
        'D'
    } else if d == 14 {
        'E'
    } else {
        'F'
    }
}

/// The value of `c` as a digit in `radix` (10 or 16), either case.
pub open spec fn digit_value(c: char, radix: int) -> Option<int> {
    let v: int = if '0' <= c <= '9' {
        c as int - '0' as int
    } else if 'a' <= c <= 'f' {
        c as int - 'a' as int + 10
    } else if 'A' <= c <= 'F' {
        c as int - 'A' as int + 10
    } else {
        16
    };
    if v < radix {
        Some(v)
    } else {
        None
    }
}

/// `n` in decimal notation, without sign or leading zeros.
pub open spec fn decimal_digits(n: nat) -> Seq<char>
    decreases n,
{
    if n < 10 {
        seq![digit_char(n as int)]
    } else {
        decimal_digits(n / 10).push(digit_char((n % 10) as int))
    }
}

/// `n` in hexadecimal notation, upper case, without prefix or leading zeros.
pub open spec fn hex_digits(n: nat) -> Seq<char>
    decreases n,
{
    if n < 16 {
        seq![digit_char(n as int)]
    } else {
        hex_digits(n / 16).push(digit_char((n % 16) as int))
    }
}

/// `n` in decimal notation, with a minus sign when negative.
pub open spec fn decimal(n: int) -> Seq<char> {
    if n < 0 {
        seq!['-'] + decimal_digits((-n) as nat)
    } else {
        decimal_digits(n as nat)
    }
}

/// The value of a run of digits; `None` when a character is no digit.
pub open spec fn digits_value(s: Seq<char>, radix: int) -> Option<int>
    decreases s.len(),
{
    if s.len() == 0 {
        Some(0)
    } else {
        match (digits_value(s.drop_last(), radix), digit_value(s.last(), radix)) {
            (Some(high), Some(d)) => Some(high * radix + d),
            _ => None,
        }
    }
}

/// The integer that `s` denotes: an optional sign (`-` only where `min` is
/// negative) and at least one digit, the value within `min..=max`.
pub open spec fn parse_number(s: Seq<char>, radix: int, min: int, max: int) -> Option<int> {
    if s.len() == 0 {
        None
    } else {
        let negative = s[0] == '-' && min < 0;
        let body = if s[0] == '+' || negative {
            s.subrange(1, s.len() as int)
        } else {
            s
        };
        if body.len() == 0 {
            None
        } else {
            match digits_value(body, radix) {
                Some(v) => {
                    let n = if negative {
                        -v
                    } else {
                        v
                    };
                    if min <= n <= max {
                        Some(n)
                    } else {
                        None
                    }
                },
                None => None,
            }
        }
    }
}

/// The number of 32 bits that a decimal text denotes.
pub open spec fn parse_u32(s: Seq<char>) -> Option<u32> {
    match parse_number(s, 10, 0, u32::MAX as int) {
        Some(n) => Some(n as u32),
        None => None,
    }
}

/// The signed number of 32 bits that a decimal text denotes.
pub open spec fn parse_i32(s: Seq<char>) -> Option<i32> {
    match parse_number(s, 10, i32::MIN as int, i32::MAX as int) {
        Some(n) => Some(n as i32),
        None => None,
    }
}

/// The number of 64 bits that a decimal text denotes.
pub open spec fn parse_u64(s: Seq<char>) -> Option<u64> {
    match parse_number(s, 10, 0, u64::MAX as int) {
        Some(n) => Some(n as u64),
        None => None,
    }
}

/// The number of 16 bits that a hexadecimal text denotes.
pub open spec fn parse_hex_u16(s: Seq<char>) -> Option<u16> {
    match parse_number(s, 16, 0, u16::MAX as int) {
        Some(n) => Some(n as u16),
        None => None,
    }
}

fn digit_to_char(d: u8) -> (c: char)
    requires
        d < 16,
    ensures
        c == digit_char(d as int),
{
    if d == 0 {
        '0'
    } else if d == 1 {
        '1'
    } else if d == 2 {
        '2'
    } else if d == 3 {
        '3'
    } else if d == 4 {
        '4'
    } else if d == 5 {
        '5'
    } else if d == 6 {
        '6'
    } else if d == 7 {
        '7'
    } else if d == 8 {
        '8'
    } else if d == 9 {
        '9'
    } else if d == 10 {
        'A'
    } else if d == 11 {
        'B'
    } else if d == 12 {
        'C'
    } else if d == 13 {
        'D'
    } else if d == 14 {
        'E'
    } else {
        'F'
    }
}

fn char_to_digit(c: char, radix: u8) -> (r: Option<u8>)
    requires
        radix == 10 || radix == 16,
    ensures
        match r {
            Some(d) => digit_value(c, radix as int) == Some(d as int) && d < radix,
            None => digit_value(c, radix as int) is None,
        },
{
    let u: u32 = c as u32;
    let v: u32 = if 0x30 <= u && u <= 0x39 {
        u - 0x30
    } else if 0x61 <= u && u <= 0x66 {
        u - 0x61 + 10
    } else if 0x41 <= u && u <= 0x46 {
        u - 0x41 + 10
    } else {
        16
    };
    if v < radix as u32 {
        Some(v as u8)
    } else {
        None
    }
}

/// Writes `n` in decimal notation.
pub fn write_decimal_digits(n: u64) -> (r: Vec<char>)
    ensures
        r@ == decimal_digits(n as nat),
    decreases n,
{
    if n < 10 {
        let mut r: Vec<char> = Vec::new();
        r.push(digit_to_char(n as u8));
        assert(r@ =~= seq![digit_char(n as int)]);
        r
    } else {
        let mut r = write_decimal_digits(n / 10);
        r.push(digit_to_char((n % 10) as u8));
        r
    }
}

/// Writes `n` in hexadecimal notation, upper case.
pub fn write_hex_digits(n: u64) -> (r: Vec<char>)
    ensures
        r@ == hex_digits(n as nat),
    decreases n,
{
    if n < 16 {
        let mut r: Vec<char> = Vec::new();
        r.push(digit_to_char(n as u8));
        assert(r@ =~= seq![digit_char(n as int)]);
        r
    } else {
        let mut r = write_hex_digits(n / 16);
        r.push(digit_to_char((n % 16) as u8));
        r
    }
}

/// Writes `n` in decimal notation, with a minus sign when negative.
pub fn write_decimal(n: i64) -> (r: Vec<char>)
    ensures
        r@ == decimal(n as int),
{
    if n < 0 {
        let m: u64 = if n == i64::MIN {
            0x8000_0000_0000_0000u64
        } else {
            (-n) as u64
        };
        let mut r: Vec<char> = Vec::new();
        r.push('-');
        let mut d = write_decimal_digits(m);
        r.append(&mut d);
        assert(r@ =~= seq!['-'] + decimal_digits((-n) as nat));
        r
    } else {
        write_decimal_digits(n as u64)
    }
}

/// Reads the digits `s[from..]` and returns their value, capped at `2^80`.
fn read_digits(s: &Vec<char>, from: usize, radix: u8) -> (r: Option<u128>)
    requires
        from <= s.len(),
        radix == 10 || radix == 16,
    ensures
        match r {
            Some(v) => match digits_value(s@.subrange(from as int, s@.len() as int), radix as int) {
                Some(w) => 0 <= w && v == if w < 0x1_0000_0000_0000_0000_0000 {
                    w
                } else {
                    0x1_0000_0000_0000_0000_0000
                },
                None => false,
            },
            None => digits_value(s@.subrange(from as int, s@.len() as int), radix as int) is None,
        },
{
    let cap: u128 = 0x1_0000_0000_0000_0000_0000;
    let mut acc: u128 = 0;
    let mut i: usize = from;
    assert(s@.subrange(from as int, from as int) =~= Seq::<char>::empty());
    while i < s.len()
        invariant
            from <= i <= s.len(),
            radix == 10 || radix == 16,
            cap == 0x1_0000_0000_0000_0000_0000,
            acc <= cap,
            match digits_value(s@.subrange(from as int, i as int), radix as int) {
                Some(w) => 0 <= w && acc == if w < cap {
                    w
                } else {
                    cap as int
                },
                None => false,
            },
        decreases s.len() - i,
    {
        let ghost before = s@.subrange(from as int, i as int);
        let ghost after = s@.subrange(from as int, i + 1);
        proof {
            assert(after.drop_last() =~= before);
            assert(after.last() == s@[i as int]);
        }
        match char_to_digit(s[i], radix) {
            Some(d) => {
                let ghost w = digits_value(before, radix as int)->0;
                proof {
                    assert(w >= cap ==> w * radix + d >= cap) by (nonlinear_arith)
                        requires
                            radix >= 10,
                            d >= 0,
                            cap >= 0,
                    ;
                    assert(w < cap ==> w * radix + d == acc * radix + d);
                    assert(acc * radix <= cap * 16) by (nonlinear_arith)
                        requires
                            acc <= cap,
                            radix <= 16,
                    ;
                }
                let next: u128 = acc * (radix as u128) + d as u128;
                acc = if next < cap {
                    next
                } else {
                    cap
                };
                proof {
                    if w >= cap {
                        assert(acc * 1 == cap) by {
                            assert(cap * radix + d >= cap) by (nonlinear_arith)
                                requires
                                    radix >= 10,
                                    d >= 0,
                                    cap >= 0,
                            ;
                        }
                    }
                }
            },
            None => {
                proof {
                    lemma_digits_value_none(s@.subrange(from as int, s@.len() as int), i - from, radix as int);
                }
                return None;
            },
        }
        i += 1;
    }
    assert(s@.subrange(from as int, i as int) == s@.subrange(from as int, s@.len() as int));
    Some(acc)
}

/// A run with a character that is no digit has no value.
pub proof fn lemma_digits_value_none(s: Seq<char>, k: int, radix: int)
    requires
        0 <= k < s.len(),
        digit_value(s[k], radix) is None,
    ensures
        digits_value(s, radix) is None,
    decreases s.len(),
{
    if k == s.len() - 1 {
    } else {
        lemma_digits_value_none(s.drop_last(), k, radix);
    }
}

/// Reads an integer within `min..=max` in the given radix.
fn read_number(s: &Vec<char>, radix: u8, min: i128, max: i128) -> (r: Option<i128>)
    requires
        radix == 10 || radix == 16,
        -0x1_0000_0000_0000_0000 <= min <= 0 <= max <= 0x1_0000_0000_0000_0000,
    ensures
        match r {
            Some(n) => parse_number(s@, radix as int, min as int, max as int) == Some(n as int),
            None => parse_number(s@, radix as int, min as int, max as int) is None,
        },
{
    if s.len() == 0 {
        return None;
    }
    let negative = s[0] == '-' && min < 0;
    let from: usize = if s[0] == '+' || negative {
        1
    } else {
        0
    };
    if from == s.len() {
        return None;
    }
    assert(s@.subrange(0, s@.len() as int) =~= s@);
    match read_digits(s, from, radix) {
        Some(v) => {
            let n: i128 = if negative {
                -(v as i128)
            } else {
                v as i128
            };
            if min <= n && n <= max {
                Some(n)
            } else {
                None
            }
        },
        None => None,
    }
}

/// Reads a decimal number of 32 bits.
pub fn read_u32(s: &Vec<char>) -> (r: Option<u32>)
    ensures
        r == parse_u32(s@),
{
    match read_number(s, 10, 0, 0xFFFF_FFFF) {
        Some(n) => Some(n as u32),
        None => None,
    }
}

/// Reads a signed decimal number of 32 bits.
pub fn read_i32(s: &Vec<char>) -> (r: Option<i32>)
    ensures
        r == parse_i32(s@),
{
    match read_number(s, 10, -0x8000_0000, 0x7FFF_FFFF) {
        Some(n) => Some(n as i32),
        None => None,
    }
}

/// Reads a decimal number of 64 bits.
pub fn read_u64(s: &Vec<char>) -> (r: Option<u64>)
    ensures
        r == parse_u64(s@),
{
    match read_number(s, 10, 0, 0xFFFF_FFFF_FFFF_FFFF) {
        Some(n) => Some(n as u64),
        None => None,
    }
}

/// Reads a hexadecimal number of 16 bits.
pub fn read_hex_u16(s: &Vec<char>) -> (r: Option<u16>)
    ensures
        r == parse_hex_u16(s@),
{
    match read_number(s, 16, 0, 0xFFFF) {
        Some(n) => Some(n as u16),
        None => None,
    }
}

/// Every character of a decimal numeral is a decimal digit, and the numeral
/// has the value of the number it was written for.
pub proof fn lemma_decimal_digits_value(n: nat)
    ensures
        decimal_digits(n).len() >= 1,
        forall|i: int|
            0 <= i < decimal_digits(n).len() ==> '0' <= #[trigger] decimal_digits(n)[i] <= '9',
        digits_value(decimal_digits(n), 10) == Some(n as int),
    decreases n,
{
    if n < 10 {
        let s = decimal_digits(n);
        assert(s.drop_last() =~= Seq::<char>::empty());
        assert(digits_value(s.drop_last(), 10) == Some(0int));
        assert(digit_value(digit_char(n as int), 10) == Some(n as int));
    } else {
        lemma_decimal_digits_value(n / 10);
        let high = decimal_digits(n / 10);
        let s = decimal_digits(n);
        assert(s.drop_last() =~= high);
        assert(s.last() == digit_char((n % 10) as int));
        assert(digit_value(digit_char((n % 10) as int), 10) == Some((n % 10) as int));
    }
}

/// Reading a number that was written in decimal notation gives the number
/// back, wherever it lies between the bounds.
pub proof fn lemma_parse_decimal(n: int, min: int, max: int)
    requires
        min <= n <= max,
        min <= 0,
    ensures
        parse_number(decimal(n), 10, min, max) == Some(n),
{
    if n < 0 {
        let m = (-n) as nat;
        lemma_decimal_digits_value(m);
        let s = decimal(n);
        assert(s[0] == '-');
        assert(s.subrange(1, s.len() as int) =~= decimal_digits(m));
    } else {
        lemma_decimal_digits_value(n as nat);
        let s = decimal(n);
        assert('0' <= s[0] <= '9');
    }
}

/// Every character of a hexadecimal numeral is a digit or a letter from `A`
/// to `F`, and the numeral has the value of the number it was written for.
pub proof fn lemma_hex_digits_value(n: nat)
    ensures
        hex_digits(n).len() >= 1,
        forall|i: int|
            0 <= i < hex_digits(n).len() ==> ('0' <= #[trigger] hex_digits(n)[i] <= '9') || ('A'
                <= hex_digits(n)[i] <= 'F'),
        digits_value(hex_digits(n), 16) == Some(n as int),
    decreases n,
{
    if n < 16 {
        let s = hex_digits(n);
        assert(s.drop_last() =~= Seq::<char>::empty());
        assert(digits_value(s.drop_last(), 16) == Some(0int));
        assert(digit_value(digit_char(n as int), 16) == Some(n as int));
    } else {
        lemma_hex_digits_value(n / 16);
        let high = hex_digits(n / 16);
        let s = hex_digits(n);
        assert(s.drop_last() =~= high);
        assert(s.last() == digit_char((n % 16) as int));
        assert(digit_value(digit_char((n % 16) as int), 16) == Some((n % 16) as int));
    }
}

} // verus!
