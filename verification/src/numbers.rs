//! Integers written as text and read back.

use vstd::prelude::*;
#[allow(unused_imports)]
use vstd::arithmetic::power::pow;
use crate::text::string_of;

verus! {

/// The lower case digit for a value below sixteen.
pub open spec fn digit_char(value: int) -> char {
    if 0 <= value < 10 {
        (('0' as int) + value) as char
    } else {
        (('a' as int) + value - 10) as char
    }
}

/// The lower case digit for a value below sixteen.
fn digit(value: u64) -> (r: char)
    requires
        value < 16,
    ensures
        r == digit_char(value as int),
{
    if value < 10 {
        ((48 + value) as u8) as char
    } else {
        ((87 + value) as u8) as char
    }
}

/// `value` in the given base, without leading zeros; zero is one digit.
pub open spec fn digits_of(value: nat, base: nat) -> Seq<char>
    decreases value,
{
    if base < 2 || value < base {
        seq![digit_char(value as int)]
    } else {
        proof {
            assert(value / base < value) by (nonlinear_arith)
                requires
                    value >= base,
                    base >= 2,
            ;
        }
        digits_of(value / base, base).push(digit_char((value % base) as int))
    }
}

/// `chars` behind as many zeros as bring it up to `width`.
pub open spec fn zero_padded(chars: Seq<char>, width: nat) -> Seq<char> {
    if chars.len() < width {
        Seq::new((width - chars.len()) as nat, |i: int| '0') + chars
    } else {
        chars
    }
}

/// `value` in lower case hexadecimal, at least eight digits wide.
pub open spec fn hex8(value: nat) -> Seq<char> {
    zero_padded(digits_of(value, 16), 8)
}

/// `value` in decimal, with a minus sign where it is negative.
pub open spec fn decimal_of(value: int) -> Seq<char> {
    if value < 0 {
        seq!['-'] + digits_of((-value) as nat, 10)
    } else {
        digits_of(value as nat, 10)
    }
}

/// The digits of `value`, the last one first.
fn digits_reversed(value: u64, base: u64) -> (r: Vec<char>)
    requires
        2 <= base <= 16,
    ensures
        r@.reverse() == digits_of(value as nat, base as nat),
{
    let mut r: Vec<char> = Vec::new();
    let mut rest: u64 = value;
    proof {
        assert(r@.reverse() =~= Seq::empty());
        assert(digits_of(value as nat, base as nat) =~= digits_of(rest as nat, base as nat)
            + r@.reverse());
    }
    while rest >= base
        invariant
            2 <= base <= 16,
            digits_of(value as nat, base as nat) == digits_of(rest as nat, base as nat)
                + r@.reverse(),
        decreases rest,
    {
        let ghost before = r@;
        let low: u64 = rest % base;
        let ghost whole = rest;
        proof {
            assert(rest / base < rest) by (nonlinear_arith)
                requires
                    rest >= base,
                    base >= 2,
            ;
        }
        r.push(digit(low));
        rest = rest / base;
        proof {
            assert(r@.reverse() =~= seq![digit_char(low as int)] + before.reverse());
            assert(digits_of(whole as nat, base as nat) == digits_of(
                rest as nat,
                base as nat,
            ).push(digit_char(low as int)));
            assert(digits_of(value as nat, base as nat) =~= digits_of(rest as nat, base as nat)
                + r@.reverse());
        }
    }
    let ghost before = r@;
    r.push(digit(rest));
    proof {
        assert(r@.reverse() =~= seq![digit_char(rest as int)] + before.reverse());
    }
    r
}

/// `chars` the other way round.
fn reversed(chars: &Vec<char>) -> (r: Vec<char>)
    ensures
        r@ == chars@.reverse(),
{
    let mut r: Vec<char> = Vec::new();
    let mut i: usize = chars.len();
    while i > 0
        invariant
            i <= chars@.len(),
            r@.len() == chars@.len() - i,
            forall|k: int| 0 <= k < r@.len() ==> r@[k] == chars@[chars@.len() - 1 - k],
        decreases i,
    {
        i = i - 1;
        r.push(chars[i]);
    }
    proof {
        assert(r@ =~= chars@.reverse());
    }
    r
}

/// `value` in lower case hexadecimal, at least eight digits wide.
pub fn hex(value: u64) -> (r: String)
    ensures
        r@ == hex8(value as nat),
{
    let mut back = digits_reversed(value, 16);
    let ghost bare = back@;
    while back.len() < 8
        invariant
            bare.len() <= back@.len(),
            bare.len() >= 8 ==> back@ == bare,
            bare.len() < 8 ==> back@.len() <= 8,
            back@.take(bare.len() as int) == bare,
            forall|k: int| bare.len() <= k < back@.len() ==> back@[k] == '0',
        decreases 8 - back@.len(),
    {
        let ghost before = back@;
        back.push('0');
        proof {
            assert(back@.take(bare.len() as int) =~= before.take(bare.len() as int));
        }
    }
    let forward = reversed(&back);
    proof {
        assert(digits_of(value as nat, 16) == bare.reverse());
        assert forall|k: int| 0 <= k < bare.len() implies back@[k] == bare[k] by {
            assert(back@.take(bare.len() as int)[k] == bare[k]);
        }
        assert(forward@ =~= hex8(value as nat));
    }
    string_of(&forward)
}

/// The magnitude of a 64 bit integer.
fn magnitude(value: i64) -> (r: u64)
    ensures
        r == (if value < 0 {
            -value
        } else {
            value as int
        }),
{
    if value >= 0 {
        value as u64
    } else if value == i64::MIN {
        0x8000_0000_0000_0000
    } else {
        (-value) as u64
    }
}

/// `value` in decimal, with a minus sign where it is negative.
pub fn decimal(value: i64) -> (r: String)
    ensures
        r@ == decimal_of(value as int),
{
    let mut back = digits_reversed(magnitude(value), 10);
    let ghost bare = back@;
    if value < 0 {
        back.push('-');
    }
    let forward = reversed(&back);
    proof {
        if value < 0 {
            assert(forward@ =~= seq!['-'] + bare.reverse());
        }
    }
    string_of(&forward)
}

/// The 64 bit pattern of `value`, read as an unsigned number.
pub open spec fn twos_complement(value: int) -> nat {
    if value < 0 {
        (value + 0x1_0000_0000_0000_0000) as nat
    } else {
        value as nat
    }
}

/// The 64 bit pattern of `value`, read as an unsigned number.
pub fn bits_of(value: i64) -> (r: u64)
    ensures
        r == twos_complement(value as int),
{
    proof {
        assert(value < 0 ==> (value as u64) == value + 0x1_0000_0000_0000_0000) by (bit_vector);
        assert(value >= 0 ==> (value as u64) == value) by (bit_vector);
    }
    value as u64
}

/// The lowest 32 bits of `value`, read as an unsigned number.
pub fn low32(value: i64) -> (r: u32)
    ensures
        r == value as int % 0x1_0000_0000,
{
    proof {
        assert((value as u32) as int == value as int % 0x1_0000_0000) by {
            let low = (value as u32);
            let wide = (value as u64);
            assert(value < 0 ==> wide == value + 0x1_0000_0000_0000_0000) by (bit_vector)
                requires
                    wide == (value as u64),
            ;
            assert(value >= 0 ==> wide == value) by (bit_vector)
                requires
                    wide == (value as u64),
            ;
            assert(low == wide % 0x1_0000_0000) by (bit_vector)
                requires
                    low == (value as u32),
                    wide == (value as u64),
            ;
        }
    }
    value as u32
}

/// The value of a digit in the given base (at most sixteen), in either case.
pub open spec fn digit_value(ch: char, base: nat) -> Option<nat> {
    let value: int = if '0' <= ch <= '9' {
        ch as int - '0' as int
    } else if 'a' <= ch <= 'f' {
        ch as int - 'a' as int + 10
    } else if 'A' <= ch <= 'F' {
        ch as int - 'A' as int + 10
    } else {
        16
    };
    if value < base {
        Some(value as nat)
    } else {
        None
    }
}

/// The value of a digit in the given base (at most sixteen), in either case.
fn value_of_digit(ch: char, base: u64) -> (r: Option<u64>)
    requires
        2 <= base <= 16,
    ensures
        match r {
            Some(v) => digit_value(ch, base as nat) == Some(v as nat),
            None => digit_value(ch, base as nat) is None,
        },
{
    let value: u64 = if '0' <= ch && ch <= '9' {
        (ch as u64) - 48
    } else if 'a' <= ch && ch <= 'f' {
        (ch as u64) - 97 + 10
    } else if 'A' <= ch && ch <= 'F' {
        (ch as u64) - 65 + 10
    } else {
        16
    };
    if value < base {
        Some(value)
    } else {
        None
    }
}

/// The number that a run of digits stands for; none where it is not digits alone, or empty.
pub open spec fn digits_value(digits: Seq<char>, base: nat) -> Option<nat>
    decreases digits.len(),
{
    if digits.len() == 0 {
        None
    } else {
        match digit_value(digits.last(), base) {
            None => None,
            Some(low) => if digits.len() == 1 {
                Some(low)
            } else {
                match digits_value(digits.drop_last(), base) {
                    Some(high) => Some(high * base + low),
                    None => None,
                }
            },
        }
    }
}

/// The signed 64 bit number that a text stands for: an optional sign and one digit or more,
/// within range.
pub open spec fn parsed_int(text: Seq<char>, base: nat) -> Option<int> {
    if text.len() > 0 && text[0] == '-' {
        match digits_value(text.skip(1), base) {
            Some(v) => if v <= 0x8000_0000_0000_0000 {
                Some(-(v as int))
            } else {
                None
            },
            None => None,
        }
    } else {
        let digits = if text.len() > 0 && text[0] == '+' {
            text.skip(1)
        } else {
            text
        };
        match digits_value(digits, base) {
            Some(v) => if v <= i64::MAX {
                Some(v as int)
            } else {
                None
            },
            None => None,
        }
    }
}

/// More digits behind a run of them never make the number smaller.
proof fn lemma_prefix_value(digits: Seq<char>, base: nat, n: int)
    requires
        base >= 2,
        0 < n <= digits.len(),
        digits_value(digits, base) is Some,
    ensures
        digits_value(digits.take(n), base) is Some,
        digits_value(digits.take(n), base)->0 <= digits_value(digits, base)->0,
    decreases digits.len(),
{
    if n == digits.len() {
        assert(digits.take(n) =~= digits);
    } else {
        lemma_prefix_value(digits.drop_last(), base, n);
        assert(digits.drop_last().take(n) =~= digits.take(n));
        let high = digits_value(digits.drop_last(), base)->0;
        assert(high <= high * base) by (nonlinear_arith)
            requires
                base >= 2,
        ;
    }
}

/// The number that the characters from `start` on stand for, where it is at most 2^63.
fn unsigned_from(chars: &Vec<char>, start: usize, base: u64) -> (r: Option<u64>)
    requires
        2 <= base <= 16,
        start <= chars@.len(),
    ensures
        match r {
            Some(v) => v <= 0x8000_0000_0000_0000 && digits_value(
                chars@.skip(start as int),
                base as nat,
            ) == Some(v as nat),
            None => match digits_value(chars@.skip(start as int), base as nat) {
                Some(v) => v > 0x8000_0000_0000_0000,
                None => true,
            },
        },
{
    let ghost digits = chars@.skip(start as int);
    if start == chars.len() {
        return None;
    }
    let mut total: u64 = 0;
    let mut i: usize = start;
    while i < chars.len()
        invariant
            2 <= base <= 16,
            start <= i <= chars@.len(),
            start < chars@.len(),
            digits == chars@.skip(start as int),
            total <= 0x8000_0000_0000_0000,
            i == start ==> total == 0,
            i > start ==> digits_value(digits.take(i - start), base as nat) == Some(total as nat),
        decreases chars@.len() - i,
    {
        let ghost n = i - start;
        proof {
            assert(digits.take(n + 1).drop_last() =~= digits.take(n));
            assert(digits.take(n + 1).last() == chars@[i as int]);
            if digits_value(digits, base as nat) is Some {
                lemma_prefix_value(digits, base as nat, n + 1);
            }
        }
        match value_of_digit(chars[i], base) {
            None => {
                return None;
            },
            Some(low) => {
                proof {
                    assert(total * base <= 0x8000_0000_0000_0000 * 16) by (nonlinear_arith)
                        requires
                            total <= 0x8000_0000_0000_0000,
                            base <= 16,
                    ;
                }
                let wide: u128 = total as u128 * base as u128 + low as u128;
                proof {
                    assert(total as nat * base as nat == total * base);
                    assert(n > 0 ==> digits_value(digits.take(n + 1), base as nat) == Some(
                        wide as nat,
                    ));
                    assert(n == 0 ==> digits_value(digits.take(n + 1), base as nat) == Some(
                        wide as nat,
                    ));
                }
                if wide > 0x8000_0000_0000_0000 {
                    return None;
                }
                total = wide as u64;
            },
        }
        i = i + 1;
    }
    proof {
        assert(digits.take(i - start) =~= digits);
    }
    Some(total)
}

/// The signed 64 bit number that a text stands for.
pub fn parse_int(chars: &Vec<char>, base: u64) -> (r: Option<i64>)
    requires
        2 <= base <= 16,
    ensures
        match r {
            Some(v) => parsed_int(chars@, base as nat) == Some(v as int),
            None => parsed_int(chars@, base as nat) is None,
        },
{
    if chars.len() > 0 && chars[0] == '-' {
        match unsigned_from(chars, 1, base) {
            None => None,
            Some(v) => if v == 0x8000_0000_0000_0000 {
                Some(i64::MIN)
            } else {
                Some(-(v as i64))
            },
        }
    } else {
        let start: usize = if chars.len() > 0 && chars[0] == '+' {
            1
        } else {
            0
        };
        proof {
            assert(chars@.skip(0) =~= chars@);
        }
        match unsigned_from(chars, start, base) {
            None => None,
            Some(v) => if v > 0x7fff_ffff_ffff_ffff {
                None
            } else {
                Some(v as i64)
            },
        }
    }
}

/// Every digit below the base is read as what it was written for.
proof fn lemma_digit_back(value: nat, base: nat)
    requires
        value < base <= 16,
    ensures
        digit_value(digit_char(value as int), base) == Some(value),
{
}

/// A number written in a base is read back in that base as itself.
pub proof fn law_digits_read_back(value: nat, base: nat)
    requires
        2 <= base <= 16,
    ensures
        digits_of(value, base).len() > 0,
        digits_value(digits_of(value, base), base) == Some(value),
    decreases value,
{
    if value < base {
        lemma_digit_back(value, base);
        assert(digits_of(value, base).last() == digit_char(value as int));
    } else {
        assert(value / base < value) by (nonlinear_arith)
            requires
                value >= base,
                base >= 2,
        ;
        law_digits_read_back(value / base, base);
        assert(value % base < base) by (nonlinear_arith)
            requires
                base >= 2,
        ;
        lemma_digit_back(value % base, base);
        let digits = digits_of(value, base);
        assert(digits.drop_last() =~= digits_of(value / base, base));
        assert(digits.last() == digit_char((value % base) as int));
        assert((value / base) * base + value % base == value) by (nonlinear_arith)
            requires
                base >= 2,
        ;
    }
}

/// Zeros in front leave a number as it is.
proof fn lemma_leading_zeros(count: nat, digits: Seq<char>, base: nat)
    requires
        2 <= base <= 16,
        digits_value(digits, base) is Some,
    ensures
        digits_value(Seq::new(count, |i: int| '0') + digits, base) == digits_value(digits, base),
    decreases digits.len(), count,
{
    let zeros = Seq::new(count, |i: int| '0');
    let whole = zeros + digits;
    if count == 0 {
        assert(whole =~= digits);
    } else if digits.len() == 1 {
        assert(whole.drop_last() =~= zeros);
        lemma_zeros(count, base);
        assert(whole.last() == digits[0]);
        assert(0nat * base == 0) by (nonlinear_arith);
    } else {
        assert(whole.drop_last() =~= zeros + digits.drop_last());
        assert(whole.last() == digits.last());
        lemma_leading_zeros(count, digits.drop_last(), base);
    }
}

proof fn lemma_zeros(count: nat, base: nat)
    requires
        2 <= base <= 16,
        count > 0,
    ensures
        digits_value(Seq::new(count, |i: int| '0'), base) == Some(0nat),
    decreases count,
{
    let zeros = Seq::new(count, |i: int| '0');
    assert(zeros.last() == '0');
    if count > 1 {
        assert(zeros.drop_last() =~= Seq::new((count - 1) as nat, |i: int| '0'));
        lemma_zeros((count - 1) as nat, base);
        assert(0nat * base == 0) by (nonlinear_arith);
    }
}

/// A number written in eight hexadecimal digits or more is read back as itself.
pub proof fn law_hex_reads_back(value: nat)
    ensures
        digits_value(hex8(value), 16) == Some(value),
{
    law_digits_read_back(value, 16);
    let digits = digits_of(value, 16);
    if digits.len() < 8 {
        lemma_leading_zeros((8 - digits.len()) as nat, digits, 16);
    }
}

proof fn lemma_first_digit(value: nat, base: nat)
    requires
        2 <= base <= 16,
    ensures
        digits_of(value, base).len() > 0,
        digits_of(value, base)[0] != '-',
        digits_of(value, base)[0] != '+',
    decreases value,
{
    if value >= base {
        assert(value / base < value) by (nonlinear_arith)
            requires
                value >= base,
                base >= 2,
        ;
        lemma_first_digit(value / base, base);
    }
}

/// A number written in hexadecimal starts with a digit, not with a sign.
pub proof fn lemma_hex_starts_with_digit(value: nat)
    ensures
        hex8(value).len() > 0,
        hex8(value)[0] != '-',
        hex8(value)[0] != '+',
{
    lemma_first_digit(value, 16);
}

/// A number in decimal consists of digits.
proof fn lemma_digits_only(value: nat)
    ensures
        digits_of(value, 10).len() > 0,
        forall|i: int|
            0 <= i < digits_of(value, 10).len() ==> '0' <= #[trigger] digits_of(value, 10)[i]
                <= '9',
    decreases value,
{
    if value >= 10 {
        lemma_digits_only(value / 10);
    }
}

/// A number in decimal consists of digits, behind a minus sign where it is negative.
pub proof fn lemma_decimal_chars(value: int)
    ensures
        decimal_of(value).len() > 0,
        forall|i: int|
            0 <= i < decimal_of(value).len() ==> (#[trigger] decimal_of(value)[i] == '-' || '0'
                <= decimal_of(value)[i] <= '9'),
{
    if value < 0 {
        lemma_digits_only((-value) as nat);
    } else {
        lemma_digits_only(value as nat);
    }
}

/// A signed 64 bit number written in decimal is read back as itself.
pub proof fn law_decimal_reads_back(value: i64)
    ensures
        parsed_int(decimal_of(value as int), 10) == Some(value as int),
{
    if value < 0 {
        let digits = digits_of((-value) as nat, 10);
        law_digits_read_back((-value) as nat, 10);
        assert((seq!['-'] + digits).skip(1) =~= digits);
    } else {
        law_digits_read_back(value as nat, 10);
        lemma_first_digit(value as nat, 10);
    }
}

/// The digit of each value below sixteen: '0' to '9', 'a' to 'f'.
pub proof fn law_digits_are_lower_case(value: nat, base: nat)
    requires
        2 <= base <= 16,
    ensures
        value < 10 ==> digit_char(value as int) as int == 48 + value,
        10 <= value < 16 ==> digit_char(value as int) as int == 87 + value,
        forall|i: int|
            0 <= i < digits_of(value, base).len() ==> {
                let ch = #[trigger] digits_of(value, base)[i] as int;
                48 <= ch < 58 || 97 <= ch < 103
            },
    decreases value,
{
    if value >= base {
        assert(value / base < value) by (nonlinear_arith)
            requires
                value >= base,
                base >= 2,
        ;
        assert(value % base < base) by (nonlinear_arith)
            requires
                base >= 2,
        ;
        law_digits_are_lower_case(value / base, base);
        let head = digits_of(value / base, base);
        assert forall|i: int| 0 <= i < digits_of(value, base).len() implies {
            let ch = #[trigger] digits_of(value, base)[i] as int;
            48 <= ch < 58 || 97 <= ch < 103
        } by {
            if i < head.len() {
                assert(digits_of(value, base)[i] == head[i]);
            }
        }
    }
}

/// A number is written without leading zeros: its first digit is zero only where it is zero.
pub proof fn law_no_leading_zero(value: nat, base: nat)
    requires
        2 <= base <= 16,
    ensures
        digits_of(value, base).len() > 0,
        digits_of(value, base)[0] == '0' <==> value == 0,
    decreases value,
{
    if value >= base {
        assert(0 < value / base < value) by (nonlinear_arith)
            requires
                value >= base,
                base >= 2,
        ;
        law_no_leading_zero(value / base, base);
    }
}

/// What is brought up to a width ends as it was, behind zeros alone, and is no shorter than the width
/// and no longer than need be.
pub proof fn law_padding_is_zeros(chars: Seq<char>, width: nat)
    ensures
        zero_padded(chars, width).len() == (if chars.len() < width {
            width
        } else {
            chars.len()
        }),
        zero_padded(chars, width).skip(zero_padded(chars, width).len() - chars.len()) =~= chars,
        forall|i: int|
            0 <= i < zero_padded(chars, width).len() - chars.len() ==> #[trigger] zero_padded(
                chars,
                width,
            )[i] == '0',
{
}

proof fn lemma_hex_len(value: nat, width: nat)
    requires
        1 <= width <= 8,
        value < pow(16, width),
    ensures
        digits_of(value, 16).len() <= width,
    decreases width,
{
    reveal_with_fuel(pow, 2);
    if value >= 16 {
        assert(width > 1) by {
            if width == 1 {
                assert(pow(16, 1) == 16 * pow(16, 0));
            }
        }
        assert(pow(16, width) == 16 * pow(16, (width - 1) as nat));
        lemma_hex_len(value / 16, (width - 1) as nat);
    }
}

/// A number of 32 bits is written in exactly eight hexadecimal digits, and no number in fewer.
pub proof fn law_hex_width(value: nat)
    ensures
        hex8(value).len() >= 8,
        value < 0x1_0000_0000 ==> hex8(value).len() == 8,
{
    if value < 0x1_0000_0000 {
        assert(pow(16, 8) == 0x1_0000_0000) by {
            reveal_with_fuel(pow, 9);
        }
        lemma_hex_len(value, 8);
    }
}

/// A 64 bit number and its bit pattern are the same but for multiples of two to the 64.
pub proof fn law_pattern_is_residue(value: i64)
    ensures
        twos_complement(value as int) == value as int % 0x1_0000_0000_0000_0000,
{
}

/// Digits read as the number that they write out, the highest first: one more digit behind them
/// counts once and makes the others count by the base.
pub proof fn law_digits_read_by_place(digits: Seq<char>, last: char, base: nat)
    requires
        2 <= base <= 16,
        digits.len() > 0,
    ensures
        digits_value(digits.push(last), base) == (match (
            digits_value(digits, base),
            digits_value(seq![last], base),
        ) {
            (Some(high), Some(low)) => Some(high * base + low),
            _ => None,
        }),
{
    assert(digits.push(last).drop_last() =~= digits);
    assert(seq![last].last() == last);
}

/// What a single digit is worth: '0' to '9' as they stand, letters of either case from ten on, and
/// only what is below the base.
pub proof fn law_digit_worth(ch: char, base: nat)
    requires
        2 <= base <= 16,
    ensures
        digits_value(seq![ch], base) == (if 48 <= ch as int && (ch as int) < 58 && ch as int - 48
            < base {
            Some((ch as int - 48) as nat)
        } else if 97 <= ch as int && (ch as int) < 103 && ch as int - 87 < base {
            Some((ch as int - 87) as nat)
        } else if 65 <= ch as int && (ch as int) < 71 && ch as int - 55 < base {
            Some((ch as int - 55) as nat)
        } else {
            None
        }),
{
    assert(seq![ch].last() == ch);
}

/// A sign before digits: a minus negates the number, a plus leaves it, and two signs are none that
/// can be read. What does not fit in 64 bits, or has no digit, is not read.
pub proof fn law_signs(digits: Seq<char>, base: nat)
    requires
        2 <= base <= 16,
    ensures
        digits_value(digits, base) matches Some(v) ==> {
            &&& parsed_int(seq!['-'] + digits, base) == (if v <= 0x8000_0000_0000_0000 {
                Some(-(v as int))
            } else {
                None
            })
            &&& parsed_int(seq!['+'] + digits, base) == (if v < 0x8000_0000_0000_0000 {
                Some(v as int)
            } else {
                None
            })
        },
        digits_value(digits, base) is None ==> parsed_int(seq!['-'] + digits, base) is None
            && parsed_int(seq!['+'] + digits, base) is None,
        parsed_int(Seq::empty(), base) is None,
{
    assert((seq!['-'] + digits).skip(1) =~= digits);
    assert((seq!['+'] + digits).skip(1) =~= digits);
}

/// Without a sign a text is read as its digits, where they fit in 64 bits with a sign.
pub proof fn law_unsigned_reads_as_digits(text: Seq<char>, base: nat)
    requires
        2 <= base <= 16,
        text.len() > 0,
        text[0] != '-',
        text[0] != '+',
    ensures
        parsed_int(text, base) == (match digits_value(text, base) {
            Some(v) => if v < 0x8000_0000_0000_0000 {
                Some(v as int)
            } else {
                None
            },
            None => None,
        }),
{
}

/// A minus sign stands before the digits of a negative number and of no other; a number and its
/// opposite have the same digits.
pub proof fn law_minus_for_negative(value: int)
    ensures
        value < 0 ==> decimal_of(value) =~= seq!['-'] + decimal_of(-value),
        value < 0 ==> decimal_of(value)[0] == '-',
        value >= 0 ==> decimal_of(value) == digits_of(value as nat, 10),
        value >= 0 ==> decimal_of(value).len() > 0 && decimal_of(value)[0] != '-',
{
    if value >= 0 {
        law_digits_are_lower_case(value as nat, 10);
        reveal_with_fuel(digits_of, 2);
        assert(48 <= digits_of(value as nat, 10)[0] as int);
    }
}

} // verus!
