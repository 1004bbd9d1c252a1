//! Numbers in decimal and hexadecimal notation.
use crate::text::chars_of;
use vstd::prelude::*;

verus! {

/// The decimal digit of value `d`.
pub open spec fn digit_char(d: nat) -> char {
    ('0' as u32 + d) as char
}

/// The character is a decimal digit.
pub open spec fn is_digit(c: char) -> bool {
    '0' as u32 <= c as u32 <= '9' as u32
}

/// The value of a decimal digit.
pub open spec fn digit_value(c: char) -> nat {
    (c as u32 - '0' as u32) as nat
}

/// `n` in decimal notation, without leading zeros.
pub open spec fn nat_text(n: nat) -> Seq<char>
    decreases n,
{
    if n < 10 {
        seq![digit_char(n)]
    } else {
        nat_text(n / 10).push(digit_char(n % 10))
    }
}

/// `n` in decimal notation, with a minus sign where it is negative.
pub open spec fn int_text(n: int) -> Seq<char> {
    if n < 0 {
        seq!['-'] + nat_text((-n) as nat)
    } else {
        nat_text(n as nat)
    }
}

/// Every character is a decimal digit.
pub open spec fn all_digits(s: Seq<char>) -> bool {
    forall|i: int| 0 <= i < s.len() ==> is_digit(#[trigger] s[i])
}

/// The number that a sequence of decimal digits denotes.
pub open spec fn digits_value(s: Seq<char>) -> nat
    decreases s.len(),
{
    if s.len() == 0 {
        0
    } else {
        digits_value(s.drop_last()) * 10 + digit_value(s.last())
    }
}

/// The digits of a number in decimal notation, without the sign before them.
pub open spec fn unsigned_part(s: Seq<char>) -> Seq<char> {
    if s.len() > 0 && (s[0] == '+' || s[0] == '-') {
        s.drop_first()
    } else {
        s
    }
}

/// The integer that an optional sign and the digits after it denote.
pub open spec fn signed_value(s: Seq<char>) -> int {
    if s.len() > 0 && s[0] == '-' {
        -(digits_value(unsigned_part(s)) as int)
    } else {
        digits_value(unsigned_part(s)) as int
    }
}

/// The 64-bit integer that `s` writes in decimal: an optional sign and at least one
/// digit, with a value in range.
pub open spec fn parsed_i64(s: Seq<char>) -> Option<i64> {
    if unsigned_part(s).len() > 0 && all_digits(unsigned_part(s)) && i64::MIN <= signed_value(s)
        <= i64::MAX {
        Some(signed_value(s) as i64)
    } else {
        None
    }
}

/// `n` in octal notation, without leading zeros.
pub open spec fn octal_text(n: nat) -> Seq<char>
    decreases n,
{
    if n < 8 {
        seq![digit_char(n)]
    } else {
        octal_text(n / 8).push(digit_char(n % 8))
    }
}

/// The upper-case hexadecimal digit of value `d`.
pub open spec fn hex_char(d: nat) -> char {
    if d < 10 {
        ('0' as u32 + d) as char
    } else {
        ('A' as u32 + (d - 10)) as char
    }
}

/// A number below 65536 as four upper-case hexadecimal digits.
pub open spec fn hex4(code: nat) -> Seq<char> {
    seq![
        hex_char(code / 4096 % 16),
        hex_char(code / 256 % 16),
        hex_char(code / 16 % 16),
        hex_char(code % 16),
    ]
}

/// The hexadecimal digit of value `d`.
fn hex_digit(d: u32) -> (c: char)
    requires
        d < 16,
    ensures
        c == hex_char(d as nat),
{
    match d {
        0 => '0',
        1 => '1',
        2 => '2',
        3 => '3',
        4 => '4',
        5 => '5',
        6 => '6',
        7 => '7',
        8 => '8',
        9 => '9',
        10 => 'A',
        11 => 'B',
        12 => 'C',
        13 => 'D',
        14 => 'E',
        _ => 'F',
    }
}

/// Appends `code` as four upper-case hexadecimal digits.
pub fn push_hex4(out: &mut String, code: u32)
    requires
        code < 65536,
    ensures
        final(out)@ == old(out)@ + hex4(code as nat),
{
    out.push(hex_digit(code / 4096 % 16));
    out.push(hex_digit(code / 256 % 16));
    out.push(hex_digit(code / 16 % 16));
    out.push(hex_digit(code % 16));
    assert(out@ =~= old(out)@ + hex4(code as nat));
}

/// The decimal digit of value `d`.
fn decimal_digit(d: u64) -> (c: char)
    requires
        d < 10,
    ensures
        c == digit_char(d as nat),
{
    match d {
        0 => '0',
        1 => '1',
        2 => '2',
        3 => '3',
        4 => '4',
        5 => '5',
        6 => '6',
        7 => '7',
        8 => '8',
        _ => '9',
    }
}

/// Appends `n` in decimal notation.
pub fn push_u64(out: &mut String, n: u64)
    ensures
        final(out)@ == old(out)@ + nat_text(n as nat),
    decreases n,
{
    if n >= 10 {
        push_u64(out, n / 10);
    }
    out.push(decimal_digit(n % 10));
    assert(out@ =~= old(out)@ + nat_text(n as nat));
}

/// Appends `n` in octal notation.
fn push_octal(out: &mut String, n: u64)
    ensures
        final(out)@ == old(out)@ + octal_text(n as nat),
    decreases n,
{
    if n >= 8 {
        push_octal(out, n / 8);
    }
    out.push(decimal_digit(n % 8));
    assert(out@ =~= old(out)@ + octal_text(n as nat));
}

/// `n` in octal notation.
pub fn u32_to_octal(n: u32) -> (s: String)
    ensures
        s@ == octal_text(n as nat),
{
    let mut s = String::new();
    push_octal(&mut s, n as u64);
    assert(s@ =~= octal_text(n as nat));
    s
}

/// `n` in decimal notation.
pub fn i64_to_text(n: i64) -> (s: String)
    ensures
        s@ == int_text(n as int),
{
    let mut s = String::new();
    if n < 0 {
        s.push('-');
        let magnitude: u64 = if n == i64::MIN {
            0x8000_0000_0000_0000
        } else {
            (-n) as u64
        };
        push_u64(&mut s, magnitude);
        assert(s@ =~= int_text(n as int));
    } else {
        push_u64(&mut s, n as u64);
        assert(s@ =~= int_text(n as int));
    }
    s
}

/// Digits that go on denote a number at least as large.
proof fn lemma_digits_value_grows(s: Seq<char>, n: int)
    requires
        0 <= n <= s.len(),
    ensures
        digits_value(s.take(n)) <= digits_value(s),
    decreases s.len(),
{
    if n == s.len() {
        assert(s.take(n) =~= s);
    } else {
        lemma_digits_value_grows(s.drop_last(), n);
        assert(s.drop_last().take(n) =~= s.take(n));
    }
}

/// The integer that `s` writes in decimal, where it is one of 64 bits.
pub fn parse_i64(s: &str) -> (result: Option<i64>)
    ensures
        result == parsed_i64(s@),
{
    let chars = chars_of(s);
    let negative = chars.len() > 0 && chars[0] == '-';
    let start: usize = if chars.len() > 0 && (chars[0] == '+' || chars[0] == '-') {
        1
    } else {
        0
    };
    let ghost digits = unsigned_part(s@);
    assert(digits =~= chars@.skip(start as int));
    if start == chars.len() {
        return None;
    }
    let mut value: i128 = 0;
    let mut i: usize = start;
    assert(digits.take(0) =~= Seq::empty());
    while i < chars.len()
        invariant
            chars@ == s@,
            start <= i <= chars@.len(),
            digits == unsigned_part(s@),
            digits == chars@.skip(start as int),
            forall|j: int| 0 <= j < i - start ==> is_digit(#[trigger] digits[j]),
            value == digits_value(digits.take(i - start)),
            0 <= value <= 0x8000_0000_0000_0000,
        decreases chars@.len() - i,
    {
        let c = chars[i];
        assert(digits[i - start] == c);
        let code: u32 = c as u32;
        if code < '0' as u32 || code > '9' as u32 {
            assert(!all_digits(digits));
            return None;
        }
        assert(digits.take(i + 1 - start).drop_last() =~= digits.take(i - start));
        value = value * 10 + (code - '0' as u32) as i128;
        if value > 0x8000_0000_0000_0000 {
            proof {
                lemma_digits_value_grows(digits, i + 1 - start);
            }
            return None;
        }
        i += 1;
    }
    assert(digits.take(digits.len() as int) =~= digits);
    assert(all_digits(digits));
    if negative {
        value = -value;
    }
    if value > i64::MAX as i128 {
        return None;
    }
    Some(value as i64)
}

/// The digits of a decimal notation denote the number that was written.
pub proof fn lemma_nat_text_reads_back(n: nat)
    ensures
        nat_text(n).len() > 0,
        all_digits(nat_text(n)),
        digits_value(nat_text(n)) == n,
    decreases n,
{
    if n < 10 {
        assert(is_digit(digit_char(n)));
        assert(nat_text(n).drop_last() =~= Seq::empty());
        assert(digits_value(nat_text(n).drop_last()) == 0);
    } else {
        lemma_nat_text_reads_back(n / 10);
        assert(is_digit(digit_char(n % 10)));
        assert(nat_text(n).drop_last() =~= nat_text(n / 10));
    }
}

/// Writing a 64-bit integer in decimal and reading the text gives the integer back.
pub proof fn law_integer_text_reads_back(n: i64)
    ensures
        parsed_i64(int_text(n as int)) == Some(n),
{
    if n < 0 {
        let text = int_text(n as int);
        lemma_nat_text_reads_back((-n) as nat);
        assert(unsigned_part(text) =~= nat_text((-n) as nat));
    } else {
        lemma_nat_text_reads_back(n as nat);
        let text = nat_text(n as nat);
        assert(is_digit(text[0]));
        assert(unsigned_part(text) =~= text);
    }
}

proof fn lemma_digit(c: char)
    ensures
        is_digit(c) <==> 48 <= c as int <= 57,
{
}

/// Only decimal notation is read: a digit, or a sign that something follows, and digits
/// behind it.
pub proof fn law_only_decimal_notation_is_read(s: Seq<char>, i: int)
    requires
        parsed_i64(s) is Some,
        0 < i < s.len(),
    ensures
        48 <= s[i] as int <= 57,
        48 <= s[0] as int <= 57 || s[0] == '+' || s[0] == '-',
{
    let digits = unsigned_part(s);
    assert(digits.len() > 0 && all_digits(digits));
    lemma_digit(s[i]);
    lemma_digit(s[0]);
    if digits == s {
        assert(is_digit(s[i]));
        assert(is_digit(s[0]));
    } else {
        assert(is_digit(digits[i - 1]));
    }
}

/// Neither nothing nor a sign alone is a number; one character is where it is a digit.
pub proof fn law_single_digits_are_read(c: char)
    ensures
        parsed_i64(Seq::<char>::empty()) is None,
        48 <= c as int <= 57 ==> parsed_i64(seq![c]) == Some((c as int - 48) as i64),
        !(48 <= c as int <= 57) ==> parsed_i64(seq![c]) is None,
{
    let s = seq![c];
    assert(s.drop_last() =~= Seq::empty());
    assert(digits_value(s.drop_last()) == 0);
    if 48 <= c as int <= 57 {
        assert(unsigned_part(s) =~= s);
        assert(all_digits(s));
        assert(digits_value(s) == digit_value(c));
    } else if c == '+' || c == '-' {
        assert(unsigned_part(s) =~= Seq::empty());
    } else {
        assert(!is_digit(s[0]));
    }
}

/// One more digit makes ten times the number and the digit, where that is an integer of 64
/// bits, and no number where it is not.
pub proof fn law_digits_count_tenfold(s: Seq<char>, c: char)
    requires
        s.len() > 0,
        forall|i: int| 0 <= i < s.len() ==> 48 <= (#[trigger] s[i]) as int <= 57,
        48 <= c as int <= 57,
    ensures
        match parsed_i64(s) {
            Some(n) => 0 <= n && if n * 10 + (c as int - 48) <= i64::MAX {
                parsed_i64(s.push(c)) == Some((n * 10 + (c as int - 48)) as i64)
            } else {
                parsed_i64(s.push(c)) is None
            },
            None => parsed_i64(s.push(c)) is None,
        },
{
    let t = s.push(c);
    assert(48 <= s[0] as int <= 57);
    assert(t[0] == s[0]);
    assert(unsigned_part(s) =~= s);
    assert(unsigned_part(t) =~= t);
    assert forall|i: int| 0 <= i < s.len() implies is_digit(#[trigger] s[i]) by {
        assert(48 <= s[i] as int <= 57);
    }
    assert forall|i: int| 0 <= i < t.len() implies is_digit(#[trigger] t[i]) by {
        if i < s.len() {
            assert(is_digit(s[i]));
        }
    }
    assert(all_digits(s) && all_digits(t));
    assert(t.drop_last() =~= s);
    assert(t.last() == c);
}

/// A plus sign before digits changes nothing. A minus sign makes the number negative; the
/// only number that digits write with it and not without it is the least one.
pub proof fn law_signs_stand_before_digits(s: Seq<char>)
    requires
        s.len() > 0,
        forall|i: int| 0 <= i < s.len() ==> 48 <= (#[trigger] s[i]) as int <= 57,
    ensures
        parsed_i64(seq!['+'] + s) == parsed_i64(s),
        match parsed_i64(s) {
            Some(n) => 0 <= n && parsed_i64(seq!['-'] + s) == Some((-n) as i64),
            None => match parsed_i64(seq!['-'] + s) {
                Some(n) => n == i64::MIN,
                None => true,
            },
        },
{
    assert(48 <= s[0] as int <= 57);
    assert(unsigned_part(s) =~= s);
    assert((seq!['+'] + s).drop_first() =~= s);
    assert((seq!['-'] + s).drop_first() =~= s);
    assert(unsigned_part(seq!['+'] + s) =~= s);
    assert(unsigned_part(seq!['-'] + s) =~= s);
    assert forall|i: int| 0 <= i < s.len() implies is_digit(#[trigger] s[i]) by {
        assert(48 <= s[i] as int <= 57);
    }
    assert(all_digits(s));
}

/// A number is written with a digit for each power of ten and without leading zeros, and a
/// negative one with a minus sign before it.
pub proof fn law_numbers_are_written_in_decimal(n: int, d: int)
    requires
        0 <= d < 10,
    ensures
        int_text(d).len() == 1,
        int_text(d)[0] as int == 48 + d,
        n > 0 ==> int_text(n * 10 + d) == int_text(n) + int_text(d),
        n > 0 ==> int_text(-n) == seq!['-'] + int_text(n),
        n >= 0 ==> nat_text(n as nat) == int_text(n),
{
    if n > 0 {
        assert((n * 10 + d) / 10 == n);
        assert((n * 10 + d) % 10 == d);
        assert(int_text(n * 10 + d) =~= int_text(n) + int_text(d));
    }
}

/// A number is written with a digit for each power of eight and without leading zeros.
pub proof fn law_modes_are_written_in_octal(n: nat, d: nat)
    requires
        d < 8,
    ensures
        octal_text(d).len() == 1,
        octal_text(d)[0] as int == 48 + d,
        n > 0 ==> octal_text(n * 8 + d) == octal_text(n) + octal_text(d),
{
    if n > 0 {
        assert((n * 8 + d) / 8 == n);
        assert((n * 8 + d) % 8 == d);
        assert(octal_text(n * 8 + d) =~= octal_text(n) + octal_text(d));
    }
}

/// Four hexadecimal digits, in upper case, write a number below 65536: the last one counts
/// the ones, and those before it write a sixteenth of the number.
pub proof fn law_codes_are_written_in_hexadecimal(n: nat, d: nat)
    requires
        n < 4096,
        d < 16,
    ensures
        hex4(d) == seq!['0', '0', '0', "0123456789ABCDEF"@[d as int]],
        hex4(n * 16 + d).len() == 4,
        hex4(n * 16 + d)[3] == hex4(d)[3],
        hex4(n * 16 + d).take(3) == hex4(n).skip(1),
{
    reveal_strlit("0123456789ABCDEF");
    let code = n * 16 + d;
    assert(hex4(d) =~= seq!['0', '0', '0', "0123456789ABCDEF"@[d as int]]) by {
        assert(d / 4096 % 16 == 0 && d / 256 % 16 == 0 && d / 16 % 16 == 0 && d % 16 == d);
        assert(hex_char(0) == '0');
        assert(hex_char(d) == "0123456789ABCDEF"@[d as int]);
    }
    assert(code % 16 == d);
    assert(code / 16 == n);
    assert(code / 256 == n / 16);
    assert(code / 4096 == n / 256);
    assert(hex4(code).take(3) =~= hex4(n).skip(1));
}

}
