use vstd::prelude::*;

use crate::text::chars_of;

verus! {

/// A decimal digit.
pub open spec fn is_digit(c: char) -> bool {
    '0' <= c <= '9'
}

/// The number that a row of decimal digits writes.
pub open spec fn decimal(digits: Seq<char>) -> nat
    decreases digits.len(),
{
    if digits.len() == 0 {
        0
    } else {
        10 * decimal(digits.drop_last()) + (digits.last() as nat - '0' as nat) as nat
    }
}

/// What follows the optional `+` sign of a number.
pub open spec fn unsigned_part(text: Seq<char>) -> Seq<char> {
    if text.len() > 0 && text[0] == '+' {
        text.skip(1)
    } else {
        text
    }
}

/// An optional `+` sign and then digits, at least one of them, and nothing else.
pub open spec fn is_number(text: Seq<char>) -> bool {
    let digits = unsigned_part(text);
    digits.len() > 0 && all_digits(digits)
}

/// The number that `text` writes, where it writes one that 32 bits hold.
pub open spec fn number(text: Seq<char>) -> Option<u32> {
    if is_number(text) && decimal(unsigned_part(text)) <= u32::MAX {
        Some(decimal(unsigned_part(text)) as u32)
    } else {
        None
    }
}

/// Why a text that is not empty writes no 32-bit number.
#[derive(Debug, Clone, Copy, PartialEq, Eq, Structural)]
pub enum NumberError {
    /// It holds something that is no digit, or nothing but a sign.
    InvalidDigit,
    /// The number takes more than 32 bits.
    TooLarge,
}

/// Digits and nothing else, or nothing at all.
pub open spec fn all_digits(text: Seq<char>) -> bool {
    forall|i: int| 0 <= i < text.len() ==> is_digit(#[trigger] text[i])
}

/// The first `i` characters are digits that write too large a number.
pub open spec fn too_large_at(digits: Seq<char>, i: int) -> bool {
    &&& 0 <= i <= digits.len()
    &&& all_digits(digits.take(i))
    &&& decimal(digits.take(i)) > u32::MAX
}

/// Why `text` writes no 32-bit number. A text is read from left to right, so that digits that
/// write too large a number decide before anything that comes after them.
pub open spec fn number_fault(text: Seq<char>) -> NumberError {
    if exists|i: int| too_large_at(unsigned_part(text), i) {
        NumberError::TooLarge
    } else {
        NumberError::InvalidDigit
    }
}

/// How a fault is put to the user.
pub open spec fn number_fault_text(fault: NumberError) -> Seq<char> {
    match fault {
        NumberError::InvalidDigit => "invalid digit found in string"@,
        NumberError::TooLarge => "number too large to fit in target type"@,
    }
}

impl NumberError {
    /// How the error is put to the user.
    pub fn text(&self) -> (text: String)
        ensures
            text@ == number_fault_text(*self),
    {
        match self {
            NumberError::InvalidDigit => "invalid digit found in string".to_owned(),
            NumberError::TooLarge => "number too large to fit in target type".to_owned(),
        }
    }
}

proof fn lemma_decimal_grows(digits: Seq<char>, i: int)
    requires
        0 <= i <= digits.len(),
        all_digits(digits),
    ensures
        decimal(digits.take(i)) <= decimal(digits),
    decreases digits.len(),
{
    if i < digits.len() {
        lemma_decimal_grows(digits.drop_last(), i);
        assert(digits.drop_last().take(i) =~= digits.take(i));
    } else {
        assert(digits.take(i) =~= digits);
    }
}

/// Where reading gets to a character that is no digit, or to the end, by digits that do not
/// write too large a number, no row of leading digits does.
proof fn lemma_invalid_digit(digits: Seq<char>, k: int)
    requires
        0 <= k <= digits.len(),
        k < digits.len() ==> !is_digit(digits[k]),
        all_digits(digits.take(k)),
        decimal(digits.take(k)) <= u32::MAX,
    ensures
        forall|i: int| !too_large_at(digits, i),
{
    assert forall|i: int| !too_large_at(digits, i) by {
        if too_large_at(digits, i) {
            if i <= k {
                lemma_decimal_grows(digits.take(k), i);
                assert(digits.take(k).take(i) =~= digits.take(i));
            } else {
                assert(digits.take(i)[k] == digits[k]);
            }
        }
    }
}

/// Reads a 32-bit number in decimal.
pub(crate) fn parse_number(text: &str) -> (parsed: Result<u32, NumberError>)
    requires
        text@.len() > 0,
    ensures
        match parsed {
            Ok(n) => number(text@) == Some(n),
            Err(error) => number(text@) is None && error == number_fault(text@),
        },
{
    let chars = chars_of(text);
    let start: usize = if chars[0] == '+' {
        1
    } else {
        0
    };
    let ghost digits = unsigned_part(text@);
    assert(text@.skip(start as int) =~= digits);
    assert(digits.take(0) =~= Seq::<char>::empty());
    if start == chars.len() {
        proof {
            lemma_invalid_digit(digits, 0);
        }
        return Err(NumberError::InvalidDigit);
    }
    let mut value: u64 = 0;
    let mut i: usize = start;
    while i < chars.len()
        invariant
            chars@ == text@,
            start <= i <= chars@.len(),
            digits == unsigned_part(text@),
            digits == text@.skip(start as int),
            digits.len() > 0,
            all_digits(digits.take(i - start)),
            value == decimal(digits.take(i - start)),
            value <= u32::MAX,
        decreases chars@.len() - i,
    {
        let c = chars[i];
        assert(digits[i - start] == c);
        if c < '0' || '9' < c {
            proof {
                assert(!is_digit(digits[i - start]));
                lemma_invalid_digit(digits, i - start);
            }
            return Err(NumberError::InvalidDigit);
        }
        let digit: u64 = c as u64 - '0' as u64;
        let ghost next = digits.take(i - start + 1);
        proof {
            assert(next.drop_last() =~= digits.take(i - start));
            assert forall|j: int| 0 <= j < next.len() implies is_digit(#[trigger] next[j]) by {
                if j < i - start {
                    assert(next[j] == digits.take(i - start)[j]);
                }
            }
        }
        value = 10 * value + digit;
        i += 1;
        if value > u32::MAX as u64 {
            proof {
                assert(too_large_at(digits, i - start));
                if is_number(text@) {
                    lemma_decimal_grows(digits, i - start);
                }
            }
            return Err(NumberError::TooLarge);
        }
    }
    assert(digits.take(i - start) =~= digits);
    Ok(value as u32)
}

/// The digit that writes `n`.
pub open spec fn digit(n: nat) -> char {
    ('0' as nat + n) as char
}

/// `n` in decimal, without leading zeros.
pub open spec fn decimal_text(n: nat) -> Seq<char>
    decreases n,
{
    if n < 10 {
        seq![digit(n)]
    } else {
        decimal_text(n / 10).push(digit(n % 10))
    }
}

/// A number that was written in decimal reads as itself.
pub proof fn lemma_decimal_text(n: u32)
    ensures
        number(decimal_text(n as nat)) == Some(n),
{
    lemma_decimal_text_digits(n as nat);
    let digits = decimal_text(n as nat);
    assert(is_digit(digits[0]));
    assert(unsigned_part(digits) == digits);
}

proof fn lemma_decimal_text_digits(n: nat)
    ensures
        decimal(decimal_text(n)) == n,
        decimal_text(n).len() > 0,
        forall|i: int| 0 <= i < decimal_text(n).len() ==> is_digit(#[trigger] decimal_text(n)[i]),
    decreases n,
{
    let digits = decimal_text(n);
    if n < 10 {
        assert(digits.drop_last() =~= Seq::<char>::empty());
        assert(decimal(digits.drop_last()) == 0);
    } else {
        lemma_decimal_text_digits(n / 10);
        assert(digits.drop_last() =~= decimal_text(n / 10));
    }
}

/// Writes a number in decimal.
pub(crate) fn write_number(n: u64) -> (text: String)
    ensures
        text@ == decimal_text(n as nat),
    decreases n,
{
    let last: usize = (n % 10) as usize;
    proof {
        reveal_strlit("0123456789");
    }
    let written = "0123456789".substring_char(last, last + 1);
    assert(written@ =~= seq![digit((n % 10) as nat)]);
    if n < 10 {
        written.to_owned()
    } else {
        let text = write_number(n / 10).concat(written);
        assert(text@ =~= decimal_text(n as nat));
        text
    }
}

/// A digit reads as its value.
pub proof fn law_digit_reads(c: char)
    requires
        '0' <= c <= '9',
    ensures
        number(seq![c]) == Some((c as u32 - '0' as u32) as u32),
{
    let text = seq![c];
    assert(is_digit(text[0]));
    assert(text.drop_last() =~= Seq::<char>::empty());
    assert(decimal(text.drop_last()) == 0);
    assert(decimal(text) == c as nat - '0' as nat);
}

/// A further digit makes a number ten times as large, and adds its value. What no longer fits
/// into 32 bits is no number.
pub proof fn law_digits_add_up(text: Seq<char>, c: char)
    requires
        text.len() > 0,
        text[0] != '+',
        '0' <= c <= '9',
    ensures
        number(text.push(c)) == match number(text) {
            Some(n) => if 10 * n + (c as u32 - '0' as u32) <= u32::MAX {
                Some((10 * n + (c as u32 - '0' as u32)) as u32)
            } else {
                None
            },
            None => None,
        },
{
    let longer = text.push(c);
    assert(longer.drop_last() =~= text);
    assert(decimal(longer) == 10 * decimal(text) + (c as nat - '0' as nat));
    if is_number(text) {
        assert forall|i: int| 0 <= i < longer.len() implies is_digit(#[trigger] longer[i]) by {
            if i < text.len() {
                assert(is_digit(text[i]));
            }
        }
    } else {
        let i = choose|i: int| 0 <= i < text.len() && !is_digit(#[trigger] text[i]);
        assert(!is_digit(longer[i]));
    }
}

/// A `+` sign in front of a number changes nothing.
pub proof fn law_sign_is_optional(text: Seq<char>)
    requires
        text.len() > 0,
        text[0] != '+',
    ensures
        number(seq!['+'] + text) == number(text),
{
    assert((seq!['+'] + text).skip(1) =~= text);
}

/// What holds anything but digits behind an optional `+` sign is no number, and neither is
/// nothing, nor a sign alone.
pub proof fn law_only_digits_are_numbers(text: Seq<char>, i: int)
    requires
        text.len() == 0 || text == seq!['+'] || (0 <= i < text.len() && !('0' <= text[i] <= '9')
            && !(i == 0 && text[i] == '+')),
    ensures
        number(text) is None,
{
    let digits = unsigned_part(text);
    if text.len() > 0 && text != seq!['+'] {
        if text[0] == '+' {
            assert(digits[i - 1] == text[i]);
            assert(!is_digit(digits[i - 1]));
        } else {
            assert(!is_digit(digits[i]));
        }
    }
}

/// A number is written digit by digit, the last one last, and without leading zeros.
pub proof fn law_number_is_written(n: nat, last: nat)
    requires
        last < 10,
    ensures
        n == 0 ==> decimal_text(last) == seq![(48 + last) as char],
        n > 0 ==> decimal_text(10 * n + last) == decimal_text(n).push((48 + last) as char),
{
    if n > 0 {
        assert((10 * n + last) / 10 == n);
        assert((10 * n + last) % 10 == last);
    }
}

/// Where reading gets to something that is no digit, before the digits make too large a number,
/// that is what is wrong. A `+` in front of it all does not count.
pub proof fn law_invalid_digit_is_the_fault(digits: Seq<char>, c: char, rest: Seq<char>)
    requires
        forall|i: int| 0 <= i < digits.len() ==> '0' <= #[trigger] digits[i] <= '9',
        digits.len() == 0 || number(digits) is Some,
        !('0' <= c <= '9'),
    ensures
        number_fault(seq!['+'] + digits + seq![c] + rest) == NumberError::InvalidDigit,
        digits.len() > 0 || c != '+' ==> number_fault(digits + seq![c] + rest)
            == NumberError::InvalidDigit,
        number_fault(seq!['+']) == NumberError::InvalidDigit,
{
    let plain = digits + seq![c] + rest;
    let signed = seq!['+'] + digits + seq![c] + rest;
    let k = digits.len() as int;
    assert(signed.skip(1) =~= plain);
    assert(plain.take(k) =~= digits);
    assert(plain[k] == c);
    if k > 0 {
        assert(is_digit(digits[0]));
        assert(unsigned_part(digits) == digits);
    }
    lemma_invalid_digit(plain, k);
    if k > 0 {
        assert(plain[0] == digits[0]);
    }
    let nothing = Seq::<char>::empty();
    assert(seq!['+'].skip(1) =~= nothing);
    assert(nothing.take(0) =~= nothing);
    lemma_invalid_digit(nothing, 0);
}

/// Digits that make too large a number are what is wrong, whatever follows them.
pub proof fn law_too_large_is_the_fault(digits: Seq<char>, rest: Seq<char>)
    requires
        digits.len() > 0,
        forall|i: int| 0 <= i < digits.len() ==> '0' <= #[trigger] digits[i] <= '9',
        number(digits) is None,
    ensures
        number_fault(digits + rest) == NumberError::TooLarge,
        number_fault(seq!['+'] + digits + rest) == NumberError::TooLarge,
{
    let plain = digits + rest;
    let signed = seq!['+'] + digits + rest;
    let k = digits.len() as int;
    assert(signed.skip(1) =~= plain);
    assert(plain.take(k) =~= digits);
    assert(is_digit(digits[0]));
    assert(plain[0] == digits[0]);
    assert(all_digits(digits));
    assert(too_large_at(plain, k));
    assert(unsigned_part(plain) == plain);
    assert(unsigned_part(signed) == plain);
}

/// The words for what is wrong with a number.
pub proof fn law_number_faults_are_named()
    ensures
        number_fault_text(NumberError::InvalidDigit) == "invalid digit found in string"@,
        number_fault_text(NumberError::TooLarge) == "number too large to fit in target type"@,
{
}

} // verus!
