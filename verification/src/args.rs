use vstd::prelude::*;

use crate::text::decimal_value;

verus! {

/// `c` is a hexadecimal digit: `0`-`9`, `a`-`f` or `A`-`F`.
pub open spec fn is_hex_digit(c: char) -> bool {
    ||| 0x30 <= (c as u32) <= 0x39
    ||| 0x61 <= (c as u32) <= 0x66
    ||| 0x41 <= (c as u32) <= 0x46
}

/// The value of a hexadecimal digit.
pub open spec fn hex_digit_value(c: char) -> int {
    if 0x30 <= (c as u32) <= 0x39 {
        (c as u32) - 0x30
    } else if 0x61 <= (c as u32) <= 0x66 {
        (c as u32) - 0x61 + 10
    } else {
        (c as u32) - 0x41 + 10
    }
}

/// The value of a sequence of hexadecimal digits, most significant first.
pub open spec fn hex_value(digits: Seq<char>) -> int
    decreases digits.len(),
{
    if digits.len() == 0 {
        0
    } else {
        hex_value(digits.drop_last()) * 16 + hex_digit_value(digits.last())
    }
}

/// The digits of a number written with an optional leading `+`.
pub open spec fn unsigned_digits(text: Seq<char>) -> Seq<char> {
    if text.len() > 0 && text[0] == '+' {
        text.drop_first()
    } else {
        text
    }
}

/// `text` is an optional `+` followed by one or more hexadecimal digits
/// whose value fits in 16 bits.
pub open spec fn is_hex_u16_text(text: Seq<char>) -> bool {
    let digits = unsigned_digits(text);
    &&& digits.len() > 0
    &&& forall|i: int| 0 <= i < digits.len() ==> is_hex_digit(#[trigger] digits[i])
    &&& hex_value(digits) <= 0xFFFF
}

/// The display text of the error that `u16::from_str_radix(text, 16)` gives
/// for `text` (its documentation names the kinds: empty, invalid digit, too
/// large).
pub uninterp spec fn hex_u16_error_text(text: Seq<char>) -> Seq<char>;

/// `u16::from_str_radix` with radix 16. As its documentation says, it accepts
/// an optional `+` followed by digits only, and fails on any other character,
/// on an empty number and on a value above `u16::MAX`; it does not panic for
/// radix 16. The error is returned as its display text, named by
/// `hex_u16_error_text`.
#[verifier::external_body]
fn u16_from_hex_text(text: &str) -> (value: Result<u16, String>)
    ensures
        value is Ok <==> is_hex_u16_text(text@),
        value matches Ok(v) ==> v == hex_value(unsigned_digits(text@)),
        value matches Err(e) ==> e@ == hex_u16_error_text(text@),
{
    match u16::from_str_radix(text, 16) {
        Ok(v) => Ok(v),
        Err(e) => Err(e.to_string()),
    }
}

/// Reads a USB vendor or product ID written in hexadecimal (such as `0483`).
pub fn hex_u16(text: &str) -> (value: Result<u16, String>)
    ensures
        value is Ok <==> is_hex_u16_text(text@),
        value matches Ok(v) ==> v == hex_value(unsigned_digits(text@)),
        value matches Err(e) ==> e@ == hex_u16_error_text(text@),
{
    u16_from_hex_text(text)
}

/// `c` is one of the digits `0`-`9`.
pub open spec fn is_decimal_digit(c: char) -> bool {
    0x30 <= (c as u32) <= 0x39
}

/// Where reading the number of a size text stands after some characters:
/// `(phase, mantissa, decimal exponent)`. The phases are 0 before any digit,
/// 1 in the integer digits, 2 in integer digits beyond 64 bits, 3 in the
/// fraction digits, 4 once no more digit can change the number (an exponent,
/// a fraction beyond 64 bits, or a character that ends the parse with an
/// error), and 5 once the parse has overflowed an integer of its own.
pub open spec fn size_scan_step(state: (int, int, int), c: char) -> (int, int, int) {
    let (phase, m, exp) = state;
    if phase >= 4 {
        state
    } else if c == '_' || c == ' ' {
        state
    } else if is_decimal_digit(c) {
        let d = (c as u32) - 0x30;
        if phase == 0 || phase == 1 {
            if m * 10 + d <= u64::MAX {
                (1, m * 10 + d, exp)
            } else if d >= 5 && m == u64::MAX {
                (5, m, exp)
            } else {
                (2, m, 1)
            }
        } else if phase == 2 {
            if exp == i32::MAX {
                (5, m, exp)
            } else {
                (2, m, exp + 1)
            }
        } else {
            if m * 10 + d <= u64::MAX {
                if exp == i32::MIN {
                    (5, m, exp)
                } else {
                    (3, m * 10 + d, exp - 1)
                }
            } else if d >= 5 && m == u64::MAX {
                (5, m, exp)
            } else {
                (4, m, exp)
            }
        }
    } else if c == '.' && phase == 1 {
        (3, m, exp)
    } else {
        (4, m, exp)
    }
}

/// The reading state after the characters `text`, in order.
pub open spec fn size_scan(text: Seq<char>) -> (int, int, int)
    decreases text.len(),
{
    if text.len() == 0 {
        (0, 0, 0)
    } else {
        size_scan_step(size_scan(text.drop_last()), text.last())
    }
}

/// The texts on which `parse_size::parse_size` overflows its own integers
/// and panics in a build with overflow checks: a mantissa whose digits
/// reach exactly `u64::MAX` followed by a digit from 5 to 9, or more than
/// `i32::MAX` integer digits beyond 64 bits, or more than `2^31` fraction
/// digits that still fit. The unit and `B` suffixes it strips are letters at
/// the end, after every digit, so reading them as well changes nothing.
pub open spec fn size_text_panics(text: Seq<char>) -> bool {
    size_scan(text).0 == 5
}

/// Whether `parse_size::parse_size` would overflow on `text` (see
/// `size_text_panics`); callers check this before reading a length.
pub fn parse_size_panics(text: &str) -> (panics: bool)
    ensures
        panics == size_text_panics(text@),
{
    let n = text.unicode_len();
    let mut phase: u8 = 0;
    let mut m: u64 = 0;
    let mut exp: i64 = 0;
    let mut i: usize = 0;
    while i < n
        invariant
            n == text@.len(),
            i <= n,
            phase <= 5,
            i32::MIN <= exp <= i32::MAX,
            size_scan(text@.take(i as int)) == (phase as int, m as int, exp as int),
        decreases n - i,
    {
        let c = text.get_char(i);
        assert(text@.take(i + 1).drop_last() =~= text@.take(i as int));
        assert(text@.take(i + 1).last() == c);
        if phase >= 4 || c == '_' || c == ' ' {
        } else if '0' <= c && c <= '9' {
            let d: u64 = (c as u32 - 0x30) as u64;
            let next = match m.checked_mul(10) {
                Some(t) => t.checked_add(d),
                None => None,
            };
            if phase == 0 || phase == 1 {
                match next {
                    Some(v) => {
                        phase = 1;
                        m = v;
                    },
                    None => {
                        if d >= 5 && m == u64::MAX {
                            phase = 5;
                        } else {
                            phase = 2;
                            exp = 1;
                        }
                    },
                }
            } else if phase == 2 {
                if exp == i32::MAX as i64 {
                    phase = 5;
                } else {
                    exp = exp + 1;
                }
            } else {
                match next {
                    Some(v) => {
                        if exp == i32::MIN as i64 {
                            phase = 5;
                        } else {
                            phase = 3;
                            m = v;
                            exp = exp - 1;
                        }
                    },
                    None => {
                        if d >= 5 && m == u64::MAX {
                            phase = 5;
                        } else {
                            phase = 4;
                        }
                    },
                }
            }
        } else if c == '.' && phase == 1 {
            phase = 3;
        } else {
            phase = 4;
        }
        i = i + 1;
    }
    assert(text@.take(n as int) =~= text@);
    phase == 5
}

/// A text of plain decimal digits whose value fits in 64 bits is read in
/// full without overflow: the mantissa is its value.
pub proof fn lemma_plain_digits_do_not_overflow(text: Seq<char>)
    requires
        forall|i: int| 0 <= i < text.len() ==> is_decimal_digit(#[trigger] text[i]),
        decimal_value(text) <= u64::MAX,
    ensures
        size_scan(text) == (if text.len() == 0 { 0int } else { 1int }, decimal_value(text), 0int),
        !size_text_panics(text),
    decreases text.len(),
{
    if text.len() > 0 {
        let prefix = text.drop_last();
        assert forall|i: int| 0 <= i < prefix.len() implies is_decimal_digit(#[trigger] prefix[i]) by {
            assert(prefix[i] == text[i]);
        }
        assert(is_decimal_digit(text[text.len() - 1]));
        assert(decimal_value(prefix) >= 0) by {
            lemma_decimal_value_nonnegative(prefix);
        }
        lemma_plain_digits_do_not_overflow(prefix);
    }
}

proof fn lemma_decimal_value_nonnegative(text: Seq<char>)
    requires
        forall|i: int| 0 <= i < text.len() ==> is_decimal_digit(#[trigger] text[i]),
    ensures
        decimal_value(text) >= 0,
    decreases text.len(),
{
    if text.len() > 0 {
        let prefix = text.drop_last();
        assert forall|i: int| 0 <= i < prefix.len() implies is_decimal_digit(#[trigger] prefix[i]) by {
            assert(prefix[i] == text[i]);
        }
        assert(is_decimal_digit(text[text.len() - 1]));
        lemma_decimal_value_nonnegative(prefix);
    }
}

/// The digits of `u64::MAX` followed by one more digit make the parser
/// overflow exactly when that digit is 5 or more.
pub proof fn lemma_overflow_digit(text: Seq<char>, c: char)
    requires
        forall|i: int| 0 <= i < text.len() ==> is_decimal_digit(#[trigger] text[i]),
        decimal_value(text) == u64::MAX,
        is_decimal_digit(c),
    ensures
        size_text_panics(text.push(c)) <==> (c as u32) >= 0x35,
{
    lemma_plain_digits_do_not_overflow(text);
    assert(text.push(c).drop_last() =~= text);
}

/// What `parse_size::parse_size` makes of a text: the number of bytes, or
/// the display text of its error.
pub uninterp spec fn parsed_size(text: Seq<char>) -> Result<u64, Seq<char>>;

/// `parse_size::parse_size`, which reads a size such as `64K` or `2MB`; its
/// error is returned as its display text. The texts on which it overflows
/// one of its own integers (`size_text_panics`) are left out.
#[verifier::external_body]
fn parse_size_text(text: &str) -> (size: Result<u64, String>)
    requires
        !size_text_panics(text@),
    ensures
        match size {
            Ok(v) => parsed_size(text@) == Ok::<u64, Seq<char>>(v),
            Err(e) => parsed_size(text@) == Err::<u64, Seq<char>>(e@),
        },
{
    match parse_size::parse_size(text) {
        Ok(v) => Ok(v),
        Err(e) => Err(e.to_string()),
    }
}

/// The display text of the error that `u32::try_from` gives for a `u64`
/// value that does not fit.
pub uninterp spec fn narrowing_error_text(value: u64) -> Seq<char>;

/// `u32::try_from` on a `u64`: it succeeds exactly when the value fits, and
/// then keeps it. The error is returned as its display text, named by
/// `narrowing_error_text`.
#[verifier::external_body]
fn u32_from_u64(value: u64) -> (narrowed: Result<u32, String>)
    ensures
        narrowed is Ok <==> value <= u32::MAX,
        narrowed matches Ok(v) ==> v == value,
        narrowed matches Err(e) ==> e@ == narrowing_error_text(value),
{
    match u32::try_from(value) {
        Ok(v) => Ok(v),
        Err(e) => Err(e.to_string()),
    }
}

/// Turns a parsed size into a length in bytes: a parse error is passed on,
/// and a size above `u32::MAX` is refused with the conversion's error text.
pub fn size_to_length(size: Result<u64, String>) -> (length: Result<u32, String>)
    ensures
        match size {
            Ok(v) => {
                &&& (length is Ok <==> v <= u32::MAX)
                &&& (length matches Ok(l) ==> l == v)
                &&& (length matches Err(m) ==> m@ == narrowing_error_text(v))
            },
            Err(e) => length matches Err(m) && m@ == e@,
        },
{
    match size {
        Ok(v) => u32_from_u64(v),
        Err(e) => Err(e),
    }
}

/// Reads a length such as `64K` or `2MB` and checks that it fits in 32 bits.
/// The texts on which the size parser overflows are left out; callers check
/// them with `parse_size_panics`.
pub fn parse_length(text: &str) -> (length: Result<u32, String>)
    requires
        !size_text_panics(text@),
    ensures
        match parsed_size(text@) {
            Ok(v) => {
                &&& (length is Ok <==> v <= u32::MAX)
                &&& (length matches Ok(l) ==> l == v)
                &&& (length matches Err(m) ==> m@ == narrowing_error_text(v))
            },
            Err(e) => length matches Err(m) && m@ == e,
        },
{
    size_to_length(parse_size_text(text))
}

} // verus!
