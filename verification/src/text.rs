use vstd::prelude::*;

use crate::args::{hex_digit_value, hex_value, is_hex_digit};

verus! {

/// The digits of hexadecimal notation, in lower case.
pub open spec fn hex_chars() -> Seq<char> {
    seq!['0', '1', '2', '3', '4', '5', '6', '7', '8', '9', 'a', 'b', 'c', 'd', 'e', 'f']
}

/// The last `n` hexadecimal digits of `v`, most significant first, with
/// leading zeros.
pub open spec fn hex_text(v: nat, n: nat) -> Seq<char>
    decreases n,
{
    if n == 0 {
        Seq::empty()
    } else {
        hex_text(v / 16, (n - 1) as nat) + seq![hex_chars()[(v % 16) as int]]
    }
}

/// The decimal notation of `v`, without leading zeros.
pub open spec fn decimal_text(v: nat) -> Seq<char>
    decreases v,
{
    if v < 10 {
        seq![hex_chars()[v as int]]
    } else {
        decimal_text(v / 10) + seq![hex_chars()[(v % 10) as int]]
    }
}

/// `text` right-aligned in a field of `width` characters: spaces in front
/// when it is shorter, unchanged otherwise.
pub open spec fn pad_left(text: Seq<char>, width: nat) -> Seq<char> {
    if text.len() < width {
        Seq::new((width - text.len()) as nat, |i: int| ' ') + text
    } else {
        text
    }
}

/// The one-character text of digit `d`.
fn digit_text(d: u32) -> (text: &'static str)
    requires
        d < 16,
    ensures
        text@ == seq![hex_chars()[d as int]],
{
    if d == 0 {
        proof {
            reveal_strlit("0");
        }
        "0"
    } else if d == 1 {
        proof {
            reveal_strlit("1");
        }
        "1"
    } else if d == 2 {
        proof {
            reveal_strlit("2");
        }
        "2"
    } else if d == 3 {
        proof {
            reveal_strlit("3");
        }
        "3"
    } else if d == 4 {
        proof {
            reveal_strlit("4");
        }
        "4"
    } else if d == 5 {
        proof {
            reveal_strlit("5");
        }
        "5"
    } else if d == 6 {
        proof {
            reveal_strlit("6");
        }
        "6"
    } else if d == 7 {
        proof {
            reveal_strlit("7");
        }
        "7"
    } else if d == 8 {
        proof {
            reveal_strlit("8");
        }
        "8"
    } else if d == 9 {
        proof {
            reveal_strlit("9");
        }
        "9"
    } else if d == 10 {
        proof {
            reveal_strlit("a");
        }
        "a"
    } else if d == 11 {
        proof {
            reveal_strlit("b");
        }
        "b"
    } else if d == 12 {
        proof {
            reveal_strlit("c");
        }
        "c"
    } else if d == 13 {
        proof {
            reveal_strlit("d");
        }
        "d"
    } else if d == 14 {
        proof {
            reveal_strlit("e");
        }
        "e"
    } else {
        proof {
            reveal_strlit("f");
        }
        "f"
    }
}

/// The last `n` hexadecimal digits of `v`, as `{:0n$x}` writes them for a
/// value below 16^n.
pub fn hex_fixed(v: u32, n: usize) -> (text: String)
    ensures
        text@ == hex_text(v as nat, n as nat),
    decreases n,
{
    if n == 0 {
        String::new()
    } else {
        let mut text = hex_fixed(v / 16, n - 1);
        text.append(digit_text(v % 16));
        text
    }
}

/// The decimal notation of `v`.
pub fn decimal(v: usize) -> (text: String)
    ensures
        text@ == decimal_text(v as nat),
    decreases v,
{
    if v < 10 {
        let mut text = String::new();
        text.append(digit_text(v as u32));
        text
    } else {
        let mut text = decimal(v / 10);
        text.append(digit_text((v % 10) as u32));
        text
    }
}

/// The decimal notation of `v`, right-aligned in `width` characters, as
/// `{:width$}` writes it.
pub fn decimal_padded(v: usize, width: usize) -> (text: String)
    ensures
        text@ == pad_left(decimal_text(v as nat), width as nat),
{
    let digits = decimal(v);
    let len = digits.as_str().unicode_len();
    let mut text = String::new();
    let mut i: usize = len;
    proof {
        reveal_strlit(" ");
    }
    while i < width
        invariant
            len == digits@.len(),
            len <= i,
            i <= width || len >= width,
            len >= width ==> i == len,
            " "@ == seq![' '],
            text@ == Seq::new((i - len) as nat, |j: int| ' '),
        decreases width - i,
    {
        text.append(" ");
        i = i + 1;
        assert(text@ =~= Seq::new((i - len) as nat, |j: int| ' '));
    }
    let ghost spaces = text@;
    text.append(digits.as_str());
    if len < width {
        assert(i == width);
        assert(text@ =~= pad_left(digits@, width as nat));
    } else {
        assert(spaces =~= Seq::<char>::empty());
        assert(text@ =~= pad_left(digits@, width as nat));
    }
    text
}

/// 16 to the power `n`.
pub open spec fn pow16(n: nat) -> nat
    decreases n,
{
    if n == 0 {
        1
    } else {
        16 * pow16((n - 1) as nat)
    }
}

/// The value of a sequence of decimal digits, most significant first.
pub open spec fn decimal_value(digits: Seq<char>) -> int
    decreases digits.len(),
{
    if digits.len() == 0 {
        0
    } else {
        decimal_value(digits.drop_last()) * 10 + hex_digit_value(digits.last())
    }
}

proof fn lemma_pow16_positive(n: nat)
    ensures
        pow16(n) > 0,
    decreases n,
{
    if n > 0 {
        lemma_pow16_positive((n - 1) as nat);
    }
}

proof fn lemma_digit_char(d: int)
    requires
        0 <= d < 16,
    ensures
        is_hex_digit(hex_chars()[d]),
        hex_digit_value(hex_chars()[d]) == d,
        d < 10 ==> 0x30 <= (hex_chars()[d] as u32) <= 0x39,
{
    let c = hex_chars()[d];
    if d == 0 { assert(c == '0'); }
    else if d == 1 { assert(c == '1'); }
    else if d == 2 { assert(c == '2'); }
    else if d == 3 { assert(c == '3'); }
    else if d == 4 { assert(c == '4'); }
    else if d == 5 { assert(c == '5'); }
    else if d == 6 { assert(c == '6'); }
    else if d == 7 { assert(c == '7'); }
    else if d == 8 { assert(c == '8'); }
    else if d == 9 { assert(c == '9'); }
    else if d == 10 { assert(c == 'a'); }
    else if d == 11 { assert(c == 'b'); }
    else if d == 12 { assert(c == 'c'); }
    else if d == 13 { assert(c == 'd'); }
    else if d == 14 { assert(c == 'e'); }
    else { assert(c == 'f'); }
}

/// Writing the last `n` hexadecimal digits of `v` gives exactly `n`
/// hexadecimal digits, and reading them back gives `v` modulo 16^n (so `v`
/// itself when it has at most `n` digits).
pub proof fn lemma_hex_text_reads_back(v: nat, n: nat)
    ensures
        hex_text(v, n).len() == n,
        forall|i: int| 0 <= i < n ==> is_hex_digit(#[trigger] hex_text(v, n)[i]),
        hex_value(hex_text(v, n)) == v % pow16(n),
        v < pow16(n) ==> hex_value(hex_text(v, n)) == v,
    decreases n,
{
    if n > 0 {
        lemma_hex_text_reads_back(v / 16, (n - 1) as nat);
        let s = hex_text(v, n);
        let prefix = hex_text(v / 16, (n - 1) as nat);
        assert(s.drop_last() =~= prefix);
        lemma_digit_char((v % 16) as int);
        assert forall|i: int| 0 <= i < n implies is_hex_digit(#[trigger] s[i]) by {
            if i < n - 1 {
                assert(s[i] == prefix[i]);
            }
        }
        lemma_pow16_positive((n - 1) as nat);
        vstd::arithmetic::div_mod::lemma_breakdown(v as int, 16, pow16((n - 1) as nat) as int);
        assert(s.last() == hex_chars()[(v % 16) as int]);
        assert(hex_value(s) == hex_value(prefix) * 16 + hex_digit_value(s.last()));
    }
    lemma_pow16_positive(n);
    if v < pow16(n) {
        vstd::arithmetic::div_mod::lemma_small_mod(v, pow16(n));
    }
}

/// The decimal notation of `v` reads back as `v`, consists of decimal digits
/// only, and starts with `0` only when `v` is zero.
pub proof fn lemma_decimal_text_reads_back(v: nat)
    ensures
        decimal_value(decimal_text(v)) == v,
        decimal_text(v).len() > 0,
        forall|i: int|
            0 <= i < decimal_text(v).len() ==> 0x30 <= (#[trigger] decimal_text(v)[i] as u32) <= 0x39,
        decimal_text(v)[0] == '0' ==> v == 0,
    decreases v,
{
    let s = decimal_text(v);
    if v < 10 {
        lemma_digit_char(v as int);
        assert(s.drop_last() =~= Seq::<char>::empty());
        assert(s.last() == hex_chars()[v as int]);
        assert(decimal_value(s) == decimal_value(s.drop_last()) * 10 + hex_digit_value(s.last()));
        assert(decimal_value(s.drop_last()) == 0);
        if s[0] == '0' {
            if v != 0 {
                lemma_digit_char(0);
            }
        }
    } else {
        lemma_decimal_text_reads_back(v / 10);
        let prefix = decimal_text(v / 10);
        assert(s.drop_last() =~= prefix);
        lemma_digit_char((v % 10) as int);
        assert(s.last() == hex_chars()[(v % 10) as int]);
        assert(decimal_value(s) == decimal_value(prefix) * 10 + hex_digit_value(s.last()));
        assert forall|i: int| 0 <= i < s.len() implies 0x30 <= (#[trigger] s[i] as u32) <= 0x39 by {
            if i < s.len() - 1 {
                assert(s[i] == prefix[i]);
            }
        }
        assert(s[0] == prefix[0]);
    }
}

} // verus!
