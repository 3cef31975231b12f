//! Decimal text of 32-bit signed integers, as the runner reads operands
//! and prints results.
//!
//! A number is written as an optional sign, `+` or `-`, followed by one or
//! more ASCII digits. Nothing else may stand in the text: no blanks, no
//! underscores, no digits of other scripts.

use vstd::prelude::*;
use vstd::string::StringExecFns;

verus! {

/// Whether `c` is one of the ASCII digits `0` to `9`.
pub open spec fn is_digit(c: char) -> bool {
    '0' <= c <= '9'
}

/// The value of the digit `c`.
pub open spec fn digit_value(c: char) -> int {
    c as int - '0' as int
}

/// The digit that stands for `d`, for `d` from 0 to 9.
pub open spec fn digit_char(d: int) -> char {
    (d + '0' as int) as u8 as char
}

/// Whether `s` holds digits only.
pub open spec fn all_digits(s: Seq<char>) -> bool {
    forall|i: int| 0 <= i < s.len() ==> is_digit(#[trigger] s[i])
}

/// The number that the digits `s` denote, most significant digit first.
pub open spec fn digits_value(s: Seq<char>) -> int
    decreases s.len(),
{
    if s.len() == 0 {
        0
    } else {
        10 * digits_value(s.drop_last()) + digit_value(s.last())
    }
}

/// Whether `s` begins with a sign.
pub open spec fn has_sign(s: Seq<char>) -> bool {
    s.len() > 0 && (s[0] == '-' || s[0] == '+')
}

/// Whether `s` begins with the minus sign.
pub open spec fn is_negative(s: Seq<char>) -> bool {
    s.len() > 0 && s[0] == '-'
}

/// `s` without its sign.
pub open spec fn unsigned_part(s: Seq<char>) -> Seq<char> {
    if has_sign(s) {
        s.skip(1)
    } else {
        s
    }
}

/// The number that `s` denotes, where it is an optional sign and digits.
pub open spec fn signed_value(s: Seq<char>) -> int {
    if is_negative(s) {
        -digits_value(unsigned_part(s))
    } else {
        digits_value(unsigned_part(s))
    }
}

/// The 32-bit signed integer that `s` is the decimal text of, if it is
/// one: an optional sign, at least one digit, nothing else, and a value
/// that fits.
pub open spec fn parse_decimal(s: Seq<char>) -> Option<i32> {
    if unsigned_part(s).len() > 0 && all_digits(unsigned_part(s)) && i32::MIN <= signed_value(s)
        <= i32::MAX {
        Some(signed_value(s) as i32)
    } else {
        None
    }
}

/// The digits of `n`, most significant first, without leading zeros.
pub open spec fn natural_text(n: nat) -> Seq<char>
    decreases n,
{
    if n < 10 {
        seq![digit_char(n as int)]
    } else {
        natural_text(n / 10).push(digit_char((n % 10) as int))
    }
}

/// The decimal text of `v`: its digits, after a minus sign if it is
/// negative.
pub open spec fn decimal_text(v: int) -> Seq<char> {
    if v < 0 {
        seq!['-'] + natural_text((-v) as nat)
    } else {
        natural_text(v as nat)
    }
}

/// A longer run of digits denotes no smaller number than its beginning.
proof fn digits_value_grows(s: Seq<char>, k: int)
    requires
        all_digits(s),
        0 <= k <= s.len(),
    ensures
        0 <= digits_value(s.take(k)) <= digits_value(s),
    decreases s.len() - k,
{
    if k == s.len() {
        assert(s.take(k) =~= s);
        digits_value_is_natural(s);
    } else {
        digits_value_grows(s, k + 1);
        assert(s.take(k + 1).drop_last() =~= s.take(k));
        assert(s.take(k + 1).last() == s[k]);
        assert(is_digit(s[k]));
        digits_value_is_natural(s.take(k));
    }
}

/// Digits denote a natural number.
proof fn digits_value_is_natural(s: Seq<char>)
    requires
        all_digits(s),
    ensures
        0 <= digits_value(s),
    decreases s.len(),
{
    if s.len() > 0 {
        assert(is_digit(s.last()));
        digits_value_is_natural(s.drop_last());
    }
}

/// Reads the decimal text of a 32-bit signed integer. Gives `None` where
/// `text` is no such text or the number does not fit.
pub fn parse_i32(text: &str) -> (value: Option<i32>)
    ensures
        value == parse_decimal(text@),
{
    let ghost digits = unsigned_part(text@);
    if !text.is_ascii() {
        proof {
            let i = choose|i: int| 0 <= i < text@.len() && !('\0' <= #[trigger] text@[i] <= '\u{7f}');
            if has_sign(text@) {
                assert(i > 0);
                assert(digits[i - 1] == text@[i]);
            }
            assert(!all_digits(digits));
        }
        return None;
    }
    let bytes = text.as_bytes();
    proof {
        vstd::string::is_ascii_spec_bytes(text);
    }
    let n = bytes.len();
    if n == 0 {
        return None;
    }
    let negative = bytes[0] == 0x2d;
    let start: usize = if bytes[0] == 0x2d || bytes[0] == 0x2b {
        1
    } else {
        0
    };
    assert(negative == is_negative(text@));
    assert(start == 1 <==> has_sign(text@));
    assert(digits.len() == n - start);
    let mut magnitude: i64 = 0;
    let mut i: usize = start;
    proof {
        assert(digits.take(0) =~= Seq::<char>::empty());
    }
    while i < n
        invariant
            start <= i <= n,
            n == bytes@.len(),
            n == text@.len(),
            digits == unsigned_part(text@),
            digits.len() == n - start,
            forall|j: int| 0 <= j < n ==> bytes@[j] == text@[j] as u8,
            forall|j: int| 0 <= j < n ==> '\0' <= #[trigger] text@[j] <= '\u{7f}',
            forall|j: int| 0 <= j < digits.len() ==> digits[j] == text@[j + start],
            all_digits(digits.take(i - start)),
            magnitude == digits_value(digits.take(i - start)),
            0 <= magnitude <= 0x8000_0000,
        decreases n - i,
    {
        let b = bytes[i];
        let ghost c = text@[i as int];
        assert(c == digits[i - start]);
        assert(b == c as u8);
        if b < 0x30 || b > 0x39 {
            assert(!is_digit(c));
            return None;
        }
        proof {
            let longer = digits.take(i + 1 - start);
            assert(longer.drop_last() =~= digits.take(i - start));
            assert(longer.last() == c);
            assert(digit_value(c) == b - 0x30);
        }
        magnitude = magnitude * 10 + (b - 0x30) as i64;
        if magnitude > 0x8000_0000 {
            proof {
                if all_digits(digits) {
                    digits_value_grows(digits, i + 1 - start);
                }
            }
            return None;
        }
        i += 1;
    }
    proof {
        assert(digits.take(n - start) =~= digits);
    }
    if i == start {
        None
    } else if negative {
        Some((-magnitude) as i32)
    } else if magnitude > 0x7fff_ffff {
        None
    } else {
        Some(magnitude as i32)
    }
}

/// Appends the digits of `n` to `text`.
fn push_natural(text: &mut String, n: u32)
    ensures
        final(text)@ == old(text)@ + natural_text(n as nat),
    decreases n,
{
    if n >= 10 {
        push_natural(text, n / 10);
    }
    let digit = n % 10;
    let ghost before = text@;
    let shown = if digit == 0 {
        "0"
    } else if digit == 1 {
        "1"
    } else if digit == 2 {
        "2"
    } else if digit == 3 {
        "3"
    } else if digit == 4 {
        "4"
    } else if digit == 5 {
        "5"
    } else if digit == 6 {
        "6"
    } else if digit == 7 {
        "7"
    } else if digit == 8 {
        "8"
    } else {
        "9"
    };
    proof {
        reveal_strlit("0");
        reveal_strlit("1");
        reveal_strlit("2");
        reveal_strlit("3");
        reveal_strlit("4");
        reveal_strlit("5");
        reveal_strlit("6");
        reveal_strlit("7");
        reveal_strlit("8");
        reveal_strlit("9");
        assert(shown@ =~= seq![digit_char(digit as int)]);
    }
    text.append(shown);
    proof {
        if n >= 10 {
            assert(text@ =~= old(text)@ + natural_text((n / 10) as nat).push(
                digit_char(digit as int),
            ));
        } else {
            assert(text@ =~= old(text)@ + seq![digit_char(digit as int)]);
        }
    }
}

/// Writes `value` in decimal.
pub fn format_i32(value: i32) -> (text: String)
    ensures
        text@ == decimal_text(value as int),
{
    let mut text = String::new();
    if value < 0 {
        text.append("-");
        proof {
            reveal_strlit("-");
            assert(text@ =~= seq!['-']);
        }
        push_natural(&mut text, (-(value as i64)) as u32);
    } else {
        push_natural(&mut text, value as u32);
        proof {
            assert(text@ =~= natural_text(value as nat));
        }
    }
    text
}

/// The digits of a natural number are at least one digit and nothing
/// but digits, and they denote that number.
pub proof fn natural_text_denotes(n: nat)
    ensures
        natural_text(n).len() > 0,
        all_digits(natural_text(n)),
        digits_value(natural_text(n)) == n,
    decreases n,
{
    if n < 10 {
        let s = natural_text(n);
        assert(s.drop_last() =~= Seq::<char>::empty());
        assert(digits_value(s.drop_last()) == 0);
    } else {
        natural_text_denotes(n / 10);
        let s = natural_text(n);
        assert(s.drop_last() =~= natural_text(n / 10));
    }
}

/// Reading inverts writing: the decimal text of a 32-bit signed integer
/// reads back as that integer.
pub proof fn parse_inverts_text(value: i32)
    ensures
        parse_decimal(decimal_text(value as int)) == Some(value),
{
    let s = decimal_text(value as int);
    if value < 0 {
        let digits = natural_text((-value) as nat);
        natural_text_denotes((-value) as nat);
        assert(s.skip(1) =~= digits);
    } else {
        natural_text_denotes(value as nat);
        assert(is_digit(s[0]));
    }
}

} // verus!
