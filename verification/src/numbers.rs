//! Numbers as decimal texts.

use vstd::prelude::*;
use vstd::string::*;

verus! {

/// The character of a decimal digit.
pub open spec fn digit_char(d: int) -> char {
    (0x30 + d) as char
}

/// The decimal text of a number.
pub open spec fn decimal_text(n: nat) -> Seq<char>
    decreases n,
{
    if n < 10 {
        seq![digit_char(n as int)]
    } else {
        decimal_text(n / 10).push(digit_char((n % 10) as int))
    }
}

fn digit_str(d: u64) -> (r: &'static str)
    requires
        d < 10,
    ensures
        r@ == seq![digit_char(d as int)],
{
    proof {
        reveal_strlit("0");
        reveal_strlit("1");
        reveal_strlit("2");
        reveal_strlit("3");
        reveal_strlit("4");
        reveal_strlit("5");
        reveal_strlit("6");
        reveal_strlit("7");
        reveal_strlit("8");
        reveal_strlit("9");
    }
    let r: &'static str = match d {
        0 => "0",
        1 => "1",
        2 => "2",
        3 => "3",
        4 => "4",
        5 => "5",
        6 => "6",
        7 => "7",
        8 => "8",
        _ => "9",
    };
    assert(r@ =~= seq![digit_char(d as int)]);
    r
}

/// The decimal text of a number.
pub fn decimal(n: u64) -> (r: String)
    ensures
        r@ == decimal_text(n as nat),
    decreases n,
{
    if n < 10 {
        digit_str(n).to_owned()
    } else {
        let mut text = decimal(n / 10);
        text.append(digit_str(n % 10));
        assert(text@ =~= decimal_text((n / 10) as nat).push(digit_char((n % 10) as int)));
        text
    }
}

/// The decimal text of a signed number.
pub open spec fn signed_text(n: int) -> Seq<char> {
    if n < 0 {
        seq!['-'] + decimal_text((-n) as nat)
    } else {
        decimal_text(n as nat)
    }
}

/// The decimal text of a signed number.
pub fn signed_decimal(n: i64) -> (r: String)
    ensures
        r@ == signed_text(n as int),
{
    if n >= 0 {
        return decimal(n as u64);
    }
    let magnitude: u64 = (-(n as i128)) as u64;
    let mut text: String = "-".to_owned();
    let rest = decimal(magnitude);
    text.append(rest.as_str());
    proof {
        reveal_strlit("-");
        assert("-"@ =~= seq!['-']);
        assert(text@ =~= signed_text(n as int));
    }
    text
}

/// Whether every byte is a decimal digit.
pub open spec fn all_digits(b: Seq<u8>) -> bool {
    forall|i: int| 0 <= i < b.len() ==> 0x30 <= #[trigger] b[i] <= 0x39
}

/// The number that decimal digits stand for.
pub open spec fn digits_value(b: Seq<u8>) -> int
    decreases b.len(),
{
    if b.len() == 0 {
        0
    } else {
        10 * digits_value(b.drop_last()) + (b.last() - 0x30)
    }
}

/// The digits of a text behind its sign.
pub open spec fn unsigned_part(b: Seq<u8>) -> Seq<u8> {
    if b.len() > 0 && (b[0] == 0x2b || b[0] == 0x2d) {
        b.skip(1)
    } else {
        b
    }
}

/// The number that a text stands for: digits behind an optional sign, within 64 bits.
pub open spec fn parsed_i64(b: Seq<u8>) -> Option<int> {
    let digits = unsigned_part(b);
    if digits.len() == 0 || !all_digits(digits) {
        None
    } else {
        let value = if b[0] == 0x2d {
            -digits_value(digits)
        } else {
            digits_value(digits)
        };
        if i64::MIN <= value <= i64::MAX {
            Some(value)
        } else {
            None
        }
    }
}

proof fn lemma_digits_value_grows(b: Seq<u8>, n: int)
    requires
        all_digits(b),
        0 <= n <= b.len(),
    ensures
        0 <= digits_value(b.take(n)) <= digits_value(b),
    decreases b.len(),
{
    if b.len() == 0 {
        assert(b.take(n) =~= b);
    } else if n == b.len() {
        assert(b.take(n) =~= b);
        lemma_digits_value_grows(b.drop_last(), n - 1);
        assert(b.drop_last().take(n - 1) =~= b.drop_last());
    } else {
        assert(b.drop_last().take(n) =~= b.take(n));
        lemma_digits_value_grows(b.drop_last(), n);
        assert(digits_value(b) >= digits_value(b.drop_last()));
    }
}

/// Reads a signed number of 64 bits from its decimal text.
pub fn parse_i64(text: &str) -> (r: Option<i64>)
    ensures
        match r {
            Some(n) => parsed_i64(text.spec_bytes()) == Some(n as int),
            None => parsed_i64(text.spec_bytes()) is None,
        },
{
    let b = text.as_bytes();
    if b.len() == 0 {
        return None;
    }
    let negative: bool = b[0] == 0x2d;
    let start: usize = if b[0] == 0x2b || b[0] == 0x2d {
        1
    } else {
        0
    };
    let ghost digits = unsigned_part(b@);
    assert(digits =~= b@.skip(start as int));
    if b.len() == start {
        return None;
    }
    let mut value: u128 = 0;
    let mut i: usize = start;
    assert(digits.take(0) =~= Seq::<u8>::empty());
    while i < b.len()
        invariant
            start <= i <= b@.len(),
            digits == unsigned_part(b@),
            digits == b@.skip(start as int),
            b@ == text.spec_bytes(),
            negative == (b@[0] == 0x2d),
            b@.len() > start,
            forall|j: int| 0 <= j < i - start ==> 0x30 <= #[trigger] digits[j] <= 0x39,
            value == digits_value(digits.take(i - start)),
            value <= 0x8000_0000_0000_0000,
        decreases b@.len() - i,
    {
        let d: u8 = b[i];
        assert(digits[i - start] == d);
        if d < 0x30 || d > 0x39 {
            return None;
        }
        proof {
            assert(digits.take(i + 1 - start).drop_last() =~= digits.take(i - start));
            assert(digits.take(i + 1 - start).last() == d);
        }
        let next: u128 = 10 * value + (d - 0x30) as u128;
        if next > 0x8000_0000_0000_0000 {
            proof {
                if all_digits(digits) {
                    lemma_digits_value_grows(digits, i + 1 - start);
                }
            }
            return None;
        }
        value = next;
        i += 1;
    }
    assert(digits.take(i - start) =~= digits);
    assert(all_digits(digits));
    if negative {
        Some((-(value as i128)) as i64)
    } else if value <= 0x7fff_ffff_ffff_ffff {
        Some(value as i64)
    } else {
        None
    }
}

/// The bytes of an ASCII text.
pub open spec fn ascii_bytes(t: Seq<char>) -> Seq<u8> {
    t.map_values(|c: char| c as u8)
}

proof fn lemma_decimal_text(n: nat)
    ensures
        vstd::utf8::is_ascii_chars(decimal_text(n)),
        all_digits(ascii_bytes(decimal_text(n))),
        digits_value(ascii_bytes(decimal_text(n))) == n,
        decimal_text(n).len() > 0,
    decreases n,
{
    let t = decimal_text(n);
    let b = ascii_bytes(t);
    if n < 10 {
        reveal_with_fuel(digits_value, 2);
        assert(b.drop_last() =~= Seq::<u8>::empty());
    } else {
        lemma_decimal_text(n / 10);
        let shorter = decimal_text(n / 10);
        assert(b.drop_last() =~= ascii_bytes(shorter));
        assert forall|i: int| 0 <= i < t.len() implies '\0' <= #[trigger] t[i] <= '\u{7f}' by {
            if i < shorter.len() {
                assert(t[i] == shorter[i]);
            }
        }
        assert forall|i: int| 0 <= i < b.len() implies 0x30 <= #[trigger] b[i] <= 0x39 by {
            if i < shorter.len() {
                assert(b[i] == ascii_bytes(shorter)[i]);
            }
        }
    }
}

/// The decimal text of a number of 64 bits is read back as that number.
pub proof fn signed_text_is_read_back(n: i64)
    ensures
        parsed_i64(vstd::utf8::encode_utf8(signed_text(n as int))) == Some(n as int),
{
    let t = signed_text(n as int);
    let magnitude = if n < 0 { (-(n as int)) as nat } else { n as nat };
    let digits = ascii_bytes(decimal_text(magnitude));
    lemma_decimal_text(magnitude);
    assert(vstd::utf8::is_ascii_chars(t)) by {
        assert forall|i: int| 0 <= i < t.len() implies '\0' <= #[trigger] t[i] <= '\u{7f}' by {
            if n < 0 && i > 0 {
                assert(t[i] == decimal_text(magnitude)[i - 1]);
            }
        }
    }
    vstd::utf8::is_ascii_chars_encode_utf8(t);
    let b = vstd::utf8::encode_utf8(t);
    assert(b =~= ascii_bytes(t));
    if n < 0 {
        assert(b[0] == 0x2d);
        assert(unsigned_part(b) =~= digits);
    } else {
        assert(b =~= digits);
        assert(0x30 <= digits[0] <= 0x39);
        assert(unsigned_part(b) =~= digits);
    }
}

/// A sign may stand before the digits, and decides alone whether the number is above or below zero; without one it is
/// above. A text with anything else in it, without digits, or for a number beyond 64 bits stands for none.
pub proof fn signs_decide_the_side_of_zero(digits: Seq<u8>)
    requires
        all_digits(digits),
        digits.len() > 0,
    ensures
        digits_value(digits) <= i64::MAX ==> parsed_i64(digits) == Some(digits_value(digits)) && parsed_i64(
            seq![0x2bu8] + digits,
        ) == Some(digits_value(digits)) && parsed_i64(seq![0x2du8] + digits) == Some(-digits_value(digits)),
        digits_value(digits) > i64::MAX ==> parsed_i64(digits) is None && parsed_i64(seq![0x2bu8] + digits) is None,
        digits_value(digits) > -i64::MIN ==> parsed_i64(seq![0x2du8] + digits) is None,
{
    lemma_digits_value_grows(digits, 0);
    assert(0x30 <= digits[0] <= 0x39);
    assert(unsigned_part(digits) == digits);
    assert((seq![0x2bu8] + digits).skip(1) =~= digits);
    assert((seq![0x2du8] + digits).skip(1) =~= digits);
}

/// A text with a byte that is no digit behind its sign, or with nothing there, stands for no number.
pub proof fn other_texts_are_no_numbers(b: Seq<u8>, i: int)
    ensures
        b.len() == 0 ==> parsed_i64(b) is None,
        b.len() == 1 && (b[0] == 0x2b || b[0] == 0x2d) ==> parsed_i64(b) is None,
        1 <= i < b.len() && !(0x30 <= b[i] <= 0x39) ==> parsed_i64(b) is None,
        b.len() > 0 && !(0x30 <= b[0] <= 0x39) && b[0] != 0x2b && b[0] != 0x2d ==> parsed_i64(b) is None,
{
    let digits = unsigned_part(b);
    if 1 <= i < b.len() && !(0x30 <= b[i] <= 0x39) {
        if digits.len() == b.len() {
            assert(digits[i] == b[i]);
        } else {
            assert(digits[i - 1] == b[i]);
        }
    }
}

} // verus!
