//! Hexadecimal text for 64-bit values: lowercase digits without padding on the
//! way out; either case, with an optional leading `+`, on the way in.

use vstd::prelude::*;
use vstd::string::*;
use vstd::utf8::is_ascii_chars;

verus! {

/// The lowercase hexadecimal digit that stands for `d`, for `0 <= d < 16`.
pub open spec fn hex_digit_char(d: int) -> char {
    if d < 10 {
        (('0' as int) + d) as char
    } else {
        (('a' as int) + d - 10) as char
    }
}

/// The value of a hexadecimal digit of either case; `None` for any other
/// character.
pub open spec fn hex_digit_value(c: char) -> Option<int> {
    if '0' <= c <= '9' {
        Some((c as int) - ('0' as int))
    } else if 'a' <= c <= 'f' {
        Some((c as int) - ('a' as int) + 10)
    } else if 'A' <= c <= 'F' {
        Some((c as int) - ('A' as int) + 10)
    } else {
        None
    }
}

/// The digits of `v` in base 16, most significant first, with no leading
/// zero; zero itself is the single digit `0`.
pub open spec fn to_hex(v: nat) -> Seq<char>
    decreases v,
{
    if v < 16 {
        seq![hex_digit_char(v as int)]
    } else {
        to_hex(v / 16).push(hex_digit_char((v % 16) as int))
    }
}

/// Every character of `s` is a hexadecimal digit.
pub open spec fn all_hex_digits(s: Seq<char>) -> bool {
    forall|i: int| 0 <= i < s.len() ==> (#[trigger] hex_digit_value(s[i])).is_some()
}

/// The number that the digit string `s` writes in base 16, most significant
/// digit first. A character that is no digit counts as zero.
pub open spec fn hex_digits_value(s: Seq<char>) -> nat
    decreases s.len(),
{
    if s.len() == 0 {
        0
    } else {
        let last: int = match hex_digit_value(s.last()) {
            Some(d) => d,
            None => 0,
        };
        (hex_digits_value(s.drop_last()) * 16 + last) as nat
    }
}

/// What is left of `s` once one leading `+` is taken away.
pub open spec fn unsigned_part(s: Seq<char>) -> Seq<char> {
    if s.len() > 0 && s[0] == '+' {
        s.subrange(1, s.len() as int)
    } else {
        s
    }
}

/// The 64-bit value that the text `s` denotes: an optional `+`, then at least
/// one hexadecimal digit, the whole not above `u64::MAX`. Any other text
/// denotes nothing.
pub open spec fn from_hex(s: Seq<char>) -> Option<u64> {
    let digits = unsigned_part(s);
    if digits.len() > 0 && all_hex_digits(digits) && hex_digits_value(digits) <= u64::MAX {
        Some(hex_digits_value(digits) as u64)
    } else {
        None
    }
}

/// The characters of `digits`, last digit first.
spec fn digits_reversed(digits: Seq<u8>) -> Seq<char>
    decreases digits.len(),
{
    if digits.len() == 0 {
        Seq::empty()
    } else {
        seq![hex_digit_char(digits.last() as int)] + digits_reversed(digits.drop_last())
    }
}

/// The digits of `rest` that are still to be written: none once it is zero.
spec fn leading_digits(rest: nat) -> Seq<char> {
    if rest == 0 {
        Seq::empty()
    } else {
        to_hex(rest)
    }
}

fn push_hex_digit(text: &mut String, d: u8)
    requires
        d < 16,
    ensures
        final(text)@ == old(text)@.push(hex_digit_char(d as int)),
{
    proof {
        reveal_strlit("0");
        reveal_strlit("1");
        reveal_strlit("2");
        reveal_strlit("3");
        reveal_strlit("4");
        reveal_strlit("5");
        reveal_strlit("6");
        reveal_strlit("7");
        reveal_strlit("8");
        reveal_strlit("9");
        reveal_strlit("a");
        reveal_strlit("b");
        reveal_strlit("c");
        reveal_strlit("d");
        reveal_strlit("e");
        reveal_strlit("f");
    }
    let digit: &str = match d {
        0 => "0",
        1 => "1",
        2 => "2",
        3 => "3",
        4 => "4",
        5 => "5",
        6 => "6",
        7 => "7",
        8 => "8",
        9 => "9",
        10 => "a",
        11 => "b",
        12 => "c",
        13 => "d",
        14 => "e",
        _ => "f",
    };
    assert(digit@ =~= seq![hex_digit_char(d as int)]);
    text.append(digit);
    assert(text@ =~= old(text)@.push(hex_digit_char(d as int)));
}

/// Writes `v` in lowercase hexadecimal, without prefix or padding.
pub fn format_hex(v: u64) -> (text: String)
    ensures
        text@ == to_hex(v as nat),
{
    let mut digits: Vec<u8> = Vec::new();
    digits.push((v % 16) as u8);
    let mut rest: u64 = v / 16;
    assert(digits@.drop_last() =~= Seq::<u8>::empty());
    assert(to_hex(v as nat) =~= leading_digits(rest as nat) + digits_reversed(digits@)) by {
        reveal_with_fuel(digits_reversed, 2);
    }
    while rest != 0
        invariant
            digits@.len() >= 1,
            forall|i: int| 0 <= i < digits@.len() ==> digits@[i] < 16,
            to_hex(v as nat) =~= leading_digits(rest as nat) + digits_reversed(digits@),
        decreases rest,
    {
        let d: u8 = (rest % 16) as u8;
        let ghost before = digits@;
        digits.push(d);
        assert(digits@.drop_last() =~= before);
        assert(leading_digits(rest as nat) =~= leading_digits((rest / 16) as nat)
            + seq![hex_digit_char(d as int)]);
        rest = rest / 16;
    }
    let mut text = String::new();
    let mut i: usize = digits.len();
    assert(digits@.subrange(0, i as int) =~= digits@);
    while i > 0
        invariant
            i <= digits@.len(),
            forall|j: int| 0 <= j < digits@.len() ==> digits@[j] < 16,
            text@ + digits_reversed(digits@.subrange(0, i as int)) =~= to_hex(v as nat),
        decreases i,
    {
        i = i - 1;
        let ghost upto = digits@.subrange(0, i + 1);
        assert(upto.drop_last() =~= digits@.subrange(0, i as int));
        assert(upto.last() == digits@[i as int]);
        push_hex_digit(&mut text, digits[i]);
    }
    assert(digits@.subrange(0, 0) =~= Seq::<u8>::empty());
    text
}

/// A digit string is worth at least as much as any of its prefixes.
proof fn lemma_prefix_value_bounded(s: Seq<char>, n: int)
    requires
        0 <= n <= s.len(),
    ensures
        hex_digits_value(s.subrange(0, n)) <= hex_digits_value(s),
    decreases s.len() - n,
{
    if n == s.len() {
        assert(s.subrange(0, n) =~= s);
    } else {
        lemma_prefix_value_bounded(s, n + 1);
        assert(s.subrange(0, n + 1).drop_last() =~= s.subrange(0, n));
    }
}

/// Text with a character outside ASCII denotes no value.
proof fn lemma_non_ascii_denotes_nothing(s: Seq<char>)
    requires
        !is_ascii_chars(s),
    ensures
        from_hex(s) is None,
{
    let k = choose|k: int| 0 <= k < s.len() && !('\0' <= #[trigger] s[k] <= '\u{7f}');
    let digits = unsigned_part(s);
    if s.len() > 0 && s[0] == '+' {
        assert(k >= 1);
        assert(digits[k - 1] == s[k]);
        assert(hex_digit_value(digits[k - 1]) is None);
    } else {
        assert(hex_digit_value(digits[k]) is None);
    }
}

fn digit_of(b: u8) -> (r: Option<u8>)
    requires
        b < 128,
    ensures
        match r {
            Some(d) => d < 16 && hex_digit_value(b as char) == Some(d as int),
            None => hex_digit_value(b as char) is None,
        },
{
    if 48 <= b && b <= 57 {
        Some(b - 48)
    } else if 97 <= b && b <= 102 {
        Some(b - 87)
    } else if 65 <= b && b <= 70 {
        Some(b - 55)
    } else {
        None
    }
}

/// Reads a 64-bit value from hexadecimal text.
///
/// The text is an optional `+` followed by one or more digits of either
/// case. Text of any other shape, or worth more than `u64::MAX`, gives `None`.
pub fn parse_hex(text: &str) -> (r: Option<u64>)
    ensures
        r == from_hex(text@),
{
    if !text.is_ascii() {
        proof {
            lemma_non_ascii_denotes_nothing(text@);
        }
        return None;
    }
    let bytes = text.as_bytes();
    proof {
        is_ascii_spec_bytes(text);
    }
    let n = bytes.len();
    let start: usize = if n > 0 && bytes[0] == 43 {
        1
    } else {
        0
    };
    let ghost digits = unsigned_part(text@);
    assert(digits.len() == n - start);
    if start == n {
        return None;
    }
    let mut value: u64 = 0;
    let mut i: usize = start;
    assert(digits.subrange(0, 0) =~= Seq::<char>::empty());
    while i < n
        invariant
            start <= i <= n,
            n == bytes@.len(),
            n == text@.len(),
            is_ascii_chars(text@),
            bytes@ == Seq::new(text@.len(), |k: int| text@[k] as u8),
            digits == unsigned_part(text@),
            digits.len() == n - start,
            start <= 1,
            all_hex_digits(digits.subrange(0, i - start)),
            value == hex_digits_value(digits.subrange(0, i - start)),
        decreases n - i,
    {
        let b = bytes[i];
        let ghost c = text@[i as int];
        assert(c == digits[i - start]);
        assert(b as char == c);
        let ghost seen = digits.subrange(0, i - start + 1);
        assert(seen.drop_last() =~= digits.subrange(0, i - start));
        assert(seen.last() == c);
        let d: u8 = match digit_of(b) {
            Some(d) => d,
            None => {
                return None;
            },
        };
        let widened: u64 = match value.checked_mul(16) {
            Some(m) => m,
            None => {
                proof {
                    lemma_prefix_value_bounded(digits, i - start + 1);
                }
                return None;
            },
        };
        value = match widened.checked_add(d as u64) {
            Some(v) => v,
            None => {
                proof {
                    lemma_prefix_value_bounded(digits, i - start + 1);
                }
                return None;
            },
        };
        assert forall|k: int| 0 <= k < seen.len() implies (#[trigger] hex_digit_value(
            seen[k],
        )).is_some() by {
            if k < seen.len() - 1 {
                assert(seen[k] == digits.subrange(0, i - start)[k]);
            }
        }
        i = i + 1;
    }
    assert(digits.subrange(0, n - start) =~= digits);
    Some(value)
}

/// Reading back what `format_hex` wrote gives the value that was written.
pub proof fn lemma_hex_round_trip(v: u64)
    ensures
        from_hex(to_hex(v as nat)) == Some(v),
{
    lemma_to_hex_is_digits(v as nat);
    let s = to_hex(v as nat);
    assert(s[0] != '+') by {
        assert(hex_digit_value(s[0]).is_some());
    }
    assert(unsigned_part(s) == s);
}

/// `to_hex(v)` is a non-empty string of digits whose value is `v`.
pub proof fn lemma_to_hex_is_digits(v: nat)
    ensures
        to_hex(v).len() >= 1,
        all_hex_digits(to_hex(v)),
        hex_digits_value(to_hex(v)) == v,
    decreases v,
{
    if v < 16 {
        let s = to_hex(v);
        assert(s.drop_last() =~= Seq::<char>::empty());
        assert(hex_digit_value(hex_digit_char(v as int)) == Some(v as int));
        assert(hex_digits_value(s.drop_last()) == 0);
    } else {
        lemma_to_hex_is_digits(v / 16);
        let head = to_hex(v / 16);
        let s = to_hex(v);
        let d = (v % 16) as int;
        assert(s.drop_last() =~= head);
        assert(s.last() == hex_digit_char(d));
        assert(hex_digit_value(hex_digit_char(d)) == Some(d));
        assert forall|i: int| 0 <= i < s.len() implies (#[trigger] hex_digit_value(
            s[i],
        )).is_some() by {
            if i < head.len() {
                assert(s[i] == head[i]);
            }
        }
    }
}

} // verus!
