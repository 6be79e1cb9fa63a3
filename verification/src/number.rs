//! Decimal text of a 16-bit signed number: what a text stands for, and the
//! text that a number is shown as.

use vstd::prelude::*;
use vstd::string::*;

verus! {

/// The character is one of `0` to `9`.
pub open spec fn is_digit(c: char) -> bool {
    48 <= c as u32 <= 57
}

/// The value of a decimal digit.
pub open spec fn digit_of(c: char) -> int {
    c as u32 - 48
}

/// The decimal digit with the value `d`.
pub open spec fn digit_char(d: int) -> char {
    (d + 48) as char
}

/// Every character of `s` is a decimal digit.
pub open spec fn all_digits(s: Seq<char>) -> bool {
    forall|i: int| 0 <= i < s.len() ==> is_digit(#[trigger] s[i])
}

/// The number that a sequence of decimal digits is read as, most significant
/// digit first. Leading zeros do not count.
pub open spec fn digits_value(s: Seq<char>) -> int
    decreases s.len(),
{
    if s.len() == 0 {
        0
    } else {
        10 * digits_value(s.drop_last()) + digit_of(s.last())
    }
}

/// The text begins with a sign.
pub open spec fn has_sign(s: Seq<char>) -> bool {
    s.len() > 0 && (s[0] == '-' || s[0] == '+')
}

/// The number that a text stands for: an optional sign, then one or more
/// decimal digits, with a value from -32768 to 32767. Any other text stands
/// for no number.
pub open spec fn number_of_text(s: Seq<char>) -> Option<i16> {
    let digits = if has_sign(s) {
        s.subrange(1, s.len() as int)
    } else {
        s
    };
    let magnitude = digits_value(digits);
    let value = if has_sign(s) && s[0] == '-' {
        -magnitude
    } else {
        magnitude
    };
    if digits.len() > 0 && all_digits(digits) && -32768 <= value <= 32767 {
        Some(value as i16)
    } else {
        None
    }
}

/// The decimal digits of `n`, without leading zeros.
pub open spec fn text_of_nat(n: nat) -> Seq<char>
    decreases n,
{
    if n < 10 {
        seq![digit_char(n as int)]
    } else {
        text_of_nat(n / 10).push(digit_char((n % 10) as int))
    }
}

/// The text that a number is shown as: a minus sign where it is negative, then
/// its decimal digits.
pub open spec fn text_of_number(n: i16) -> Seq<char> {
    if n < 0 {
        seq!['-'] + text_of_nat((-n) as nat)
    } else {
        text_of_nat(n as nat)
    }
}

proof fn lemma_digits_value_nonnegative(s: Seq<char>)
    requires
        all_digits(s),
    ensures
        digits_value(s) >= 0,
    decreases s.len(),
{
    if s.len() > 0 {
        assert(is_digit(s[s.len() - 1]));
        lemma_digits_value_nonnegative(s.drop_last());
    }
}

proof fn lemma_prefix_value_bounded(s: Seq<char>, k: int)
    requires
        all_digits(s),
        0 <= k <= s.len(),
    ensures
        0 <= digits_value(s.take(k)) <= digits_value(s),
    decreases s.len() - k,
{
    if k == s.len() {
        assert(s.take(k) =~= s);
        lemma_digits_value_nonnegative(s);
    } else {
        lemma_prefix_value_bounded(s, k + 1);
        let longer = s.take(k + 1);
        assert(longer.drop_last() =~= s.take(k));
        assert(is_digit(s[k]));
        assert(longer.last() == s[k]);
        assert(all_digits(s.take(k))) by {
            assert forall|i: int| 0 <= i < s.take(k).len() implies is_digit(
                #[trigger] s.take(k)[i],
            ) by {
                assert(is_digit(s[i]));
            }
        }
        lemma_digits_value_nonnegative(s.take(k));
    }
}

/// Reads a text as a 16-bit signed decimal number.
pub fn parse_number(text: &str) -> (r: Option<i16>)
    ensures
        r == number_of_text(text@),
{
    let n: usize = text.unicode_len();
    if n == 0 {
        return None;
    }
    let first: char = text.get_char(0);
    let negative: bool = first == '-';
    let start: usize = if first == '-' || first == '+' {
        1
    } else {
        0
    };
    let ghost digits = if has_sign(text@) {
        text@.subrange(1, n as int)
    } else {
        text@
    };
    if start == n {
        return None;
    }
    let mut acc: i32 = 0;
    let mut i: usize = start;
    while i < n
        invariant
            start <= i <= n,
            n == text@.len(),
            digits == text@.subrange(start as int, n as int),
            digits == (if has_sign(text@) {
                text@.subrange(1, n as int)
            } else {
                text@
            }),
            negative == (has_sign(text@) && text@[0] == '-'),
            all_digits(digits.take(i - start)),
            acc == digits_value(digits.take(i - start)),
            0 <= acc <= 32768,
        decreases n - i,
    {
        let c: char = text.get_char(i);
        let code: u32 = c as u32;
        if code < 48 || code > 57 {
            assert(!is_digit(digits[i - start]));
            return None;
        }
        let next: i32 = acc * 10 + (code - 48) as i32;
        proof {
            let longer = digits.take(i - start + 1);
            assert(longer.drop_last() =~= digits.take(i - start));
            assert(longer.last() == c);
            assert(next == digits_value(longer));
            assert(all_digits(longer)) by {
                assert forall|j: int| 0 <= j < longer.len() implies is_digit(
                    #[trigger] longer[j],
                ) by {
                    if j < i - start {
                        assert(is_digit(digits.take(i - start)[j]));
                    }
                }
            }
        }
        if next > 32768 {
            proof {
                if all_digits(digits) {
                    lemma_prefix_value_bounded(digits, i - start + 1);
                }
            }
            return None;
        }
        acc = next;
        i += 1;
    }
    assert(digits.take(n - start) =~= digits);
    if negative {
        Some((-acc) as i16)
    } else if acc == 32768 {
        None
    } else {
        Some(acc as i16)
    }
}

fn digit_text(d: u32) -> (s: &'static str)
    requires
        d < 10,
    ensures
        s@ == seq![digit_char(d as int)],
{
    proof {
        reveal_strlit("0");
        reveal_strlit("1");
        reveal_strlit("2");
        reveal_strlit("3");
        reveal_strlit("4");
        reveal_strlit("5");
        reveal_strlit("6");
        reveal_strlit("7");
        reveal_strlit("8");
        reveal_strlit("9");
    }
    let s = if d == 0 {
        "0"
    } else if d == 1 {
        "1"
    } else if d == 2 {
        "2"
    } else if d == 3 {
        "3"
    } else if d == 4 {
        "4"
    } else if d == 5 {
        "5"
    } else if d == 6 {
        "6"
    } else if d == 7 {
        "7"
    } else if d == 8 {
        "8"
    } else {
        "9"
    };
    assert(s@ =~= seq![digit_char(d as int)]);
    s
}

fn append_digits(out: &mut String, m: u32)
    ensures
        final(out)@ == old(out)@ + text_of_nat(m as nat),
    decreases m,
{
    if m >= 10 {
        append_digits(out, m / 10);
    }
    out.append(digit_text(m % 10));
    assert(final(out)@ =~= old(out)@ + text_of_nat(m as nat));
}

/// Writes a number as decimal text.
pub fn format_number(n: i16) -> (r: String)
    ensures
        r@ == text_of_number(n),
{
    let mut out = String::new();
    if n < 0 {
        proof {
            reveal_strlit("-");
        }
        out.append("-");
        let magnitude: u32 = (-(n as i32)) as u32;
        append_digits(&mut out, magnitude);
        assert(out@ =~= text_of_number(n));
    } else {
        append_digits(&mut out, n as u32);
        assert(out@ =~= text_of_number(n));
    }
    out
}

/// What the decimal digits of a number are, read back: at least one
/// character, digits only, with the number as their value.
pub proof fn lemma_text_of_nat_reads_back(n: nat)
    ensures
        text_of_nat(n).len() > 0,
        all_digits(text_of_nat(n)),
        digits_value(text_of_nat(n)) == n,
    decreases n,
{
    let t = text_of_nat(n);
    if n < 10 {
        assert(t.drop_last() =~= Seq::<char>::empty());
        assert(digits_value(t.drop_last()) == 0);
    } else {
        lemma_text_of_nat_reads_back(n / 10);
        assert(t.drop_last() =~= text_of_nat(n / 10));
        assert forall|i: int| 0 <= i < t.len() implies is_digit(#[trigger] t[i]) by {
            if i < t.len() - 1 {
                assert(is_digit(text_of_nat(n / 10)[i]));
            }
        }
    }
}

/// A number that is shown as text and read again is the same number.
pub proof fn lemma_number_round_trip(n: i16)
    ensures
        number_of_text(text_of_number(n)) == Some(n),
{
    let t = text_of_number(n);
    if n < 0 {
        let digits = text_of_nat((-n) as nat);
        lemma_text_of_nat_reads_back((-n) as nat);
        assert(t.subrange(1, t.len() as int) =~= digits);
        assert(t[0] == '-');
    } else {
        lemma_text_of_nat_reads_back(n as nat);
        assert(is_digit(t[0]));
    }
}

} // verus!
