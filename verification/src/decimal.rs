//! Decimal text codec for 64-bit unsigned identifiers.
//!
//! The backing store keeps member and message identifiers as decimal text,
//! because its native integer column is signed and would corrupt values
//! above `i64::MAX`. Encoding and decoding happen only here, at the store
//! edge, and decoding fails loudly on text that is not a valid decimal
//! unsigned 64-bit number.

use vstd::prelude::*;
use vstd::string::*;

verus! {

/// The character for one decimal digit value in `[0, 10)`.
pub open spec fn digit_char(d: int) -> char {
    if d == 0 {
        '0'
    } else if d == 1 {
        '1'
    } else if d == 2 {
        '2'
    } else if d == 3 {
        '3'
    } else if d == 4 {
        '4'
    } else if d == 5 {
        '5'
    } else if d == 6 {
        '6'
    } else if d == 7 {
        '7'
    } else if d == 8 {
        '8'
    } else {
        '9'
    }
}

/// Whether `c` is a decimal digit character.
pub open spec fn is_digit(c: char) -> bool {
    48 <= c as int && c as int <= 57
}

/// The numeric value of a digit character.
pub open spec fn digit_value(c: char) -> nat {
    (c as int - 48) as nat
}

/// The canonical decimal text of a number: no sign, no leading zeros,
/// most significant digit first.
pub open spec fn decimal_digits(n: nat) -> Seq<char>
    decreases n,
{
    if n < 10 {
        seq![digit_char(n as int)]
    } else {
        decimal_digits(n / 10) + seq![digit_char((n % 10) as int)]
    }
}

/// Whether every character of `s` is a decimal digit.
pub open spec fn all_digits(s: Seq<char>) -> bool {
    forall|i: int| 0 <= i < s.len() ==> is_digit(#[trigger] s[i])
}

/// The number that a digit string denotes.
pub open spec fn decimal_value(s: Seq<char>) -> nat
    decreases s.len(),
{
    if s.len() == 0 {
        0
    } else {
        decimal_value(s.drop_last()) * 10 + digit_value(s.last())
    }
}

/// Whether `s` is text that decodes to an unsigned 64-bit number:
/// non-empty, digits only, and within range.
pub open spec fn is_valid_u64_text(s: Seq<char>) -> bool {
    s.len() > 0 && all_digits(s) && decimal_value(s) <= u64::MAX
}

/// The canonical text of a digit value, as a borrowed one-character string.
fn digit_str(d: u8) -> (r: &'static str)
    requires
        d < 10,
    ensures
        r@ == seq![digit_char(d as int)],
{
    let r: &'static str = if d == 0 {
        "0"
    } else if d == 1 {
        "1"
    } else if d == 2 {
        "2"
    } else if d == 3 {
        "3"
    } else if d == 4 {
        "4"
    } else if d == 5 {
        "5"
    } else if d == 6 {
        "6"
    } else if d == 7 {
        "7"
    } else if d == 8 {
        "8"
    } else {
        "9"
    };
    proof {
        reveal_strlit("0");
        reveal_strlit("1");
        reveal_strlit("2");
        reveal_strlit("3");
        reveal_strlit("4");
        reveal_strlit("5");
        reveal_strlit("6");
        reveal_strlit("7");
        reveal_strlit("8");
        reveal_strlit("9");
        assert(r@ =~= seq![digit_char(d as int)]);
    }
    r
}

/// The digit characters of `ds` read back to front.
spec fn rev_digit_chars(ds: Seq<u8>) -> Seq<char> {
    Seq::new(ds.len(), |i: int| digit_char(ds[ds.len() - 1 - i] as int))
}

/// Encodes an identifier as canonical decimal text.
pub fn encode_u64(v: u64) -> (r: String)
    ensures
        r@ == decimal_digits(v as nat),
{
    let mut digits: Vec<u8> = Vec::new();
    let mut n: u64 = v;
    loop
        invariant_except_break
            digits@.len() == 0 ==> n == v,
            digits@.len() > 0 ==> n != 0 && decimal_digits(v as nat) == decimal_digits(n as nat)
                + rev_digit_chars(digits@),
        invariant
            forall|i: int| 0 <= i < digits@.len() ==> #[trigger] digits@[i] < 10,
        ensures
            forall|i: int| 0 <= i < digits@.len() ==> #[trigger] digits@[i] < 10,
            decimal_digits(v as nat) == rev_digit_chars(digits@),
        decreases n,
    {
        let ghost old_digits = digits@;
        let ghost old_n = n as nat;
        digits.push((n % 10) as u8);
        n = n / 10;
        proof {
            let pushed = rev_digit_chars(digits@);
            assert(pushed =~= seq![digit_char((old_n % 10) as int)] + rev_digit_chars(old_digits));
            if old_n >= 10 {
                assert(decimal_digits(old_n) == decimal_digits(old_n / 10)
                    + seq![digit_char((old_n % 10) as int)]);
            }
            if old_digits.len() == 0 {
                if old_n < 10 {
                    assert(pushed =~= decimal_digits(v as nat));
                } else {
                    assert(decimal_digits(old_n / 10) + pushed =~= decimal_digits(v as nat));
                }
            } else {
                if old_n < 10 {
                    assert(decimal_digits(old_n) + rev_digit_chars(old_digits) =~= pushed);
                } else {
                    assert(decimal_digits(old_n) + rev_digit_chars(old_digits)
                        =~= (decimal_digits(old_n / 10) + pushed));
                }
            }
        }
        if n == 0 {
            break;
        }
    }
    let mut r = String::new();
    let mut i: usize = digits.len();
    while i > 0
        invariant
            i <= digits@.len(),
            forall|k: int| 0 <= k < digits@.len() ==> #[trigger] digits@[k] < 10,
            decimal_digits(v as nat) == rev_digit_chars(digits@),
            r@ == rev_digit_chars(digits@).take(digits@.len() - i),
        decreases i,
    {
        i = i - 1;
        let d = digits[i];
        r.append(digit_str(d));
        proof {
            assert(r@ =~= rev_digit_chars(digits@).take(digits@.len() - i));
        }
    }
    proof {
        assert(rev_digit_chars(digits@).take(digits@.len() - 0) =~= rev_digit_chars(digits@));
    }
    r
}

/// The value of a longer digit prefix is at least the value of a shorter one.
proof fn lemma_decimal_value_prefix_mono(s: Seq<char>, i: int, j: int)
    requires
        0 <= i <= j <= s.len(),
    ensures
        decimal_value(s.take(i)) <= decimal_value(s.take(j)),
    decreases j - i,
{
    if i < j {
        lemma_decimal_value_prefix_mono(s, i, j - 1);
        assert(s.take(j).drop_last() =~= s.take(j - 1));
        assert(decimal_value(s.take(j)) == decimal_value(s.take(j - 1)) * 10
            + digit_value(s.take(j).last()));
    }
}

/// Decodes decimal text back to an identifier. Returns `None` on empty
/// text, any non-digit character, or a value that does not fit in 64 bits:
/// a malformed identifier is reported, never truncated.
pub fn parse_u64(s: &str) -> (r: Option<u64>)
    ensures
        r == if is_valid_u64_text(s@) {
            Some(decimal_value(s@) as u64)
        } else {
            None::<u64>
        },
{
    let n = s.unicode_len();
    if n == 0 {
        return None;
    }
    let mut acc: u64 = 0;
    let mut i: usize = 0;
    while i < n
        invariant
            0 <= i <= n,
            n == s@.len(),
            all_digits(s@.take(i as int)),
            acc == decimal_value(s@.take(i as int)),
        decreases n - i,
    {
        let c = s.get_char(i);
        let cv = c as u32;
        if cv < 48 || cv > 57 {
            assert(!is_digit(s@[i as int]));
            return None;
        }
        let d = (cv - 48) as u64;
        let wide: u128 = acc as u128 * 10 + d as u128;
        proof {
            assert(s@.take(i + 1).drop_last() =~= s@.take(i as int));
            assert(decimal_value(s@.take(i + 1)) == decimal_value(s@.take(i as int)) * 10
                + digit_value(s@[i as int]));
        }
        if wide > u64::MAX as u128 {
            proof {
                lemma_decimal_value_prefix_mono(s@, i + 1, n as int);
                assert(s@.take(n as int) =~= s@);
            }
            return None;
        }
        acc = wide as u64;
        i = i + 1;
    }
    proof {
        assert(s@.take(n as int) =~= s@);
    }
    Some(acc)
}

/// The canonical decimal text of a number has at least one character,
/// holds digits only, and denotes the number itself.
pub proof fn lemma_decimal_digits_value(n: nat)
    ensures
        decimal_digits(n).len() >= 1,
        all_digits(decimal_digits(n)),
        decimal_value(decimal_digits(n)) == n,
    decreases n,
{
    if n < 10 {
        assert(decimal_value(decimal_digits(n))
            == decimal_value(decimal_digits(n).drop_last()) * 10
            + digit_value(decimal_digits(n).last()));
        assert(decimal_digits(n).drop_last() =~= Seq::<char>::empty());
    } else {
        lemma_decimal_digits_value(n / 10);
        assert(decimal_digits(n).drop_last() =~= decimal_digits(n / 10));
        assert(decimal_digits(n).last() == digit_char((n % 10) as int));
    }
}

/// An identifier survives the trip through its stored text unchanged:
/// the canonical text of any unsigned 64-bit value is valid decimal text
/// and decodes to the same value. With the contracts of `encode_u64` and
/// `parse_u64`, a write-then-read cycle through the store neither
/// truncates nor sign-corrupts an identifier.
pub proof fn lemma_identifier_round_trip(v: u64)
    ensures
        is_valid_u64_text(decimal_digits(v as nat)),
        decimal_value(decimal_digits(v as nat)) == v as nat,
{
    lemma_decimal_digits_value(v as nat);
}

} // verus!
