//! Bridge between values with a canonical text form and JSON string fields.
//!
//! The wire format stores 64-bit integers as JSON strings of decimal digits,
//! so that JSON consumers which read numbers as doubles cannot lose
//! precision.  This module renders a `u64` as its canonical decimal text and
//! parses such text back, rejecting signs, non-digits, the empty string and
//! values beyond 64 bits.

use vstd::prelude::*;

use crate::DecodeError;

verus! {

/// True of the ten ASCII digit characters.
pub open spec fn is_digit(c: char) -> bool {
    c == '0' || c == '1' || c == '2' || c == '3' || c == '4' || c == '5' || c == '6' || c == '7'
        || c == '8' || c == '9'
}

/// The numeric value of a digit character.
pub open spec fn digit_val(c: char) -> nat
    recommends
        is_digit(c),
{
    if c == '0' {
        0
    } else if c == '1' {
        1
    } else if c == '2' {
        2
    } else if c == '3' {
        3
    } else if c == '4' {
        4
    } else if c == '5' {
        5
    } else if c == '6' {
        6
    } else if c == '7' {
        7
    } else if c == '8' {
        8
    } else {
        9
    }
}

/// The digit character of a value below ten.
pub open spec fn digit_char(d: nat) -> char
    recommends
        d < 10,
{
    if d == 0 {
        '0'
    } else if d == 1 {
        '1'
    } else if d == 2 {
        '2'
    } else if d == 3 {
        '3'
    } else if d == 4 {
        '4'
    } else if d == 5 {
        '5'
    } else if d == 6 {
        '6'
    } else if d == 7 {
        '7'
    } else if d == 8 {
        '8'
    } else {
        '9'
    }
}

/// Every character of `s` is a decimal digit.
pub open spec fn all_digits(s: Seq<char>) -> bool {
    forall|i: int| 0 <= i < s.len() ==> is_digit(#[trigger] s[i])
}

/// The value denoted by a sequence of digit characters, most significant
/// digit first.
pub open spec fn digits_val(s: Seq<char>) -> nat
    decreases s.len(),
{
    if s.len() == 0 {
        0
    } else {
        digits_val(s.drop_last()) * 10 + digit_val(s.last())
    }
}

/// The canonical decimal rendering of `n`: no sign, and no leading zeros
/// ("0" for zero).
pub open spec fn dec_digits(n: nat) -> Seq<char>
    decreases n,
{
    if n < 10 {
        seq![digit_char(n)]
    } else {
        dec_digits(n / 10).push(digit_char(n % 10))
    }
}

/// `s` is a non-empty run of digits whose value fits in 64 bits: exactly the
/// strings that `deserialize` accepts.
pub open spec fn digits_ok(s: Seq<char>) -> bool {
    s.len() > 0 && all_digits(s) && digits_val(s) <= u64::MAX
}

/// Law (numeric fidelity, rendering side): the canonical decimal text of any
/// `n` is a non-empty digit run that denotes `n` itself, and starts with '0'
/// only for `n == 0`.
pub proof fn lemma_dec_digits(n: nat)
    ensures
        all_digits(dec_digits(n)),
        dec_digits(n).len() >= 1,
        digits_val(dec_digits(n)) == n,
        dec_digits(n)[0] == '0' <==> n == 0,
    decreases n,
{
    if n < 10 {
        let s = seq![digit_char(n)];
        assert(s.len() == 1);
        assert(s.last() == digit_char(n));
        assert(s.drop_last() =~= Seq::<char>::empty());
        assert(digits_val(Seq::<char>::empty()) == 0);
        assert(digits_val(s) == digit_val(digit_char(n)));
    } else {
        lemma_dec_digits(n / 10);
        let s = dec_digits(n / 10).push(digit_char(n % 10));
        assert(s.drop_last() =~= dec_digits(n / 10));
        assert(digits_val(s) == (n / 10) * 10 + digit_val(digit_char(n % 10)));
        assert(digit_val(digit_char(n % 10)) == n % 10);
        assert((n / 10) * 10 + n % 10 == n);
        assert(s[0] == dec_digits(n / 10)[0]);
    }
}

/// Law (numeric fidelity): the canonical decimal text of any unsigned
/// 64-bit value is accepted by `deserialize` and denotes that value, so
/// encoding then decoding a numeric field is exact.  The failing side is
/// `deserialize`'s own contract: any other string - empty, signed, with a
/// non-digit, or beyond 64 bits - is rejected.
pub proof fn lemma_decimal_round_trip(n: u64)
    ensures
        digits_ok(dec_digits(n as nat)),
        digits_val(dec_digits(n as nat)) == n as nat,
{
    lemma_dec_digits(n as nat);
}

/// The value of a prefix never exceeds the value of the whole digit run.
proof fn lemma_digits_val_prefix(s: Seq<char>, k: int)
    requires
        0 <= k <= s.len(),
    ensures
        digits_val(s.take(k)) <= digits_val(s),
    decreases s.len(),
{
    if k == s.len() {
        assert(s.take(k) =~= s);
    } else {
        assert(s.take(k) =~= s.drop_last().take(k));
        lemma_digits_val_prefix(s.drop_last(), k);
        assert(digits_val(s) == digits_val(s.drop_last()) * 10 + digit_val(s.last()));
        assert(digits_val(s.drop_last()) * 10 >= digits_val(s.drop_last()));
    }
}

/// The one-character string of a digit value.
fn digit_to_str(d: u8) -> (r: &'static str)
    requires
        d < 10,
    ensures
        r@ =~= seq![digit_char(d as nat)],
{
    match d {
        0 => {
            proof {
                reveal_strlit("0");
            }
            "0"
        },
        1 => {
            proof {
                reveal_strlit("1");
            }
            "1"
        },
        2 => {
            proof {
                reveal_strlit("2");
            }
            "2"
        },
        3 => {
            proof {
                reveal_strlit("3");
            }
            "3"
        },
        4 => {
            proof {
                reveal_strlit("4");
            }
            "4"
        },
        5 => {
            proof {
                reveal_strlit("5");
            }
            "5"
        },
        6 => {
            proof {
                reveal_strlit("6");
            }
            "6"
        },
        7 => {
            proof {
                reveal_strlit("7");
            }
            "7"
        },
        8 => {
            proof {
                reveal_strlit("8");
            }
            "8"
        },
        _ => {
            proof {
                reveal_strlit("9");
            }
            "9"
        },
    }
}

/// Renders `value` as its canonical decimal text, the contents of the JSON
/// string written for a numeric field.
pub fn serialize(value: u64) -> (r: String)
    ensures
        r@ == dec_digits(value as nat),
    decreases value,
{
    if value < 10 {
        let s = digit_to_str(value as u8);
        let r = s.to_owned();
        proof {
            assert(r@ =~= dec_digits(value as nat));
        }
        r
    } else {
        let mut r = serialize(value / 10);
        let d = digit_to_str((value % 10) as u8);
        r.append(d);
        proof {
            assert(r@ =~= dec_digits(value as nat));
        }
        r
    }
}

/// The digit value of a character, or `None` for a non-digit.
fn char_digit(c: char) -> (r: Option<u8>)
    ensures
        match r {
            Some(d) => is_digit(c) && d < 10 && d as nat == digit_val(c),
            None => !is_digit(c),
        },
{
    match c {
        '0' => Some(0),
        '1' => Some(1),
        '2' => Some(2),
        '3' => Some(3),
        '4' => Some(4),
        '5' => Some(5),
        '6' => Some(6),
        '7' => Some(7),
        '8' => Some(8),
        '9' => Some(9),
        _ => None,
    }
}

/// Parses the contents of a numeric wire field: a non-empty run of decimal
/// digits denoting a value below 2^64.  Anything else - the empty string, a
/// sign, any non-digit character, or a value beyond 64 bits - is rejected as
/// `MalformedNumber`.
pub fn deserialize(s: &str) -> (r: Result<u64, DecodeError>)
    ensures
        match r {
            Ok(v) => digits_ok(s@) && v as nat == digits_val(s@),
            Err(e) => e == DecodeError::MalformedNumber && !digits_ok(s@),
        },
{
    let n = s.unicode_len();
    if n == 0 {
        return Err(DecodeError::MalformedNumber);
    }
    let mut acc: u64 = 0;
    let mut i: usize = 0;
    while i < n
        invariant
            i <= n,
            n == s@.len(),
            all_digits(s@.take(i as int)),
            acc as nat == digits_val(s@.take(i as int)),
        decreases n - i,
    {
        let c = s.get_char(i);
        let d = match char_digit(c) {
            Some(d) => d,
            None => {
                proof {
                    assert(!is_digit(s@[i as int]));
                }
                return Err(DecodeError::MalformedNumber);
            },
        };
        if acc > u64::MAX / 10 || (acc == u64::MAX / 10 && d > (u64::MAX % 10) as u8) {
            proof {
                let p = s@.take(i + 1);
                assert(p.drop_last() =~= s@.take(i as int));
                assert(p.last() == s@[i as int]);
                assert(digits_val(p) == acc as nat * 10 + d as nat);
                lemma_digits_val_prefix(s@, i + 1);
                assert(digits_val(s@) > u64::MAX);
            }
            return Err(DecodeError::MalformedNumber);
        }
        acc = acc * 10 + d as u64;
        proof {
            let p = s@.take(i + 1);
            assert(p.drop_last() =~= s@.take(i as int));
            assert(p.last() == s@[i as int]);
        }
        i = i + 1;
    }
    proof {
        assert(s@.take(n as int) =~= s@);
    }
    Ok(acc)
}

} // verus!
