//! Decimal formatting and parsing of `u64` values.
//!
//! Token expiry times travel inside claims as string-encoded Unix-seconds
//! integers, so the token service needs both directions: rendering a `u64`
//! as its canonical decimal string, and reading back any decimal string a
//! token might carry (an optional leading `+` and leading zeros included).

use vstd::prelude::*;

verus! {

/// The character for one decimal digit value.
pub open spec fn digit_char(d: int) -> char {
    if d == 0 {
        '0'
    } else if d == 1 {
        '1'
    } else if d == 2 {
        '2'
    } else if d == 3 {
        '3'
    } else if d == 4 {
        '4'
    } else if d == 5 {
        '5'
    } else if d == 6 {
        '6'
    } else if d == 7 {
        '7'
    } else if d == 8 {
        '8'
    } else {
        '9'
    }
}

/// Whether `c` is a decimal digit.
pub open spec fn is_digit(c: char) -> bool {
    c == '0' || c == '1' || c == '2' || c == '3' || c == '4' || c == '5' || c == '6' || c == '7'
        || c == '8' || c == '9'
}

/// The value of a digit character (9 for anything that is not a digit,
/// which keeps the function total; callers guard with `is_digit`).
pub open spec fn digit_value(c: char) -> int {
    if c == '0' {
        0
    } else if c == '1' {
        1
    } else if c == '2' {
        2
    } else if c == '3' {
        3
    } else if c == '4' {
        4
    } else if c == '5' {
        5
    } else if c == '6' {
        6
    } else if c == '7' {
        7
    } else if c == '8' {
        8
    } else {
        9
    }
}

/// Canonical decimal representation of a natural number, most significant
/// digit first, with no sign and no leading zeros.
pub open spec fn dec_of(n: nat) -> Seq<char>
    decreases n,
{
    if n < 10 {
        seq![digit_char(n as int)]
    } else {
        dec_of(n / 10).push(digit_char((n % 10) as int))
    }
}

/// Whether every character of `s` is a decimal digit.
pub open spec fn all_digits(s: Seq<char>) -> bool {
    forall|i: int| 0 <= i < s.len() ==> is_digit(s[i])
}

/// The value of a digit string, most significant digit first.
pub open spec fn dec_value(s: Seq<char>) -> nat
    decreases s.len(),
{
    if s.len() == 0 {
        0
    } else {
        (dec_value(s.drop_last()) * 10 + digit_value(s.last())) as nat
    }
}

/// What parsing a string as a `u64` yields: after an optional leading `+`
/// there must be one or more decimal digits (leading zeros allowed) whose
/// value fits in a `u64`.
pub open spec fn parse_u64_spec(s: Seq<char>) -> Option<u64> {
    let body = if s.len() > 0 && s[0] == '+' {
        s.drop_first()
    } else {
        s
    };
    if body.len() > 0 && all_digits(body) && dec_value(body) <= u64::MAX {
        Some(dec_value(body) as u64)
    } else {
        None
    }
}

/// The canonical representation is made of digits, is never empty, and
/// reads back to the number it was made from.
pub proof fn lemma_dec_of_props(n: nat)
    ensures
        dec_of(n).len() >= 1,
        all_digits(dec_of(n)),
        dec_value(dec_of(n)) == n,
    decreases n,
{
    if n < 10 {
        assert(dec_of(n) =~= seq![digit_char(n as int)]);
        assert(dec_of(n).drop_last() =~= Seq::<char>::empty());
        assert(dec_value(Seq::<char>::empty()) == 0);
        assert(dec_of(n).last() == digit_char(n as int));
        assert(digit_value(digit_char(n as int)) == n);
    } else {
        lemma_dec_of_props(n / 10);
        let prefix = dec_of(n / 10);
        assert(dec_of(n) =~= prefix.push(digit_char((n % 10) as int)));
        assert(dec_of(n).drop_last() =~= prefix);
        assert(dec_of(n).last() == digit_char((n % 10) as int));
        assert(digit_value(digit_char((n % 10) as int)) == n % 10);
        assert(dec_value(dec_of(n)) == (n / 10) * 10 + n % 10);
        assert((n / 10) * 10 + n % 10 == n) by (nonlinear_arith);
        assert forall|i: int| 0 <= i < dec_of(n).len() implies is_digit(dec_of(n)[i]) by {
            if i < prefix.len() {
                assert(dec_of(n)[i] == prefix[i]);
            }
        }
    }
}

/// Formatting then parsing gives the number back.
pub proof fn lemma_parse_round_trip(n: u64)
    ensures
        parse_u64_spec(dec_of(n as nat)) == Some(n),
{
    lemma_dec_of_props(n as nat);
    let s = dec_of(n as nat);
    assert(is_digit(s[0]));
    assert(s[0] != '+');
}

/// A prefix of a digit string never exceeds the whole string's value.
proof fn lemma_dec_value_prefix(s: Seq<char>, k: int)
    requires
        0 <= k <= s.len(),
    ensures
        dec_value(s.subrange(0, k)) <= dec_value(s),
    decreases s.len() - k,
{
    if k < s.len() {
        let shorter = s.drop_last();
        assert(shorter.subrange(0, k) =~= s.subrange(0, k));
        lemma_dec_value_prefix(shorter, k);
        assert(dec_value(shorter) * 10 + digit_value(s.last()) >= dec_value(shorter)) by (nonlinear_arith);
    } else {
        assert(s.subrange(0, k) =~= s);
    }
}

/// The digit value of a character, or `None` if it is not a digit.
fn digit_of(c: char) -> (r: Option<u64>)
    ensures
        match r {
            Some(d) => is_digit(c) && d == digit_value(c),
            None => !is_digit(c),
        },
{
    match c {
        '0' => Some(0),
        '1' => Some(1),
        '2' => Some(2),
        '3' => Some(3),
        '4' => Some(4),
        '5' => Some(5),
        '6' => Some(6),
        '7' => Some(7),
        '8' => Some(8),
        '9' => Some(9),
        _ => None,
    }
}

/// Parse a decimal `u64`, accepting exactly what `parse_u64_spec` accepts.
#[verifier::loop_isolation(false)]
#[verifier::rlimit(30)]
pub fn parse_u64(s: &str) -> (r: Option<u64>)
    ensures
        r == parse_u64_spec(s@),
{
    let n = s.unicode_len();
    let start: usize = if n > 0 && s.get_char(0) == '+' {
        1
    } else {
        0
    };
    let ghost body = if s@.len() > 0 && s@[0] == '+' {
        s@.drop_first()
    } else {
        s@
    };
    assert(body =~= s@.subrange(start as int, n as int));
    if start == n {
        return None;
    }
    let mut acc: u64 = 0;
    let mut i: usize = start;
    while i < n
        invariant
            start <= i <= n,
            n == s@.len(),
            start == 0 || start == 1,
            body =~= s@.subrange(start as int, n as int),
            body.len() == n - start,
            body.len() > 0,
            all_digits(body.subrange(0, i - start)),
            acc == dec_value(body.subrange(0, i - start)),
        decreases n - i,
    {
        let c = s.get_char(i);
        assert(body[i - start] == c);
        let d = match digit_of(c) {
            Some(d) => d,
            None => {
                return None;
            },
        };
        let limit = (u64::MAX - d) / 10;
        if acc > limit {
            proof {
                let done = body.subrange(0, i + 1 - start);
                assert(done.drop_last() =~= body.subrange(0, i - start));
                assert(done.last() == c);
                assert(acc * 10 + d > u64::MAX) by (nonlinear_arith)
                    requires
                        acc > (u64::MAX - d) / 10,
                        d <= 9,
                ;
                lemma_dec_value_prefix(body, i + 1 - start);
                assert(dec_value(body) > u64::MAX);
            }
            return None;
        }
        proof {
            let done = body.subrange(0, i + 1 - start);
            assert(done.drop_last() =~= body.subrange(0, i - start));
            assert(done.last() == c);
            assert(acc * 10 + d <= u64::MAX) by (nonlinear_arith)
                requires
                    acc <= (u64::MAX - d) / 10,
                    d <= 9,
            ;
            assert forall|j: int| 0 <= j < done.len() implies is_digit(done[j]) by {
                if j < done.len() - 1 {
                    assert(done[j] == body.subrange(0, i - start)[j]);
                }
            }
        }
        acc = acc * 10 + d;
        i = i + 1;
    }
    proof {
        assert(body.subrange(0, i - start) =~= body);
    }
    Some(acc)
}

/// A single-digit string slice.
fn digit_str(d: u64) -> (r: &'static str)
    requires
        d < 10,
    ensures
        r@ == seq![digit_char(d as int)],
{
    match d {
        0 => {
            proof {
                reveal_strlit("0");
                assert("0"@ =~= seq![digit_char(0)]);
            }
            "0"
        },
        1 => {
            proof {
                reveal_strlit("1");
                assert("1"@ =~= seq![digit_char(1)]);
            }
            "1"
        },
        2 => {
            proof {
                reveal_strlit("2");
                assert("2"@ =~= seq![digit_char(2)]);
            }
            "2"
        },
        3 => {
            proof {
                reveal_strlit("3");
                assert("3"@ =~= seq![digit_char(3)]);
            }
            "3"
        },
        4 => {
            proof {
                reveal_strlit("4");
                assert("4"@ =~= seq![digit_char(4)]);
            }
            "4"
        },
        5 => {
            proof {
                reveal_strlit("5");
                assert("5"@ =~= seq![digit_char(5)]);
            }
            "5"
        },
        6 => {
            proof {
                reveal_strlit("6");
                assert("6"@ =~= seq![digit_char(6)]);
            }
            "6"
        },
        7 => {
            proof {
                reveal_strlit("7");
                assert("7"@ =~= seq![digit_char(7)]);
            }
            "7"
        },
        8 => {
            proof {
                reveal_strlit("8");
                assert("8"@ =~= seq![digit_char(8)]);
            }
            "8"
        },
        _ => {
            proof {
                reveal_strlit("9");
                assert("9"@ =~= seq![digit_char(9)]);
            }
            "9"
        },
    }
}

/// Render `n` as its canonical decimal string.
pub fn u64_to_dec(n: u64) -> (s: String)
    ensures
        s@ == dec_of(n as nat),
    decreases n,
{
    if n < 10 {
        digit_str(n).to_owned()
    } else {
        let mut s = u64_to_dec(n / 10);
        s.append(digit_str(n % 10));
        proof {
            assert(s@ =~= dec_of((n / 10) as nat).push(digit_char((n % 10) as int)));
        }
        s
    }
}

} // verus!
