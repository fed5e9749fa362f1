//! Decimal numerals over character sequences.
//!
//! The capture-spec grammar carries unsigned decimal numbers; this module
//! gives them a mathematical model (`dec_val`, `dec_seq`) and verified
//! executable parsing and rendering.

use vstd::prelude::*;

verus! {

use vstd::string::StrSliceExecFns;
use vstd::string::StringExecFns;

/// A decimal digit character, `'0'` through `'9'`.
pub open spec fn is_digit_char(c: char) -> bool {
    48 <= c as int <= 57
}

/// Numeric value of a digit character.
pub open spec fn digit_val(c: char) -> int {
    c as int - 48
}

/// Every character of `s` is a decimal digit.
pub open spec fn all_digits(s: Seq<char>) -> bool {
    forall|i: int| 0 <= i < s.len() ==> is_digit_char(#[trigger] s[i])
}

/// Value of a digit string, most significant digit first.
pub open spec fn dec_val(s: Seq<char>) -> int
    decreases s.len(),
{
    if s.len() == 0 {
        0
    } else {
        dec_val(s.drop_last()) * 10 + digit_val(s.last())
    }
}

/// The digit character for a value in `0..10`.
pub open spec fn digit_char(d: int) -> char {
    if d == 0 {
        '0'
    } else if d == 1 {
        '1'
    } else if d == 2 {
        '2'
    } else if d == 3 {
        '3'
    } else if d == 4 {
        '4'
    } else if d == 5 {
        '5'
    } else if d == 6 {
        '6'
    } else if d == 7 {
        '7'
    } else if d == 8 {
        '8'
    } else {
        '9'
    }
}

/// Canonical decimal rendering of `n`: no sign, no leading zeros
/// (except for the single digit of zero itself).
pub open spec fn dec_seq(n: nat) -> Seq<char>
    decreases n,
{
    if n < 10 {
        seq![digit_char(n as int)]
    } else {
        dec_seq(n / 10).push(digit_char((n % 10) as int))
    }
}

/// The number denoted by `t` under the accepted grammar: an optional
/// leading `'+'`, then one or more digits, denoting a value that fits
/// in a `u32`. Anything else (including overflow) denotes nothing.
pub open spec fn u32_from_dec(t: Seq<char>) -> Option<u32> {
    let body = if t.len() > 0 && t[0] == '+' {
        t.drop_first()
    } else {
        t
    };
    if body.len() > 0 && all_digits(body) && dec_val(body) <= u32::MAX {
        Some(dec_val(body) as u32)
    } else {
        None
    }
}

/// The canonical rendering consists of digits only.
pub proof fn lemma_dec_seq_digits(n: nat)
    ensures
        dec_seq(n).len() >= 1,
        all_digits(dec_seq(n)),
    decreases n,
{
    if n < 10 {
    } else {
        lemma_dec_seq_digits(n / 10);
        assert forall|i: int| 0 <= i < dec_seq(n).len() implies is_digit_char(
            #[trigger] dec_seq(n)[i],
        ) by {
            if i < dec_seq(n / 10).len() {
                assert(dec_seq(n)[i] == dec_seq(n / 10)[i]);
            }
        }
    }
}

/// The canonical rendering of `n` denotes `n`.
pub proof fn lemma_dec_val_dec_seq(n: nat)
    ensures
        dec_val(dec_seq(n)) == n,
    decreases n,
{
    if n < 10 {
        reveal_with_fuel(dec_val, 2);
        assert(dec_seq(n).drop_last() =~= Seq::<char>::empty());
        assert(dec_seq(n).last() == digit_char(n as int));
        assert(dec_val(dec_seq(n)) == dec_val(Seq::<char>::empty()) * 10 + digit_val(
            digit_char(n as int),
        ));
    } else {
        lemma_dec_val_dec_seq(n / 10);
        assert(dec_seq(n).drop_last() =~= dec_seq(n / 10));
        assert(dec_seq(n).last() == digit_char((n % 10) as int));
        assert(dec_val(dec_seq(n)) == dec_val(dec_seq(n / 10)) * 10 + digit_val(
            digit_char((n % 10) as int),
        ));
        assert(n / 10 * 10 + n % 10 == n) by (nonlinear_arith);
    }
}

/// A digit string's value only grows as digits are appended.
pub proof fn lemma_dec_val_prefix_le(s: Seq<char>, i: int)
    requires
        0 <= i <= s.len(),
        all_digits(s),
    ensures
        dec_val(s.take(i)) <= dec_val(s),
    decreases s.len() - i,
{
    if i < s.len() {
        lemma_dec_val_prefix_le(s, i + 1);
        assert(s.take(i + 1).drop_last() =~= s.take(i));
        assert(s.take(i + 1).last() == s[i]);
        assert(dec_val(s.take(i)) * 10 + digit_val(s[i]) >= dec_val(s.take(i))) by {
            lemma_dec_val_nonneg(s.take(i));
        }
    } else {
        assert(s.take(i) =~= s);
    }
}

/// The value of a digit string is non-negative.
pub proof fn lemma_dec_val_nonneg(s: Seq<char>)
    requires
        all_digits(s),
    ensures
        dec_val(s) >= 0,
    decreases s.len(),
{
    if s.len() > 0 {
        assert(all_digits(s.drop_last()));
        lemma_dec_val_nonneg(s.drop_last());
    }
}

/// Parse a whole string as an unsigned decimal number, exactly as
/// `u32_from_dec` describes it.
pub fn parse_u32(t: &str) -> (r: Option<u32>)
    ensures
        r == u32_from_dec(t@),
{
    let n = t.unicode_len();
    let start: usize = if n > 0 && t.get_char(0) == '+' {
        1
    } else {
        0
    };
    let ghost body = if t@.len() > 0 && t@[0] == '+' {
        t@.drop_first()
    } else {
        t@
    };
    assert(body =~= t@.subrange(start as int, n as int));
    if start == n {
        return None;
    }
    let mut acc: u32 = 0;
    let mut i: usize = start;
    while i < n
        invariant
            start <= i <= n,
            n == t@.len(),
            body == t@.subrange(start as int, n as int),
            body == (if t@.len() > 0 && t@[0] == '+' {
                t@.drop_first()
            } else {
                t@
            }),
            all_digits(body.take(i - start)),
            acc == dec_val(body.take(i - start)),
        decreases n - i,
    {
        let c = t.get_char(i);
        let u = c as u32;
        assert(body.take(i + 1 - start).drop_last() =~= body.take(i - start));
        assert(body.take(i + 1 - start).last() == t@[i as int]);
        if u < 48 || u > 57 {
            proof {
                assert(body[i - start] == t@[i as int]);
                assert(!is_digit_char(body[i - start]));
                assert(!all_digits(body));
                assert(u32_from_dec(t@) is None);
            }
            return None;
        }
        let d = u - 48;
        proof {
            assert(is_digit_char(t@[i as int]));
            assert(digit_val(t@[i as int]) == d);
        }
        if acc > (u32::MAX - d) / 10 {
            proof {
                lemma_dec_val_nonneg(body.take(i - start));
                assert(dec_val(body.take(i + 1 - start)) == acc * 10 + d);
                assert(acc * 10 + d > u32::MAX) by (nonlinear_arith)
                    requires
                        acc > (u32::MAX - d) / 10,
                        0 <= d <= 9,
                ;
                if all_digits(body) {
                    lemma_dec_val_prefix_le(body, i + 1 - start);
                    assert(dec_val(body) > u32::MAX);
                }
                assert(u32_from_dec(t@) is None);
            }
            return None;
        }
        assert(acc * 10 + d <= u32::MAX) by (nonlinear_arith)
            requires
                acc <= (u32::MAX - d) / 10,
                0 <= d <= 9,
        ;
        acc = acc * 10 + d;
        i = i + 1;
    }
    proof {
        assert(body.take(n - start) =~= body);
    }
    Some(acc)
}

/// Append the canonical decimal rendering of `n` to `out`.
pub fn append_u32(out: &mut String, n: u32)
    ensures
        final(out)@ == old(out)@ + dec_seq(n as nat),
    decreases n,
{
    if n >= 10 {
        append_u32(out, n / 10);
    }
    let d = n % 10;
    proof {
        reveal_strlit("0");
        reveal_strlit("1");
        reveal_strlit("2");
        reveal_strlit("3");
        reveal_strlit("4");
        reveal_strlit("5");
        reveal_strlit("6");
        reveal_strlit("7");
        reveal_strlit("8");
        reveal_strlit("9");
    }
    if d == 0 {
        out.append("0");
    } else if d == 1 {
        out.append("1");
    } else if d == 2 {
        out.append("2");
    } else if d == 3 {
        out.append("3");
    } else if d == 4 {
        out.append("4");
    } else if d == 5 {
        out.append("5");
    } else if d == 6 {
        out.append("6");
    } else if d == 7 {
        out.append("7");
    } else if d == 8 {
        out.append("8");
    } else {
        out.append("9");
    }
    proof {
        assert(out@ =~= old(out)@ + dec_seq(n as nat));
    }
}

} // verus!
