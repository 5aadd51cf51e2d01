//! Reading the number typed at the "Go to line" prompt.

use vstd::prelude::*;

use crate::chars::{chars_of, is_whitespace};
use crate::editor_model::{
    all_digits, digits_value, is_digit, lemma_digits_value_monotone, spec_line_number, spec_parse_usize,
    trim_end, trim_start,
};
use crate::screen::{digit_char, spec_decimal};

verus! {

/// The line number typed at the "Go to line" prompt: surrounding white
/// space is ignored, then an optional `+` and decimal digits must follow.
pub fn parse_line_number(input: &str) -> (r: Option<usize>)
    ensures
        match r {
            Some(n) => spec_line_number(input@) == Some(n as int),
            None => spec_line_number(input@) is None,
        },
{
    let cs = chars_of(input);
    let n = cs.len();
    let mut a: usize = 0;
    assert(cs@.skip(0) =~= cs@);
    while a < n && is_whitespace(cs[a])
        invariant
            a <= n,
            n == cs@.len(),
            trim_start(cs@) == trim_start(cs@.skip(a as int)),
        decreases n - a,
    {
        assert(cs@.skip(a as int).drop_first() =~= cs@.skip(a + 1));
        a = a + 1;
    }
    assert(trim_start(cs@) == cs@.skip(a as int));
    let mut b: usize = n;
    assert(cs@.skip(a as int) =~= cs@.subrange(a as int, b as int));
    while b > a && is_whitespace(cs[b - 1])
        invariant
            a <= b <= n,
            n == cs@.len(),
            trim_end(cs@.skip(a as int)) == trim_end(cs@.subrange(a as int, b as int)),
        decreases b,
    {
        assert(cs@.subrange(a as int, b as int).drop_last() =~= cs@.subrange(a as int, b - 1));
        b = b - 1;
    }
    let ghost body = cs@.subrange(a as int, b as int);
    assert(trim_end(trim_start(cs@)) == body);
    assert(spec_line_number(input@) == spec_parse_usize(body));
    let mut i = a;
    if i < b && cs[i] == '+' {
        i = i + 1;
    }
    let ghost digits = cs@.subrange(i as int, b as int);
    assert(digits == (if body.len() > 0 && body[0] == '+' {
        body.drop_first()
    } else {
        body
    }));
    if i == b {
        return None;
    }
    let mut k = i;
    while k < b
        invariant
            i <= k <= b,
            b <= n,
            n == cs@.len(),
            digits == cs@.subrange(i as int, b as int),
            spec_line_number(input@) == spec_parse_usize(body),
            digits == (if body.len() > 0 && body[0] == '+' {
                body.drop_first()
            } else {
                body
            }),
            forall|j: int| i <= j < k ==> is_digit(#[trigger] cs@[j]),
        decreases b - k,
    {
        if !('0' <= cs[k] && cs[k] <= '9') {
            assert(!is_digit(digits[k - i]));
            assert(!all_digits(digits));
            return None;
        }
        k = k + 1;
    }
    assert(forall|j: int| 0 <= j < digits.len() ==> is_digit(#[trigger] digits[j])) by {
        assert forall|j: int| 0 <= j < digits.len() implies is_digit(#[trigger] digits[j]) by {
            assert(digits[j] == cs@[i + j]);
        }
    }
    let mut v: usize = 0;
    k = i;
    assert(cs@.subrange(i as int, k as int) =~= Seq::<char>::empty());
    while k < b
        invariant
            i <= k <= b,
            b <= n,
            n == cs@.len(),
            digits == cs@.subrange(i as int, b as int),
            spec_line_number(input@) == spec_parse_usize(body),
            digits == (if body.len() > 0 && body[0] == '+' {
                body.drop_first()
            } else {
                body
            }),
            digits.len() > 0,
            forall|j: int| 0 <= j < digits.len() ==> is_digit(#[trigger] digits[j]),
            v == digits_value(cs@.subrange(i as int, k as int)),
        decreases b - k,
    {
        let ghost pre = cs@.subrange(i as int, k + 1);
        assert(pre.drop_last() =~= cs@.subrange(i as int, k as int));
        assert(pre =~= digits.take(k + 1 - i));
        assert(is_digit(digits[k - i]));
        proof {
            lemma_digits_value_monotone(digits, k + 1 - i);
        }
        let d = (cs[k] as u32 - '0' as u32) as usize;
        match v.checked_mul(10) {
            Some(x) => match x.checked_add(d) {
                Some(y) => {
                    v = y;
                },
                None => {
                    return None;
                },
            },
            None => {
                return None;
            },
        }
        k = k + 1;
    }
    assert(cs@.subrange(i as int, b as int) =~= digits);
    Some(v)
}

/// The decimal digits that the status line shows for a number read back
/// as that number: they are all digits, and reading them gives the number.
pub proof fn lemma_decimal_reads_back(n: nat)
    requires
        n <= usize::MAX,
    ensures
        all_digits(spec_decimal(n)),
        spec_decimal(n).len() >= 1,
        spec_decimal(n)[0] != '+',
        spec_parse_usize(spec_decimal(n)) == Some(n as int),
    decreases n,
{
    let s = spec_decimal(n);
    if n < 10 {
        assert(digits_value(s.drop_last()) == 0);
    } else {
        lemma_decimal_reads_back(n / 10);
        let p = spec_decimal(n / 10);
        let d = (n % 10) as int;
        assert(s.drop_last() =~= p);
        assert(s[0] == p[0]);
        vstd::arithmetic::div_mod::lemma_fundamental_div_mod(n as int, 10);
        assert(digits_value(s) == digits_value(p) * 10 + (digit_char(d) as int - '0' as int));
        assert(forall|i: int| 0 <= i < s.len() ==> is_digit(#[trigger] s[i])) by {
            assert forall|i: int| 0 <= i < s.len() implies is_digit(#[trigger] s[i]) by {
                if i < p.len() {
                    assert(s[i] == p[i]);
                }
            }
        }
    }
}

} // verus!
