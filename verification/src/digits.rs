//! Decimal digits: reading an unsigned number out of a character run and
//! printing one back, with exact specifications.

use vstd::prelude::*;

verus! {

pub open spec fn is_digit_char(c: char) -> bool {
    48 <= c as u32 <= 57
}

pub open spec fn digit_val(c: char) -> nat {
    (c as u32 - 48) as nat
}

/// The number denoted by a run of decimal digits, most significant first.
pub open spec fn digits_to_nat(s: Seq<char>) -> nat
    decreases s.len(),
{
    if s.len() == 0 {
        0
    } else {
        digits_to_nat(s.drop_last()) * 10 + digit_val(s.last())
    }
}

pub open spec fn all_digits(s: Seq<char>) -> bool {
    forall|i: int| 0 <= i < s.len() ==> is_digit_char(s[i])
}

pub open spec fn digit_char(d: nat) -> char {
    if d == 0 {
        '0'
    } else if d == 1 {
        '1'
    } else if d == 2 {
        '2'
    } else if d == 3 {
        '3'
    } else if d == 4 {
        '4'
    } else if d == 5 {
        '5'
    } else if d == 6 {
        '6'
    } else if d == 7 {
        '7'
    } else if d == 8 {
        '8'
    } else {
        '9'
    }
}

/// The decimal spelling of `n`, without leading zeros (just "0" for zero).
pub open spec fn dec_chars(n: nat) -> Seq<char>
    decreases n,
{
    if n < 10 {
        seq![digit_char(n)]
    } else {
        dec_chars(n / 10).push(digit_char(n % 10))
    }
}

fn digit_char_exec(d: u64) -> (c: char)
    requires
        d < 10,
    ensures
        c == digit_char(d as nat),
{
    if d == 0 {
        '0'
    } else if d == 1 {
        '1'
    } else if d == 2 {
        '2'
    } else if d == 3 {
        '3'
    } else if d == 4 {
        '4'
    } else if d == 5 {
        '5'
    } else if d == 6 {
        '6'
    } else if d == 7 {
        '7'
    } else if d == 8 {
        '8'
    } else {
        '9'
    }
}

/// Decimal spelling of `n` as characters.
pub fn u64_to_chars(n: u64) -> (r: Vec<char>)
    ensures
        r@ == dec_chars(n as nat),
{
    let mut out: Vec<char> = Vec::new();
    let mut m: u64 = n;
    if m < 10 {
        out.push(digit_char_exec(m));
        return out;
    }
    while m >= 10
        invariant
            dec_chars(n as nat) == dec_chars(m as nat) + out@,
        decreases m,
    {
        let d = m % 10;
        out.insert(0, digit_char_exec(d));
        assert(dec_chars(m as nat) == dec_chars((m / 10) as nat).push(digit_char(d as nat)));
        assert(dec_chars((m / 10) as nat) + out@ =~= dec_chars(n as nat));
        m = m / 10;
    }
    out.insert(0, digit_char_exec(m));
    assert(dec_chars(m as nat) + out@.subrange(1, out@.len() as int) =~= out@);
    out
}

/// Value of the digit run, refusing anything that does not fit in a `u64`.
pub fn parse_u64_digits(s: &Vec<char>) -> (r: Option<u64>)
    requires
        all_digits(s@),
    ensures
        match r {
            Some(v) => v as nat == digits_to_nat(s@),
            None => digits_to_nat(s@) > u64::MAX,
        },
{
    let mut acc: u64 = 0;
    let mut k: usize = 0;
    while k < s.len()
        invariant
            k <= s@.len(),
            all_digits(s@),
            acc as nat == digits_to_nat(s@.subrange(0, k as int)),
        decreases s@.len() - k,
    {
        let c = s[k];
        assert(is_digit_char(s@[k as int]));
        let d: u64 = (c as u32 as u64) - 48;
        proof {
            assert(s@.subrange(0, k + 1).drop_last() =~= s@.subrange(0, k as int));
            assert(s@.subrange(0, k + 1).last() == s@[k as int]);
            assert(digits_to_nat(s@.subrange(0, k + 1)) == digits_to_nat(s@.subrange(0, k as int))
                * 10 + digit_val(s@[k as int]));
        }
        if acc > (u64::MAX - d) / 10 {
            proof {
                lemma_digits_monotone(s@, k as int);
                assert(digits_to_nat(s@.subrange(0, k + 1)) == acc * 10 + d);
                assert(acc * 10 + d > u64::MAX) by (nonlinear_arith)
                    requires
                        acc > (u64::MAX - d) / 10,
                        d < 10,
                ;
            }
            return None;
        }
        acc = acc * 10 + d;
        assert(s@.subrange(0, k + 1).drop_last() =~= s@.subrange(0, k as int));
        k += 1;
    }
    assert(s@.subrange(0, s@.len() as int) =~= s@);
    Some(acc)
}

/// A longer digit run denotes at least as large a number.
proof fn lemma_digits_monotone(s: Seq<char>, k: int)
    requires
        0 <= k < s.len(),
        all_digits(s),
    ensures
        digits_to_nat(s) >= digits_to_nat(s.subrange(0, k + 1)),
    decreases s.len() - k,
{
    if k + 1 == s.len() {
        assert(s.subrange(0, k + 1) =~= s);
    } else {
        lemma_digits_monotone(s, k + 1);
        assert(s.subrange(0, k + 2).drop_last() =~= s.subrange(0, k + 1));
        assert(digits_to_nat(s.subrange(0, k + 2)) == digits_to_nat(s.subrange(0, k + 1)) * 10
            + digit_val(s[k + 1]));
    }
}

} // verus!
