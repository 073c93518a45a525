//! Parsing of the interactive device choice: a trimmed line of input is
//! read as an unsigned decimal number, exactly as the standard decimal
//! grammar for an unsigned integer has it (digits, optionally preceded by
//! one plus sign), with overflow rejected.

use vstd::prelude::*;

verus! {

/// Whether a byte is a decimal digit.
pub open spec fn is_dec_digit(b: u8) -> bool {
    48 <= b <= 57
}

/// The digit run of the text: everything after an optional leading plus.
pub open spec fn digit_run(s: Seq<u8>) -> Seq<u8> {
    if s.len() > 0 && s[0] == 43 {
        s.drop_first()
    } else {
        s
    }
}

/// Whether the text is a well-formed unsigned decimal number: a nonempty
/// run of digits, optionally preceded by one plus sign.
pub open spec fn valid_decimal(s: Seq<u8>) -> bool {
    digit_run(s).len() > 0 && forall|i: int|
        0 <= i < digit_run(s).len() ==> is_dec_digit(#[trigger] digit_run(s)[i])
}

/// The value of a run of decimal digits, most significant first.
pub open spec fn dec_value(digits: Seq<u8>) -> nat
    decreases digits.len(),
{
    if digits.len() == 0 {
        0
    } else {
        dec_value(digits.drop_last()) * 10 + (digits.last() - 48) as nat
    }
}

/// A longer digit run never has a smaller value: the value of a prefix is a
/// lower bound on the value of the whole run.
proof fn lemma_dec_value_prefix_bound(digits: Seq<u8>, i: int)
    requires
        0 <= i <= digits.len(),
        forall|j: int| 0 <= j < digits.len() ==> is_dec_digit(#[trigger] digits[j]),
    ensures
        dec_value(digits) >= dec_value(digits.take(i)),
    decreases digits.len() - i,
{
    if i == digits.len() {
        assert(digits.take(i) =~= digits);
    } else {
        lemma_dec_value_prefix_bound(digits, i + 1);
        assert(digits.take(i + 1).drop_last() =~= digits.take(i));
        assert(dec_value(digits.take(i + 1)) == dec_value(digits.take(i)) * 10 + (digits[i] - 48));
    }
}

/// Parse the trimmed interactive input as an unsigned decimal number:
/// `Some` with its value exactly when the text is a well-formed number
/// whose value fits, `None` on anything else (malformed text or overflow).
pub fn parse_usize(s: &Vec<u8>) -> (r: Option<usize>)
    ensures
        match r {
            Some(n) => valid_decimal(s@) && n == dec_value(digit_run(s@)),
            None => !valid_decimal(s@) || dec_value(digit_run(s@)) > usize::MAX,
        },
{
    let start: usize = if s.len() > 0 && s[0] == 43 {
        1
    } else {
        0
    };
    proof {
        assert(digit_run(s@) =~= s@.subrange(start as int, s@.len() as int));
    }
    if s.len() == start {
        return None;
    }
    let ghost digits = digit_run(s@);
    let mut val: usize = 0;
    let mut i: usize = start;
    while i < s.len()
        invariant
            start <= i <= s@.len(),
            digits == digit_run(s@),
            digits =~= s@.subrange(start as int, s@.len() as int),
            forall|j: int| start <= j < i ==> is_dec_digit(#[trigger] s@[j]),
            val == dec_value(digits.take(i - start)),
        decreases s.len() - i,
    {
        let b: u8 = s[i];
        if b < 48 || b > 57 {
            proof {
                assert(!is_dec_digit(digits[i - start]));
            }
            return None;
        }
        let d: usize = (b - 48) as usize;
        if val > (usize::MAX - d) / 10 {
            proof {
                assert(digits.take(i - start + 1).drop_last() =~= digits.take(i - start));
                assert(digits.take(i - start + 1).last() == s@[i as int]);
                assert(dec_value(digits.take(i - start + 1)) == val * 10 + d);
                assert(val >= (usize::MAX - d) / 10 + 1);
                assert(((usize::MAX - d) / 10 + 1) * 10 + d > usize::MAX) by (nonlinear_arith);
                assert(val * 10 + d > usize::MAX) by (nonlinear_arith)
                    requires
                        val >= (usize::MAX - d) / 10 + 1,
                        ((usize::MAX - d) / 10 + 1) * 10 + d > usize::MAX,
                ;
                if forall|j: int| 0 <= j < digits.len() ==> is_dec_digit(#[trigger] digits[j]) {
                    lemma_dec_value_prefix_bound(digits, i - start + 1);
                }
            }
            return None;
        }
        proof {
            assert(val * 10 + d <= usize::MAX) by (nonlinear_arith)
                requires
                    val <= (usize::MAX - d) / 10,
                    d <= 9,
            ;
            assert(digits.take(i - start + 1).drop_last() =~= digits.take(i - start));
            assert(digits.take(i - start + 1).last() == s@[i as int]);
        }
        val = val * 10 + d;
        i = i + 1;
    }
    proof {
        assert(digits.take(s@.len() - start) =~= digits);
    }
    Some(val)
}

} // verus!
