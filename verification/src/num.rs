use vstd::prelude::*;

use crate::chars::digit_char;
use crate::chars::digit_val;
use crate::chars::is_digit_char;
use vstd::string::StrSliceExecFns;
use vstd::string::StringExecFns;

verus! {

/// The value of a sequence of decimal digit characters, most significant
/// first.
pub open spec fn digits_val(ds: Seq<char>) -> nat
    decreases ds.len(),
{
    if ds.len() == 0 {
        0
    } else {
        digits_val(ds.drop_last()) * 10 + digit_val(ds.last())
    }
}

/// The decimal digit characters of a number, most significant first, with no
/// leading zero except for the number zero itself.
pub open spec fn dec_digits(n: nat) -> Seq<char>
    decreases n,
{
    if n < 10 {
        seq![digit_char(n)]
    } else {
        dec_digits(n / 10) + seq![digit_char(n % 10)]
    }
}

/// A longer digit sequence never has a smaller value.
pub proof fn lemma_digits_val_prefix(ds: Seq<char>, i: int, j: int)
    requires
        0 <= i <= j <= ds.len(),
    ensures
        digits_val(ds.subrange(0, i)) <= digits_val(ds.subrange(0, j)),
    decreases j - i,
{
    if i < j {
        lemma_digits_val_prefix(ds, i, j - 1);
        assert(ds.subrange(0, j).drop_last() =~= ds.subrange(0, j - 1));
        assert(digits_val(ds.subrange(0, j)) == digits_val(ds.subrange(0, j - 1)) * 10
            + digit_val(ds.subrange(0, j).last()));
        assert(digits_val(ds.subrange(0, j - 1)) * 10 >= digits_val(ds.subrange(0, j - 1)));
    }
}

/// Parses a sequence of decimal digits as a 32-bit unsigned number, reporting
/// overflow exactly when the value does not fit.
pub fn parse_u32_digits(s: &str) -> (r: Option<u32>)
    requires
        s@.len() > 0,
        forall|k: int| 0 <= k < s@.len() ==> is_digit_char(s@[k]),
    ensures
        match r {
            Some(v) => v as nat == digits_val(s@) && digits_val(s@) <= u32::MAX,
            None => digits_val(s@) > u32::MAX,
        },
{
    let n = s.unicode_len();
    let mut acc: u32 = 0;
    let mut i: usize = 0;
    proof {
        assert(s@.subrange(0, 0) =~= Seq::<char>::empty());
    }
    while i < n
        invariant
            0 <= i <= n,
            n == s@.len(),
            forall|k: int| 0 <= k < s@.len() ==> is_digit_char(s@[k]),
            acc as nat == digits_val(s@.subrange(0, i as int)),
        decreases n - i,
    {
        let c = s.get_char(i);
        let d: u32 = (c as u32) - 0x30;
        proof {
            assert(is_digit_char(s@[i as int]));
            assert(d == digit_val(s@[i as int]));
            assert(s@.subrange(0, i + 1).drop_last() =~= s@.subrange(0, i as int));
            assert(s@.subrange(0, i + 1).last() == s@[i as int]);
            assert(digits_val(s@.subrange(0, i + 1)) == (acc as nat) * 10 + d as nat);
        }
        if acc > (u32::MAX - d) / 10 {
            proof {
                let m = (u32::MAX - d) as int;
                assert(m == 10 * (m / 10) + (m % 10)) by (nonlinear_arith)
                    requires m >= 0;
                assert(m % 10 <= 9) by (nonlinear_arith)
                    requires m >= 0;
                assert(acc as int * 10 >= (m / 10 + 1) * 10) by (nonlinear_arith)
                    requires acc as int >= m / 10 + 1;
                assert(acc as int * 10 + d as int > u32::MAX as int);
                lemma_digits_val_prefix(s@, i + 1, n as int);
                assert(s@.subrange(0, n as int) =~= s@);
            }
            return None;
        }
        proof {
            let m = (u32::MAX - d) as int;
            assert(m == 10 * (m / 10) + (m % 10)) by (nonlinear_arith)
                requires m >= 0;
            assert(acc as int * 10 <= (m / 10) * 10) by (nonlinear_arith)
                requires acc as int <= m / 10;
            assert(acc as int * 10 + d as int <= u32::MAX as int);
        }
        acc = acc * 10 + d;
        i += 1;
    }
    proof {
        assert(s@.subrange(0, n as int) =~= s@);
    }
    Some(acc)
}

/// Runtime counterpart of `digit_char`.
fn digit_str(d: u32) -> (r: &'static str)
    requires
        d < 10,
    ensures
        r@ == seq![digit_char(d as nat)],
{
    proof {
        reveal_strlit("0");
        reveal_strlit("1");
        reveal_strlit("2");
        reveal_strlit("3");
        reveal_strlit("4");
        reveal_strlit("5");
        reveal_strlit("6");
        reveal_strlit("7");
        reveal_strlit("8");
        reveal_strlit("9");
    }
    let r = if d == 0 {
        "0"
    } else if d == 1 {
        "1"
    } else if d == 2 {
        "2"
    } else if d == 3 {
        "3"
    } else if d == 4 {
        "4"
    } else if d == 5 {
        "5"
    } else if d == 6 {
        "6"
    } else if d == 7 {
        "7"
    } else if d == 8 {
        "8"
    } else {
        "9"
    };
    proof {
        assert(r@ =~= seq![digit_char(d as nat)]);
    }
    r
}

/// Renders a 32-bit unsigned number in decimal.
pub fn u32_to_string(n: u32) -> (r: String)
    ensures
        r@ == dec_digits(n as nat),
    decreases n,
{
    if n < 10 {
        digit_str(n).to_owned()
    } else {
        let q = u32_to_string(n / 10);
        let r = q.concat(digit_str(n % 10));
        r
    }
}

} // verus!
