//! Decimal text: reading the digits embedded in a string, and rendering a
//! number as its decimal digits.

use vstd::prelude::*;
use vstd::string::StrSliceExecFns;
use vstd::string::StringExecFns;

verus! {

/// Whether `c` is one of the ten ASCII digits.
pub open spec fn is_digit_char(c: char) -> bool {
    48 <= c as u32 && c as u32 <= 57
}

/// The numeric value of an ASCII digit.
pub open spec fn digit_val(c: char) -> int {
    c as u32 - 48
}

/// The subsequence of ASCII digits of `s`, in order.
pub open spec fn digit_seq(s: Seq<char>) -> Seq<char>
    decreases s.len(),
{
    if s.len() == 0 {
        Seq::empty()
    } else if is_digit_char(s.last()) {
        digit_seq(s.drop_last()).push(s.last())
    } else {
        digit_seq(s.drop_last())
    }
}

/// The number a sequence of digits denotes in base ten; the empty sequence
/// denotes zero.
pub open spec fn digits_val(ds: Seq<char>) -> int
    decreases ds.len(),
{
    if ds.len() == 0 {
        0
    } else {
        10 * digits_val(ds.drop_last()) + digit_val(ds.last())
    }
}

/// Every character of the digit subsequence is a digit.
pub proof fn lemma_digit_seq_all_digits(s: Seq<char>)
    ensures
        forall|k: int| 0 <= k < digit_seq(s).len() ==> is_digit_char(#[trigger] digit_seq(s)[k]),
    decreases s.len(),
{
    if s.len() > 0 {
        lemma_digit_seq_all_digits(s.drop_last());
        if is_digit_char(s.last()) {
            let p = digit_seq(s.drop_last()).push(s.last());
            assert(forall|k: int|
                0 <= k < p.len() - 1 ==> p[k] == #[trigger] digit_seq(s.drop_last())[k]);
            assert(p.last() == s.last());
        }
    }
}

/// A sequence of digits denotes a number that is not negative.
pub proof fn lemma_digits_val_nonneg(ds: Seq<char>)
    requires
        forall|k: int| 0 <= k < ds.len() ==> is_digit_char(#[trigger] ds[k]),
    ensures
        digits_val(ds) >= 0,
    decreases ds.len(),
{
    if ds.len() > 0 {
        assert(forall|k: int|
            0 <= k < ds.drop_last().len() ==> is_digit_char(#[trigger] ds.drop_last()[k]));
        lemma_digits_val_nonneg(ds.drop_last());
    }
}

/// Appending a digit never lowers the denoted number.
pub proof fn lemma_digits_val_push_ge(ds: Seq<char>, c: char)
    requires
        forall|k: int| 0 <= k < ds.len() ==> is_digit_char(#[trigger] ds[k]),
        is_digit_char(c),
    ensures
        digits_val(ds.push(c)) >= digits_val(ds),
        digits_val(ds.push(c)) >= digit_val(c),
{
    lemma_digits_val_nonneg(ds);
    assert(ds.push(c).drop_last() =~= ds);
}

/// The digits of a prefix of `s` denote at most what the digits of all of
/// `s` denote: scanning further characters only grows the number read.
pub proof fn lemma_digit_seq_prefix_le(s: Seq<char>, i: int)
    requires
        0 <= i <= s.len(),
    ensures
        digits_val(digit_seq(s)) >= digits_val(digit_seq(s.take(i))),
    decreases s.len(),
{
    if i == s.len() {
        assert(s.take(i) =~= s);
    } else {
        assert(s.drop_last().take(i) =~= s.take(i));
        lemma_digit_seq_prefix_le(s.drop_last(), i);
        lemma_digit_seq_all_digits(s.drop_last());
        if is_digit_char(s.last()) {
            lemma_digits_val_push_ge(digit_seq(s.drop_last()), s.last());
        }
    }
}

/// The character for one decimal digit.
pub open spec fn digit_char(d: int) -> char {
    if d == 0 {
        '0'
    } else if d == 1 {
        '1'
    } else if d == 2 {
        '2'
    } else if d == 3 {
        '3'
    } else if d == 4 {
        '4'
    } else if d == 5 {
        '5'
    } else if d == 6 {
        '6'
    } else if d == 7 {
        '7'
    } else if d == 8 {
        '8'
    } else {
        '9'
    }
}

/// The decimal digits of `n`, most significant first, without leading
/// zeros (zero itself is the single digit `0`).
pub open spec fn spec_digits(n: int) -> Seq<char>
    decreases n,
{
    if n < 10 {
        seq![digit_char(n)]
    } else {
        spec_digits(n / 10).push(digit_char(n % 10))
    }
}

/// Reading the rendered digits of a number back gives the number: the
/// rendering is that number's decimal numeral.
pub proof fn lemma_digits_round_trip(n: int)
    requires
        n >= 0,
    ensures
        digits_val(spec_digits(n)) == n,
    decreases n,
{
    if n < 10 {
        assert(spec_digits(n).drop_last() =~= Seq::<char>::empty());
        assert(digit_val(digit_char(n)) == n);
        assert(spec_digits(n).len() == 1);
        assert(spec_digits(n).last() == digit_char(n));
        assert(digits_val(Seq::<char>::empty()) == 0);
    } else {
        lemma_digits_round_trip(n / 10);
        assert(spec_digits(n).drop_last() =~= spec_digits(n / 10));
        assert(spec_digits(n).last() == digit_char(n % 10));
        assert(0 <= n % 10 < 10);
        assert(digit_val(digit_char(n % 10)) == n % 10);
        assert(n == 10 * (n / 10) + n % 10) by (nonlinear_arith)
            requires
                n >= 10,
        ;
    }
}

/// The one-character text of a decimal digit.
fn digit_str(d: u32) -> (s: &'static str)
    requires
        d < 10,
    ensures
        s@ == seq![digit_char(d as int)],
{
    if d == 0 {
        proof {
            reveal_strlit("0");
            assert("0"@ =~= seq![digit_char(0)]);
        }
        "0"
    } else if d == 1 {
        proof {
            reveal_strlit("1");
            assert("1"@ =~= seq![digit_char(1)]);
        }
        "1"
    } else if d == 2 {
        proof {
            reveal_strlit("2");
            assert("2"@ =~= seq![digit_char(2)]);
        }
        "2"
    } else if d == 3 {
        proof {
            reveal_strlit("3");
            assert("3"@ =~= seq![digit_char(3)]);
        }
        "3"
    } else if d == 4 {
        proof {
            reveal_strlit("4");
            assert("4"@ =~= seq![digit_char(4)]);
        }
        "4"
    } else if d == 5 {
        proof {
            reveal_strlit("5");
            assert("5"@ =~= seq![digit_char(5)]);
        }
        "5"
    } else if d == 6 {
        proof {
            reveal_strlit("6");
            assert("6"@ =~= seq![digit_char(6)]);
        }
        "6"
    } else if d == 7 {
        proof {
            reveal_strlit("7");
            assert("7"@ =~= seq![digit_char(7)]);
        }
        "7"
    } else if d == 8 {
        proof {
            reveal_strlit("8");
            assert("8"@ =~= seq![digit_char(8)]);
        }
        "8"
    } else {
        proof {
            reveal_strlit("9");
            assert("9"@ =~= seq![digit_char(9)]);
        }
        "9"
    }
}

/// Renders `n` as its decimal digits.
pub fn u32_digits(n: u32) -> (s: String)
    ensures
        s@ == spec_digits(n as int),
    decreases n,
{
    if n < 10 {
        String::from_str(digit_str(n))
    } else {
        let rest = u32_digits(n / 10);
        let last = digit_str(n % 10);
        let r = rest.concat(last);
        proof {
            assert(r@ =~= spec_digits(n as int));
        }
        r
    }
}

} // verus!
