use vstd::prelude::*;

use vstd::string::StringExecFns;

verus! {

/// The character for one decimal digit.
pub open spec fn digit_char(d: nat) -> char {
    if d == 0 {
        '0'
    } else if d == 1 {
        '1'
    } else if d == 2 {
        '2'
    } else if d == 3 {
        '3'
    } else if d == 4 {
        '4'
    } else if d == 5 {
        '5'
    } else if d == 6 {
        '6'
    } else if d == 7 {
        '7'
    } else if d == 8 {
        '8'
    } else {
        '9'
    }
}

/// The decimal rendering of a natural number, most significant digit
/// first, with no leading zeroes (except for zero itself).
pub open spec fn dec_digits(n: nat) -> Seq<char>
    decreases n,
{
    if n < 10 {
        seq![digit_char(n)]
    } else {
        dec_digits(n / 10).push(digit_char(n % 10))
    }
}

/// The decimal rendering of an integer: a minus sign in front of the
/// digits when it is negative.
pub open spec fn dec_signed(x: int) -> Seq<char> {
    if x >= 0 {
        dec_digits(x as nat)
    } else {
        seq!['-'] + dec_digits((-x) as nat)
    }
}

fn digit_str(d: u64) -> (r: &'static str)
    requires
        d < 10,
    ensures
        r@ == seq![digit_char(d as nat)],
{
    proof {
        reveal_strlit("0");
        reveal_strlit("1");
        reveal_strlit("2");
        reveal_strlit("3");
        reveal_strlit("4");
        reveal_strlit("5");
        reveal_strlit("6");
        reveal_strlit("7");
        reveal_strlit("8");
        reveal_strlit("9");
    }
    let r = if d == 0 {
        "0"
    } else if d == 1 {
        "1"
    } else if d == 2 {
        "2"
    } else if d == 3 {
        "3"
    } else if d == 4 {
        "4"
    } else if d == 5 {
        "5"
    } else if d == 6 {
        "6"
    } else if d == 7 {
        "7"
    } else if d == 8 {
        "8"
    } else {
        "9"
    };
    proof {
        assert(r@ =~= seq![digit_char(d as nat)]);
    }
    r
}

/// The digit characters named by `ds`, read back to front.
spec fn rev_chars(ds: Seq<u64>) -> Seq<char> {
    Seq::new(ds.len(), |i: int| digit_char(ds[ds.len() - 1 - i] as nat))
}

/// Render a number in decimal.
pub fn u64_to_string(n: u64) -> (r: String)
    ensures
        r@ == dec_digits(n as nat),
{
    if n == 0 {
        let r = "0".to_owned();
        proof {
            reveal_strlit("0");
            assert(r@ =~= dec_digits(0));
        }
        return r;
    }
    let mut digits: Vec<u64> = Vec::new();
    let mut x = n;
    while x > 0
        invariant
            x == 0 ==> digits.len() > 0,
            forall|j: int| 0 <= j < digits.len() ==> digits@[j] < 10,
            x > 0 ==> dec_digits(n as nat) == dec_digits(x as nat) + rev_chars(digits@),
            x == 0 ==> dec_digits(n as nat) == rev_chars(digits@),
        decreases x,
    {
        let d = x % 10;
        let ghost pre = digits@;
        digits.push(d);
        proof {
            assert(rev_chars(digits@) =~= seq![digit_char(d as nat)] + rev_chars(pre));
            if x >= 10 {
                assert(dec_digits(x as nat) == dec_digits((x as nat) / 10).push(
                    digit_char((x as nat) % 10),
                ));
                assert(dec_digits((x / 10) as nat) + rev_chars(digits@) =~= dec_digits(x as nat)
                    + rev_chars(pre));
            } else {
                assert(dec_digits(x as nat) =~= seq![digit_char(d as nat)]);
                assert(rev_chars(digits@) =~= dec_digits(x as nat) + rev_chars(pre));
            }
        }
        x = x / 10;
    }
    let mut out = String::new();
    let mut i = digits.len();
    while i > 0
        invariant
            i <= digits.len(),
            forall|j: int| 0 <= j < digits.len() ==> digits@[j] < 10,
            out@ == rev_chars(digits@).take(digits.len() - i),
            dec_digits(n as nat) == rev_chars(digits@),
        decreases i,
    {
        i = i - 1;
        out.append(digit_str(digits[i]));
        proof {
            assert(out@ =~= rev_chars(digits@).take(digits.len() - i));
        }
    }
    proof {
        assert(out@ =~= rev_chars(digits@));
    }
    out
}

/// Render a signed number in decimal.
pub fn i64_to_string(x: i64) -> (r: String)
    ensures
        r@ == dec_signed(x as int),
{
    if x >= 0 {
        u64_to_string(x as u64)
    } else {
        let mag = (-(x as i128)) as u64;
        let mut out = String::new();
        out.append("-");
        let d = u64_to_string(mag);
        out.append(d.as_str());
        proof {
            reveal_strlit("-");
            assert("-"@ =~= seq!['-']);
            assert(out@ =~= dec_signed(x as int));
        }
        out
    }
}

} // verus!
