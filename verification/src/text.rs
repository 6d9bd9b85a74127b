//! Building message text: decimal numerals, levels rounded to one decimal
//! place, and lower-casing of file extensions.

use vstd::prelude::*;

verus! {

/// The numeral character for a decimal digit.
pub open spec fn digit_char(d: nat) -> char {
    if d == 0 {
        '0'
    } else if d == 1 {
        '1'
    } else if d == 2 {
        '2'
    } else if d == 3 {
        '3'
    } else if d == 4 {
        '4'
    } else if d == 5 {
        '5'
    } else if d == 6 {
        '6'
    } else if d == 7 {
        '7'
    } else if d == 8 {
        '8'
    } else {
        '9'
    }
}

/// The decimal numeral of `n`, without leading zeros.
pub open spec fn decimal(n: nat) -> Seq<char>
    decreases n,
{
    if n < 10 {
        seq![digit_char(n)]
    } else {
        decimal(n / 10).push(digit_char(n % 10))
    }
}

/// `x` rounded to the nearest tenth (ties to even), in tenths, where `x` is
/// given in billionths.
pub open spec fn tenths_rounded(billionths: nat) -> nat {
    let q = billionths / 100_000_000;
    let r = billionths % 100_000_000;
    if r > 50_000_000 || (r == 50_000_000 && q % 2 == 1) {
        q + 1
    } else {
        q
    }
}

/// The text of a value given in billionths, with one decimal place and a
/// leading minus sign for negative values (the form `{:.1}` gives).
pub open spec fn one_decimal(billionths: int) -> Seq<char> {
    let magnitude: nat = if billionths < 0 {
        (-billionths) as nat
    } else {
        billionths as nat
    };
    let t = tenths_rounded(magnitude);
    let sign: Seq<char> = if billionths < 0 {
        seq!['-']
    } else {
        Seq::empty()
    };
    sign + decimal(t / 10) + seq!['.', digit_char(t % 10)]
}

fn digit_str(d: u64) -> (s: &'static str)
    requires
        d < 10,
    ensures
        s@ == seq![digit_char(d as nat)],
{
    if d == 0 {
        proof {
            reveal_strlit("0");
        }
        "0"
    } else if d == 1 {
        proof {
            reveal_strlit("1");
        }
        "1"
    } else if d == 2 {
        proof {
            reveal_strlit("2");
        }
        "2"
    } else if d == 3 {
        proof {
            reveal_strlit("3");
        }
        "3"
    } else if d == 4 {
        proof {
            reveal_strlit("4");
        }
        "4"
    } else if d == 5 {
        proof {
            reveal_strlit("5");
        }
        "5"
    } else if d == 6 {
        proof {
            reveal_strlit("6");
        }
        "6"
    } else if d == 7 {
        proof {
            reveal_strlit("7");
        }
        "7"
    } else if d == 8 {
        proof {
            reveal_strlit("8");
        }
        "8"
    } else {
        proof {
            reveal_strlit("9");
        }
        "9"
    }
}

/// Appends the decimal numeral of `n` to `s`.
pub fn push_decimal(s: &mut String, n: u64)
    ensures
        final(s)@ == old(s)@ + decimal(n as nat),
    decreases n,
{
    if n >= 10 {
        push_decimal(s, n / 10);
    }
    let d = digit_str(n % 10);
    s.append(d);
    proof {
        if n >= 10 {
            assert(decimal(n as nat) == decimal((n / 10) as nat).push(digit_char((n % 10) as nat)));
        }
        assert(final(s)@ =~= old(s)@ + decimal(n as nat));
    }
}

/// Appends `value / 10^9` with one decimal place to `s`.
pub fn push_one_decimal(s: &mut String, value: i64)
    ensures
        final(s)@ == old(s)@ + one_decimal(value as int),
{
    let magnitude: u64 = if value < 0 {
        (0i128 - value as i128) as u64
    } else {
        value as u64
    };
    let q = magnitude / 100_000_000;
    let r = magnitude % 100_000_000;
    let t: u64 = if r > 50_000_000 || (r == 50_000_000 && q % 2 == 1) {
        q + 1
    } else {
        q
    };
    let ghost start = s@;
    if value < 0 {
        proof {
            reveal_strlit("-");
        }
        s.append("-");
    }
    let ghost signed = s@;
    push_decimal(s, t / 10);
    proof {
        reveal_strlit(".");
    }
    s.append(".");
    let d = digit_str(t % 10);
    s.append(d);
    proof {
        let m: nat = if value < 0 {
            (-(value as int)) as nat
        } else {
            value as nat
        };
        assert(m == magnitude);
        assert(t == tenths_rounded(m));
        assert(final(s)@ =~= old(s)@ + one_decimal(value as int));
    }
}

/// What `str::to_lowercase` returns for a string.
pub uninterp spec fn lowercase(s: Seq<char>) -> Seq<char>;

/// Calls `str::to_lowercase`; the contract names its result `lowercase` of
/// the argument and claims nothing more about it.
#[verifier::external_body]
pub(crate) fn to_lowercase(s: &str) -> (r: String)
    ensures
        r@ == lowercase(s@),
{
    s.to_lowercase()
}

} // verus!
