//! Decimal digit text of natural numbers.

use vstd::prelude::*;

verus! {

/// The character of a single decimal digit.
pub open spec fn digit_char(d: nat) -> char
    recommends
        d < 10,
{
    ((d + '0' as nat) as u32) as char
}

/// Decimal digits of `n`, most significant first, without leading zeros;
/// zero is the single digit `0`.
pub open spec fn digits(n: nat) -> Seq<char>
    decreases n,
{
    if n < 10 {
        seq![digit_char(n)]
    } else {
        digits(n / 10).push(digit_char(n % 10))
    }
}

/// `k` zero characters.
pub open spec fn zeros(k: nat) -> Seq<char> {
    Seq::new(k, |i: int| '0')
}

/// A text of one digit for `d`.
fn digit_str(d: u64) -> (r: &'static str)
    requires
        d < 10,
    ensures
        r@ == seq![digit_char(d as nat)],
{
    proof {
        reveal_strlit("0");
        reveal_strlit("1");
        reveal_strlit("2");
        reveal_strlit("3");
        reveal_strlit("4");
        reveal_strlit("5");
        reveal_strlit("6");
        reveal_strlit("7");
        reveal_strlit("8");
        reveal_strlit("9");
    }
    match d {
        0 => "0",
        1 => "1",
        2 => "2",
        3 => "3",
        4 => "4",
        5 => "5",
        6 => "6",
        7 => "7",
        8 => "8",
        _ => "9",
    }
}

/// Renders `n` in decimal.
pub fn integer_text(n: u64) -> (r: String)
    ensures
        r@ == digits(n as nat),
{
    // Digits are collected least significant first, then emitted in reverse.
    let mut low_first: Vec<u64> = Vec::new();
    let mut rest: u64 = n;
    while rest >= 10
        invariant
            digits(n as nat) == digits(rest as nat) + Seq::new(
                low_first@.len(),
                |i: int| digit_char(low_first@[low_first@.len() - 1 - i] as nat),
            ),
            forall|i: int| 0 <= i < low_first@.len() ==> low_first@[i] < 10,
        decreases rest,
    {
        let ghost before = low_first@;
        let d = rest % 10;
        low_first.push(d);
        assert(digits(rest as nat) == digits((rest / 10) as nat).push(digit_char(d as nat)));
        assert(seq![digit_char(d as nat)] + Seq::new(
            before.len(),
            |i: int| digit_char(before[before.len() - 1 - i] as nat),
        ) =~= Seq::new(
            low_first@.len(),
            |i: int| digit_char(low_first@[low_first@.len() - 1 - i] as nat),
        ));
        assert(digits((rest / 10) as nat).push(digit_char(d as nat)) =~= digits((rest / 10) as nat) + seq![digit_char(d as nat)]);
        rest = rest / 10;
    }
    let mut out = String::new();
    out.append(digit_str(rest));
    let mut k: usize = low_first.len();
    while k > 0
        invariant
            k <= low_first@.len(),
            forall|i: int| 0 <= i < low_first@.len() ==> low_first@[i] < 10,
            digits(n as nat) == out@ + Seq::new(
                k as nat,
                |i: int| digit_char(low_first@[k - 1 - i] as nat),
            ),
        decreases k,
    {
        let ghost prev = out@;
        k = k - 1;
        out.append(digit_str(low_first[k]));
        assert(prev + Seq::new(
            (k + 1) as nat,
            |i: int| digit_char(low_first@[k + 1 - 1 - i] as nat),
        ) =~= out@ + Seq::new(k as nat, |i: int| digit_char(low_first@[k - 1 - i] as nat)));
    }
    assert(out@ =~= out@ + Seq::new(0, |i: int| digit_char(low_first@[0 - 1 - i] as nat)));
    out
}

} // verus!
