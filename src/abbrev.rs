//! Abbreviation of integers by powers of a thousand.

use crate::decimal::{pow10, rounded_string, rounded_text, RoundingStrategy};
use crate::text::{digits, integer_text};
use vstd::prelude::*;

verus! {

/// The tier of a magnitude: how many times a thousand fits in it, that is
/// `floor(log10(n) / 3)` for `n >= 1`.
pub open spec fn tier(n: nat) -> nat
    decreases n,
{
    if n < 1000 {
        0
    } else {
        1 + tier(n / 1000)
    }
}

pub open spec fn abs(n: int) -> nat {
    if n < 0 {
        (-n) as nat
    } else {
        n as nat
    }
}

/// `-` for a negative number, nothing otherwise.
pub open spec fn sign_text(n: int) -> Seq<char> {
    if n < 0 {
        seq!['-']
    } else {
        seq![]
    }
}

/// The unit labels of the default table: none, `k`, `M`, `B`, `T`, `P`, `E`.
pub open spec fn default_units() -> Seq<Seq<char>> {
    seq![seq![], seq!['k'], seq!['M'], seq!['B'], seq!['T'], seq!['P'], seq!['E']]
}

/// What abbreviating `number` gives with `precision` places, the unit labels
/// `units` (one per tier) and `strategy`: `None` where the tier of the
/// magnitude has no label.
pub open spec fn abbreviated(
    number: int,
    precision: nat,
    units: Seq<Seq<char>>,
    strategy: RoundingStrategy,
) -> Option<Seq<char>> {
    if number == 0 {
        Some(seq!['0'])
    } else {
        let a = abs(number);
        let t = tier(a);
        if t >= units.len() {
            None
        } else if t == 0 {
            Some(sign_text(number) + digits(a) + units[0])
        } else {
            Some(sign_text(number) + rounded_text(a, 3 * t, precision, strategy) + units[t as int])
        }
    }
}

pub open spec fn text_of(r: Option<String>) -> Option<Seq<char>> {
    match r {
        Some(s) => Some(s@),
        None => None,
    }
}

pub open spec fn labels(units: Seq<&str>) -> Seq<Seq<char>> {
    units.map_values(|u: &str| u@)
}

/// A magnitude below `10^(3k)` has a tier below `k`.
pub proof fn lemma_tier_below(n: nat, k: nat)
    requires
        k >= 1,
        n < pow10(3 * k),
    ensures
        tier(n) < k,
    decreases k,
{
    if n >= 1000 {
        let p = pow10((3 * (k - 1)) as nat);
        assert(pow10(3 * k) == 1000 * p) by {
            assert(pow10(3 * k) == 10 * pow10((3 * k - 1) as nat));
            assert(pow10((3 * k - 1) as nat) == 10 * pow10((3 * k - 2) as nat));
            assert(pow10((3 * k - 2) as nat) == 10 * p);
        }
        assert(n / 1000 < p) by (nonlinear_arith)
            requires
                n < 1000 * p,
        ;
        if k == 1 {
            assert(p == 1);
        } else {
            lemma_tier_below(n / 1000, (k - 1) as nat);
        }
    }
}

/// Every magnitude of an `isize` has a tier of at most six.
proof fn lemma_tier_of_word(n: nat)
    requires
        n <= 0x8000_0000_0000_0000,
    ensures
        tier(n) <= 6,
{
    reveal_with_fuel(pow10, 22);
    lemma_tier_below(n, 7);
}

/// Abbreviates `number` with `precision` decimal places, the unit labels
/// `units` (index `t` labels the tier of `1000^t`) and `strategy`. Returns
/// `None` when the magnitude's tier has no label in `units`.
pub fn abbreviate(
    number: isize,
    precision: u32,
    units: &[&str],
    strategy: RoundingStrategy,
) -> (r: Option<String>)
    ensures
        text_of(r) == abbreviated(number as int, precision as nat, labels(units@), strategy),
{
    if number == 0 {
        proof {
            reveal_strlit("0");
        }
        return Some(String::from_str("0"));
    }
    let wide: i128 = number as i128;
    let absolute: u64 = if wide < 0 {
        (-wide) as u64
    } else {
        wide as u64
    };
    proof {
        lemma_tier_of_word(absolute as nat);
    }
    let mut level: usize = 0;
    let mut rest: u64 = absolute;
    while rest >= 1000
        invariant
            tier(absolute as nat) == level + tier(rest as nat),
            tier(absolute as nat) <= 6,
        decreases rest,
    {
        rest = rest / 1000;
        level = level + 1;
    }
    if level >= units.len() {
        return None;
    }
    let body = if level == 0 {
        integer_text(absolute)
    } else {
        rounded_string(absolute, 3 * level as u32, precision, strategy)
    };
    let mut out = String::new();
    if number < 0 {
        proof {
            reveal_strlit("-");
        }
        out.append("-");
    }
    out.append(body.as_str());
    out.append(units[level]);
    assert(out@ =~= sign_text(number as int) + body@ + labels(units@)[level as int]);
    Some(out)
}

/// The default unit labels, one per tier: none, `k`, `M`, `B`, `T`, `P`, `E`.
pub fn default_abbreviations() -> (r: [&'static str; 7])
    ensures
        labels(r@) == default_units(),
{
    proof {
        reveal_strlit("");
        reveal_strlit("k");
        reveal_strlit("M");
        reveal_strlit("B");
        reveal_strlit("T");
        reveal_strlit("P");
        reveal_strlit("E");
    }
    let r = ["", "k", "M", "B", "T", "P", "E"];
    assert(r@ =~= seq!["", "k", "M", "B", "T", "P", "E"]);
    assert(labels(r@) =~= default_units()) by {
        assert(labels(r@)[0] =~= seq![]);
        assert(labels(r@)[1] =~= seq!['k']);
        assert(labels(r@)[2] =~= seq!['M']);
        assert(labels(r@)[3] =~= seq!['B']);
        assert(labels(r@)[4] =~= seq!['T']);
        assert(labels(r@)[5] =~= seq!['P']);
        assert(labels(r@)[6] =~= seq!['E']);
    }
    r
}

/// The options for abbreviating a number; each one left `None` takes its
/// default.
#[derive(Debug, Clone, Copy)]
pub struct Options<'a> {
    /// Decimal places kept. `1` by default.
    pub precision: Option<u32>,
    /// Unit labels, one per tier. [default_abbreviations] by default.
    pub abbreviations: Option<[&'a str; 7]>,
    /// The rounding of the scaled value.
    /// [RoundingStrategy::MidpointNearestEven] by default.
    pub rounding_strategy: Option<RoundingStrategy>,
}

impl<'a> Default for Options<'a> {
    fn default() -> (r: Self)
        ensures
            r.precision is None,
            r.abbreviations is None,
            r.rounding_strategy is None,
    {
        Options { precision: None, abbreviations: None, rounding_strategy: None }
    }
}

/// The precision that `options` asks for.
pub open spec fn precision_of(options: Option<Options>) -> nat {
    match options {
        Some(o) => match o.precision {
            Some(p) => p as nat,
            None => 1,
        },
        None => 1,
    }
}

/// The unit labels that `options` asks for.
pub open spec fn units_of(options: Option<Options>) -> Seq<Seq<char>> {
    match options {
        Some(o) => match o.abbreviations {
            Some(a) => labels(a@),
            None => default_units(),
        },
        None => default_units(),
    }
}

/// The rounding strategy that `options` asks for.
pub open spec fn strategy_of(options: Option<Options>) -> RoundingStrategy {
    match options {
        Some(o) => match o.rounding_strategy {
            Some(s) => s,
            None => RoundingStrategy::MidpointNearestEven,
        },
        None => RoundingStrategy::MidpointNearestEven,
    }
}

/// Abbreviates `number` into a human-friendly form according to `options`,
/// e.g. `10_500` into `"10.5k"`. Every `isize` has a label in a table of
/// seven, so a result always comes.
pub fn abbrev_num(number: isize, options: Option<Options>) -> (r: Option<String>)
    ensures
        text_of(r) == abbreviated(
            number as int,
            precision_of(options),
            units_of(options),
            strategy_of(options),
        ),
        r is Some,
{
    let (precision, abbreviations, strategy) = match options {
        Some(o) => (o.precision, o.abbreviations, o.rounding_strategy),
        None => (None, None, None),
    };
    let precision: u32 = match precision {
        Some(p) => p,
        None => 1,
    };
    let strategy = match strategy {
        Some(s) => s,
        None => RoundingStrategy::MidpointNearestEven,
    };
    let units = match abbreviations {
        Some(a) => a,
        None => default_abbreviations(),
    };
    proof {
        if number != 0 {
            lemma_tier_of_word(abs(number as int));
        }
    }
    abbreviate(number, precision, units.as_slice(), strategy)
}

} // verus!
