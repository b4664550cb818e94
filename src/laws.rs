//! Properties of abbreviation, proved over the specification that the
//! executable functions meet.

use crate::abbrev::{
    abbreviated, abs, default_units, lemma_tier_below, precision_of, sign_text, strategy_of, text_of,
    tier, units_of, Options,
};
use crate::decimal::{decimal_text, lemma_pow10_positive, pow10, rounded, stripped, RoundingStrategy};
use crate::text::digits;
use vstd::arithmetic::div_mod::{lemma_div_multiples_vanish, lemma_mod_multiples_basic};
use vstd::prelude::*;

verus! {

/// Zero abbreviates to `0` whatever the precision, labels and rounding.
pub proof fn law_zero(precision: nat, units: Seq<Seq<char>>, strategy: RoundingStrategy)
    ensures
        abbreviated(0, precision, units, strategy) == Some(seq!['0']),
        abbreviated(-0, precision, units, strategy) == Some(seq!['0']),
{
}

/// A magnitude below a thousand is written out in full, with its sign and
/// without scaling or rounding; with the default labels it has no suffix,
/// and with other labels it takes the first one.
pub proof fn law_below_thousand(
    n: int,
    precision: nat,
    units: Seq<Seq<char>>,
    strategy: RoundingStrategy,
)
    requires
        abs(n) < 1000,
    ensures
        abbreviated(n, precision, default_units(), strategy) == Some(
            sign_text(n) + digits(abs(n)),
        ),
        n != 0 && units.len() >= 1 ==> abbreviated(n, precision, units, strategy) == Some(
            sign_text(n) + digits(abs(n)) + units[0],
        ),
{
    if n == 0 {
        assert(digits(0) =~= seq!['0']);
        assert(sign_text(n) + digits(abs(n)) =~= seq!['0']);
    } else {
        assert(default_units()[0] =~= seq![]);
        assert(sign_text(n) + digits(abs(n)) + default_units()[0] =~= sign_text(n) + digits(
            abs(n),
        ));
    }
}

/// A decimal whose fraction is all zeros strips down to the whole number.
proof fn lemma_stripped_whole(m: nat, s: nat)
    requires
        m % pow10(s) == 0,
    ensures
        stripped(m, s) == (m / pow10(s), 0nat),
    decreases s,
{
    if s == 0 {
        assert(m / 1 == m);
    } else if m == 0 {
        assert(pow10(s) > 0) by {
            lemma_pow10_positive(s);
        }
        assert(0nat / pow10(s) == 0);
    } else {
        let p = pow10((s - 1) as nat);
        lemma_pow10_positive((s - 1) as nat);
        assert(pow10(s) == 10 * p);
        let k = m / (10 * p);
        assert(m == (10 * p) * k) by (nonlinear_arith)
            requires
                p > 0,
                m % (10 * p) == 0,
                k == m / (10 * p),
        ;
        let q = p * k;
        assert(m == 10 * q && q == k * p) by (nonlinear_arith)
            requires
                q == p * k,
                m == (10 * p) * k,
        ;
        lemma_mod_multiples_basic(q as int, 10);
        assert(m == q * 10);
        lemma_div_multiples_vanish(q as int, 10);
        lemma_mod_multiples_basic(k as int, p as int);
        lemma_div_multiples_vanish(k as int, p as int);
        assert(p * k == q);
        lemma_stripped_whole(m / 10, (s - 1) as nat);
    }
}

/// A scaled value that rounds to a whole number is written as that whole
/// number: no decimal point and no fractional zeros (`1.0` renders as `1`).
pub proof fn law_whole_values_have_no_point(
    n: int,
    precision: nat,
    units: Seq<Seq<char>>,
    strategy: RoundingStrategy,
)
    requires
        1 <= tier(abs(n)) < units.len(),
        rounded(abs(n), 3 * tier(abs(n)), precision, strategy).0 % pow10(
            rounded(abs(n), 3 * tier(abs(n)), precision, strategy).1,
        ) == 0,
    ensures
        ({
            let r = rounded(abs(n), 3 * tier(abs(n)), precision, strategy);
            abbreviated(n, precision, units, strategy) == Some(
                sign_text(n) + digits(r.0 / pow10(r.1)) + units[tier(abs(n)) as int],
            )
        }),
{
    let r = rounded(abs(n), 3 * tier(abs(n)), precision, strategy);
    lemma_stripped_whole(r.0, r.1);
    assert(decimal_text(r.0 / pow10(r.1), 0) == digits(r.0 / pow10(r.1)));
}

/// Abbreviation depends on its arguments alone: two results for the same
/// number and options are the same text.
pub proof fn law_repeatable(
    number: int,
    options: Option<Options>,
    first: Option<String>,
    second: Option<String>,
)
    requires
        text_of(first) == abbreviated(
            number,
            precision_of(options),
            units_of(options),
            strategy_of(options),
        ),
        text_of(second) == abbreviated(
            number,
            precision_of(options),
            units_of(options),
            strategy_of(options),
        ),
    ensures
        text_of(first) == text_of(second),
{
}

/// A magnitude whose tier has no label gives no result.
pub proof fn law_beyond_table(
    n: int,
    precision: nat,
    units: Seq<Seq<char>>,
    strategy: RoundingStrategy,
)
    requires
        n != 0,
        tier(abs(n)) >= units.len(),
    ensures
        abbreviated(n, precision, units, strategy) is None,
{
}

/// A magnitude of at least `10^(3k)` has a tier of at least `k`.
proof fn lemma_tier_at_least(n: nat, k: nat)
    requires
        n >= pow10(3 * k),
    ensures
        tier(n) >= k,
    decreases k,
{
    if k > 0 {
        let p = pow10((3 * (k - 1)) as nat);
        assert(pow10(3 * k) == 1000 * p) by {
            assert(pow10(3 * k) == 10 * pow10((3 * k - 1) as nat));
            assert(pow10((3 * k - 1) as nat) == 10 * pow10((3 * k - 2) as nat));
            assert(pow10((3 * k - 2) as nat) == 10 * p);
        }
        lemma_pow10_positive((3 * (k - 1)) as nat);
        assert(n >= 1000 && n / 1000 >= p) by (nonlinear_arith)
            requires
                n >= 1000 * p,
                p >= 1,
        ;
        lemma_tier_at_least(n / 1000, (k - 1) as nat);
    }
}

/// With the default labels a result is missing exactly for magnitudes of
/// `10^21` and more, beyond the reach of the seven tiers.
pub proof fn law_default_table_reach(n: int, precision: nat, strategy: RoundingStrategy)
    ensures
        abbreviated(n, precision, default_units(), strategy) is None <==> abs(n) >= pow10(21),
{
    reveal_with_fuel(pow10, 22);
    if abs(n) >= pow10(21) {
        lemma_tier_at_least(abs(n), 7);
    } else if n != 0 {
        lemma_tier_below(abs(n), 7);
    }
}

} // verus!
