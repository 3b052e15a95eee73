//! Stratification: the integer levels that stand for the strata of the unit interval.
use vstd::prelude::*;

verus! {

/// The lowest level for `n` samples, `-floor((n - 1) / 2)`.
pub open spec fn lowest_level(n: int) -> int {
    -((n - 1) / 2)
}

/// The level of the `i`-th stratum (counted from zero) for `n` samples.
pub open spec fn level_at(n: int, i: int) -> int {
    lowest_level(n) + i
}

/// `s` holds exactly the levels for `n` samples, in increasing order.
pub open spec fn are_levels(s: Seq<i64>, n: int) -> bool {
    &&& s.len() == n
    &&& forall|i: int| 0 <= i < n ==> #[trigger] s[i] as int == level_at(n, i)
}

/// The levels for `samples` samples, one for each stratum, centred on zero.
pub fn generate_levels(samples: i64) -> (strata: Vec<i64>)
    requires
        1 <= samples,
    ensures
        are_levels(strata@, samples as int),
{
    let low: i64 = -((samples - 1) / 2);
    let high: i64 = samples / 2;
    assert(high - low + 1 == samples);
    let mut strata: Vec<i64> = Vec::new();
    let mut v: i64 = low;
    while v <= high
        invariant
            low == lowest_level(samples as int),
            high - low + 1 == samples,
            low <= v <= high + 1,
            strata@.len() == v - low,
            forall|i: int| 0 <= i < strata@.len() ==> #[trigger] strata@[i] as int == low + i,
        decreases high + 1 - v,
    {
        strata.push(v);
        v = v + 1;
    }
    strata
}

/// The stratifier's shape: the levels for `n` samples are `n` distinct
/// integers running from `-floor((n - 1) / 2)` to `floor(n / 2)`, and for odd
/// `n` they are symmetric around zero.
pub proof fn lemma_levels_shape(s: Seq<i64>, n: int)
    requires
        1 <= n,
        are_levels(s, n),
    ensures
        s.len() == n,
        s.no_duplicates(),
        s[0] == -((n - 1) / 2),
        s[n - 1] == n / 2,
        n % 2 == 1 ==> forall|i: int| 0 <= i < n ==> #[trigger] s[i] == -s[n - 1 - i],
{
    assert(s[0] as int == level_at(n, 0));
    assert(s[n - 1] as int == level_at(n, n - 1));
    if n % 2 == 1 {
        assert forall|i: int| 0 <= i < n implies #[trigger] s[i] == -s[n - 1 - i] by {
            assert(s[i] as int == level_at(n, i));
            assert(s[n - 1 - i] as int == level_at(n, n - 1 - i));
        }
    }
}

} // verus!
