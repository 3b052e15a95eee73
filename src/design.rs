//! Building a Latin hypercube design: one random permutation of the levels per
//! parameter, a random offset inside each stratum, and the sample-major layout.
use crate::random::{draw_below, shuffle_levels};
use crate::space::{SampleSpace, SpaceError};
use crate::strata::{are_levels, generate_levels, lowest_level};
use rand::rngs::StdRng;
use vstd::prelude::*;

verus! {

/// The resolution of the offset inside a stratum: an offset is
/// `jitter / JITTER_STEPS` of a stratum's width, which is the set of values a
/// uniform double-precision draw from `[0, 1)` takes.
pub const JITTER_STEPS: u64 = 9007199254740992;

/// Where one sample falls in one parameter's unit interval `[0, 1)`.
///
/// With `n` samples the unit coordinate is
/// `(stratum + jitter / JITTER_STEPS) / n`.
#[derive(Clone, Copy, Debug, PartialEq, Eq, Structural)]
pub struct UnitCoord {
    pub stratum: u64,
    pub jitter: u64,
}

impl UnitCoord {
    /// The unit coordinate is `numerator() / unit_denominator(n)`.
    pub open spec fn numerator(self) -> int {
        self.stratum * JITTER_STEPS + self.jitter
    }

    /// The coordinate lies in one of the `n` strata, at an offset below one
    /// stratum's width.
    pub open spec fn wf(self, n: int) -> bool {
        &&& self.stratum < n
        &&& self.jitter < JITTER_STEPS
    }
}

/// The common denominator of the unit coordinates for `n` samples.
pub open spec fn unit_denominator(n: int) -> int {
    n * JITTER_STEPS
}

/// The stratum that a unit coordinate falls in, `floor(coordinate * n)`.
pub open spec fn stratum_of(c: UnitCoord) -> int {
    c.numerator() / (JITTER_STEPS as int)
}

/// A well-formed coordinate lies in `[0, 1)`, inside its own stratum.
pub proof fn lemma_coord_in_stratum(c: UnitCoord, n: int)
    requires
        c.wf(n),
    ensures
        0 <= c.numerator() < unit_denominator(n),
        c.stratum * JITTER_STEPS <= c.numerator() < (c.stratum + 1) * JITTER_STEPS,
        stratum_of(c) == c.stratum,
{
    assert(c.stratum + 1 <= n);
    assert((c.stratum + 1) * JITTER_STEPS <= n * JITTER_STEPS) by (nonlinear_arith)
        requires
            c.stratum + 1 <= n,
    ;
    assert(c.numerator() / (JITTER_STEPS as int) == c.stratum) by (nonlinear_arith)
        requires
            c.numerator() == c.stratum * JITTER_STEPS + c.jitter,
            0 <= c.jitter < JITTER_STEPS,
            JITTER_STEPS > 0,
    ;
}

/// `column` uses the same levels as `levels`, each as often, in some order.
pub open spec fn is_permutation_of(column: Seq<i64>, levels: Seq<i64>) -> bool {
    column.to_multiset() == levels.to_multiset()
}

/// One column per factor, each an independent random permutation of `levels`.
pub fn generate_level_perms(levels: Vec<i64>, factors: usize, rng: &mut StdRng) -> (columns: Vec<
    Vec<i64>,
>)
    ensures
        columns@.len() == factors,
        forall|j: int| 0 <= j < factors ==> is_permutation_of(#[trigger] columns@[j]@, levels@),
{
    let ghost given = levels@;
    let mut levels = levels;
    let mut columns: Vec<Vec<i64>> = Vec::new();
    let mut j: usize = 0;
    while j < factors
        invariant
            j <= factors,
            columns@.len() == j,
            is_permutation_of(levels@, given),
            forall|k: int| 0 <= k < j ==> is_permutation_of(#[trigger] columns@[k]@, given),
        decreases factors - j,
    {
        shuffle_levels(&mut levels, rng);
        let column = levels.clone();
        assert(column@ =~= levels@);
        columns.push(column);
        j = j + 1;
    }
    columns
}

/// A permutation of the levels for `n` samples holds `n` distinct levels,
/// every level stands somewhere in it, and its set of values is the set of
/// levels.
pub proof fn lemma_permuted_levels(column: Seq<i64>, levels: Seq<i64>, n: int)
    requires
        1 <= n,
        are_levels(levels, n),
        is_permutation_of(column, levels),
    ensures
        column.len() == n,
        column.no_duplicates(),
        forall|i: int|
            0 <= i < n ==> lowest_level(n) <= #[trigger] column[i] < lowest_level(n) + n,
        forall|k: int| 0 <= k < n ==> column.contains(#[trigger] levels[k]),
        column.to_set() == levels.to_set(),
{
    broadcast use vstd::seq_lib::group_to_multiset_ensures;

    assert(column.len() == column.to_multiset().len());
    assert(levels.len() == levels.to_multiset().len());
    assert(levels.no_duplicates());
    levels.lemma_multiset_has_no_duplicates();
    column.lemma_multiset_has_no_duplicates_conv();
    assert forall|i: int| 0 <= i < n implies lowest_level(n) <= #[trigger] column[i]
        < lowest_level(n) + n by {
        assert(column.contains(column[i]));
        assert(column.to_multiset().count(column[i]) > 0);
        assert(levels.contains(column[i]));
    }
    assert forall|k: int| 0 <= k < n implies column.contains(#[trigger] levels[k]) by {
        assert(levels.contains(levels[k]));
        assert(levels.to_multiset().count(levels[k]) > 0);
    }
    assert forall|x: i64| column.to_set().contains(x) == levels.to_set().contains(x) by {
        assert(column.contains(x) <==> column.to_multiset().count(x) > 0);
        assert(levels.contains(x) <==> levels.to_multiset().count(x) > 0);
    }
    assert(column.to_set() =~= levels.to_set());
}

/// The levels of a column lie in the range of the levels for `samples` samples.
pub open spec fn levels_in_range(column: Seq<i64>, samples: int) -> bool {
    forall|i: int|
        0 <= i < column.len() ==> lowest_level(samples) <= #[trigger] column[i] < lowest_level(
            samples,
        ) + samples
}

/// `cells` places each level of `column` in its stratum: the level shifted up
/// by `floor((samples - 1) / 2)`, at an offset below one stratum's width.
pub open spec fn places_column(cells: Seq<UnitCoord>, column: Seq<i64>, samples: int) -> bool {
    &&& cells.len() == column.len()
    &&& forall|i: int|
        0 <= i < column.len() ==> {
            &&& #[trigger] cells[i].stratum == column[i] - lowest_level(samples)
            &&& cells[i].jitter < JITTER_STEPS
        }
}

/// Places each level of one column in its stratum, at a fresh random offset.
fn place_column(column: &Vec<i64>, samples: i64, rng: &mut StdRng) -> (cells: Vec<UnitCoord>)
    requires
        1 <= samples,
        levels_in_range(column@, samples as int),
    ensures
        places_column(cells@, column@, samples as int),
{
    let shift: i64 = (samples - 1) / 2;
    let mut cells: Vec<UnitCoord> = Vec::new();
    let mut i: usize = 0;
    while i < column.len()
        invariant
            1 <= samples,
            shift == -lowest_level(samples as int),
            levels_in_range(column@, samples as int),
            i <= column@.len(),
            cells@.len() == i,
            forall|k: int|
                0 <= k < i ==> {
                    &&& #[trigger] cells@[k].stratum == column@[k] - lowest_level(samples as int)
                    &&& cells@[k].jitter < JITTER_STEPS
                },
        decreases column@.len() - i,
    {
        let jitter = draw_below(JITTER_STEPS, rng);
        let stratum = (column[i] + shift) as u64;
        cells.push(UnitCoord { stratum, jitter });
        i = i + 1;
    }
    cells
}

/// Places every level of every column in its stratum, each at a fresh random
/// offset; the result is parameter-major, like `level_matrix`.
pub fn generate_sample_matrix(level_matrix: Vec<Vec<i64>>, samples: i64, rng: &mut StdRng) -> (matrix: Vec<Vec<UnitCoord>>)
    requires
        1 <= samples,
        forall|j: int|
            0 <= j < level_matrix@.len() ==> levels_in_range(
                #[trigger] level_matrix@[j]@,
                samples as int,
            ),
    ensures
        matrix@.len() == level_matrix@.len(),
        forall|j: int|
            0 <= j < level_matrix@.len() ==> places_column(
                #[trigger] matrix@[j]@,
                level_matrix@[j]@,
                samples as int,
            ),
        // Each entry lies in `[0, 1)`, in the stratum of its level: its
        // coordinate times `samples`, rounded down, is its level shifted up by
        // `floor((samples - 1) / 2)`.
        forall|j: int, i: int|
            0 <= j < level_matrix@.len() && 0 <= i < level_matrix@[j]@.len() ==> {
                &&& (#[trigger] matrix@[j]@[i]).wf(samples as int)
                &&& stratum_of(matrix@[j]@[i]) == level_matrix@[j]@[i] - lowest_level(
                    samples as int,
                )
            },
{
    let mut matrix: Vec<Vec<UnitCoord>> = Vec::new();
    let mut j: usize = 0;
    while j < level_matrix.len()
        invariant
            1 <= samples,
            forall|k: int|
                0 <= k < level_matrix@.len() ==> levels_in_range(
                    #[trigger] level_matrix@[k]@,
                    samples as int,
                ),
            j <= level_matrix@.len(),
            matrix@.len() == j,
            forall|k: int|
                0 <= k < j ==> places_column(
                    #[trigger] matrix@[k]@,
                    level_matrix@[k]@,
                    samples as int,
                ),
        decreases level_matrix@.len() - j,
    {
        let column = place_column(&level_matrix[j], samples, rng);
        matrix.push(column);
        j = j + 1;
    }
    assert forall|j: int, i: int|
        0 <= j < level_matrix@.len() && 0 <= i < level_matrix@[j]@.len() implies {
        &&& (#[trigger] matrix@[j]@[i]).wf(samples as int)
        &&& stratum_of(matrix@[j]@[i]) == level_matrix@[j]@[i] - lowest_level(samples as int)
    } by {
        assert(places_column(matrix@[j]@, level_matrix@[j]@, samples as int));
        assert(levels_in_range(level_matrix@[j]@, samples as int));
        assert(matrix@[j]@[i].stratum == level_matrix@[j]@[i] - lowest_level(samples as int));
        assert(lowest_level(samples as int) <= level_matrix@[j]@[i]);
        lemma_coord_in_stratum(matrix@[j]@[i], samples as int);
    }
    matrix
}

/// Every inner vector of `v` has `len` entries.
pub open spec fn is_rectangular<T>(v: Seq<Vec<T>>, len: int) -> bool {
    forall|j: int| 0 <= j < v.len() ==> (#[trigger] v[j])@.len() == len
}

/// Turns a vector of columns into a vector of rows: entry `j` of row `i` of
/// the result is entry `i` of column `j`.
pub fn transpose<T>(v: Vec<Vec<T>>) -> (rows: Vec<Vec<T>>)
    requires
        v@.len() > 0,
        is_rectangular(v@, v@[0]@.len() as int),
    ensures
        rows@.len() == v@[0]@.len(),
        is_rectangular(rows@, v@.len() as int),
        forall|i: int, j: int|
            0 <= i < rows@.len() && 0 <= j < v@.len() ==> #[trigger] rows@[i]@[j] == v@[j]@[i],
{
    let ghost given = v@;
    let len = v[0].len();
    let mut columns = v;
    // The rows are taken off the ends of the columns, last row first.
    let mut reversed: Vec<Vec<T>> = Vec::new();
    let mut k: usize = 0;
    while k < len
        invariant
            len == given[0]@.len(),
            is_rectangular(given, len as int),
            k <= len,
            columns@.len() == given.len(),
            forall|j: int|
                0 <= j < given.len() ==> (#[trigger] columns@[j])@ == given[j]@.subrange(
                    0,
                    len - k,
                ),
            reversed@.len() == k,
            is_rectangular(reversed@, given.len() as int),
            forall|a: int, j: int|
                0 <= a < k && 0 <= j < given.len() ==> #[trigger] reversed@[a]@[j] == given[j]@[len
                    - 1 - a],
        decreases len - k,
    {
        let mut row: Vec<T> = Vec::new();
        let mut j: usize = 0;
        while j < columns.len()
            invariant
                len == given[0]@.len(),
                is_rectangular(given, len as int),
                k < len,
                j <= given.len(),
                columns@.len() == given.len(),
                forall|b: int|
                    0 <= b < j ==> (#[trigger] columns@[b])@ == given[b]@.subrange(0, len - k - 1),
                forall|b: int|
                    j <= b < given.len() ==> (#[trigger] columns@[b])@ == given[b]@.subrange(
                        0,
                        len - k,
                    ),
                row@.len() == j,
                forall|b: int| 0 <= b < j ==> #[trigger] row@[b] == given[b]@[len - 1 - k],
            decreases given.len() - j,
        {
            let entry = columns[j].pop().unwrap();
            row.push(entry);
            j = j + 1;
        }
        reversed.push(row);
        k = k + 1;
    }
    let mut rows: Vec<Vec<T>> = Vec::new();
    while reversed.len() > 0
        invariant
            rows@.len() + reversed@.len() == len,
            is_rectangular(reversed@, given.len() as int),
            is_rectangular(rows@, given.len() as int),
            forall|a: int, j: int|
                0 <= a < reversed@.len() && 0 <= j < given.len() ==> #[trigger] reversed@[a]@[j]
                    == given[j]@[len - 1 - a],
            forall|i: int, j: int|
                0 <= i < rows@.len() && 0 <= j < given.len() ==> #[trigger] rows@[i]@[j]
                    == given[j]@[i],
        decreases reversed@.len(),
    {
        let row = reversed.pop().unwrap();
        rows.push(row);
    }
    rows
}

/// The strata that the samples of a sample-major matrix fall in for
/// parameter `j`, one per sample.
pub open spec fn column_strata(m: Seq<Vec<UnitCoord>>, j: int) -> Seq<int> {
    Seq::new(m.len(), |i: int| stratum_of(m[i]@[j]))
}

/// `m` is a Latin hypercube design of `n` samples over `f` parameters: one
/// row per sample and one entry per parameter in each row, every entry in
/// `[0, 1)`, and for every parameter each of the `n` strata used by exactly
/// one sample.
pub open spec fn is_lhs_design(m: Seq<Vec<UnitCoord>>, n: int, f: int) -> bool {
    &&& m.len() == n
    &&& is_rectangular(m, f)
    &&& forall|i: int, j: int| 0 <= i < n && 0 <= j < f ==> (#[trigger] m[i]@[j]).wf(n)
    &&& forall|j: int, k: int|
        0 <= j < f && 0 <= k < n ==> #[trigger] column_strata(m, j).to_multiset().count(k) == 1
}

/// The strata of a column whose levels are a permutation of the levels for
/// `n` samples, each shifted up by `floor((n - 1) / 2)`, use every stratum
/// below `n` exactly once.
proof fn lemma_shifted_levels(strata: Seq<int>, column: Seq<i64>, levels: Seq<i64>, n: int)
    requires
        1 <= n,
        are_levels(levels, n),
        is_permutation_of(column, levels),
        strata.len() == column.len(),
        forall|i: int| 0 <= i < strata.len() ==> #[trigger] strata[i] == column[i] - lowest_level(n),
    ensures
        forall|i: int| 0 <= i < n ==> 0 <= #[trigger] strata[i] < n,
        forall|k: int| 0 <= k < n ==> #[trigger] strata.to_multiset().count(k) == 1,
{
    broadcast use vstd::seq_lib::group_to_multiset_ensures;

    lemma_permuted_levels(column, levels, n);
    assert(strata.no_duplicates()) by {
        assert forall|a: int, b: int| 0 <= a < n && 0 <= b < n && a != b implies strata[a]
            != strata[b] by {
            assert(column[a] != column[b]);
        }
    }
    strata.lemma_multiset_has_no_duplicates();
    assert forall|k: int| 0 <= k < n implies #[trigger] strata.to_multiset().count(k) == 1 by {
        assert(column.contains(levels[k]));
        let i = choose|i: int| 0 <= i < column.len() && column[i] == levels[k];
        assert(strata[i] == k);
        assert(strata.contains(k));
    }
}

/// A Latin hypercube design of the space: one row per sample, one unit
/// coordinate per parameter in each row, in the parameters' order.
///
/// A space with fewer than one sample or with no parameters is refused.
pub fn generate_lhs(space: &SampleSpace, rng: &mut StdRng) -> (r: Result<
    Vec<Vec<UnitCoord>>,
    SpaceError,
>)
    ensures
        match r {
            Ok(m) => is_lhs_design(
                m@,
                space.samples as int,
                space.parameters@.len() as int,
            ),
            Err(e) => e == SpaceError::InvalidSpace,
        },
        r is Err <==> space.samples < 1 || space.parameters@.len() == 0,
{
    if space.samples < 1 || space.parameters.len() == 0 {
        return Err(SpaceError::InvalidSpace);
    }
    let samples = space.samples;
    let factors = space.parameters.len();
    let levels = generate_levels(samples);
    let ghost level_seq = levels@;
    let level_matrix = generate_level_perms(levels, factors, rng);
    let ghost perms = level_matrix@;
    proof {
        assert forall|j: int| 0 <= j < perms.len() implies levels_in_range(
            #[trigger] perms[j]@,
            samples as int,
        ) by {
            lemma_permuted_levels(perms[j]@, level_seq, samples as int);
        }
    }
    let columns = generate_sample_matrix(level_matrix, samples, rng);
    let ghost cols = columns@;
    proof {
        assert forall|j: int| 0 <= j < cols.len() implies (#[trigger] cols[j])@.len() == samples by {
            lemma_permuted_levels(perms[j]@, level_seq, samples as int);
        }
    }
    let rows = transpose(columns);
    proof {
        let n = samples as int;
        assert forall|i: int, j: int| 0 <= i < n && 0 <= j < factors implies (
        #[trigger] rows@[i]@[j]).wf(n) by {
            lemma_permuted_levels(perms[j]@, level_seq, n);
            assert(places_column(cols[j]@, perms[j]@, n));
            assert(cols[j]@[i].stratum == perms[j]@[i] - lowest_level(n));
            assert(rows@[i]@[j] == cols[j]@[i]);
        }
        assert forall|j: int, k: int| 0 <= j < factors && 0 <= k < n implies #[trigger] column_strata(
            rows@,
            j,
        ).to_multiset().count(k) == 1 by {
            let strata = column_strata(rows@, j);
            lemma_permuted_levels(perms[j]@, level_seq, n);
            assert forall|i: int| 0 <= i < strata.len() implies #[trigger] strata[i] == perms[j]@[i]
                - lowest_level(n) by {
                assert(rows@[i]@[j] == cols[j]@[i]);
                lemma_coord_in_stratum(rows@[i]@[j], n);
            }
            lemma_shifted_levels(strata, perms[j]@, level_seq, n);
        }
    }
    Ok(rows)
}

/// Whatever the random draws, two designs of the same shape use the same
/// strata for every parameter: each of the `n` strata once.
pub proof fn lemma_designs_share_strata(a: Seq<Vec<UnitCoord>>, b: Seq<Vec<UnitCoord>>, n: int, f: int)
    requires
        is_lhs_design(a, n, f),
        is_lhs_design(b, n, f),
    ensures
        forall|j: int|
            0 <= j < f ==> #[trigger] column_strata(a, j).to_multiset() == column_strata(
                b,
                j,
            ).to_multiset(),
{
    broadcast use vstd::seq_lib::group_to_multiset_ensures;

    assert forall|j: int| 0 <= j < f implies #[trigger] column_strata(a, j).to_multiset()
        == column_strata(b, j).to_multiset() by {
        let sa = column_strata(a, j);
        let sb = column_strata(b, j);
        assert forall|k: int| sa.to_multiset().count(k) == sb.to_multiset().count(k) by {
            if 0 <= k < n {
                assert(sa.to_multiset().count(k) == 1);
                assert(sb.to_multiset().count(k) == 1);
            } else {
                if sa.contains(k) {
                    let i = choose|i: int| 0 <= i < sa.len() && sa[i] == k;
                    lemma_coord_in_stratum(a[i]@[j], n);
                }
                if sb.contains(k) {
                    let i = choose|i: int| 0 <= i < sb.len() && sb[i] == k;
                    lemma_coord_in_stratum(b[i]@[j], n);
                }
            }
        }
        assert(sa.to_multiset() =~= sb.to_multiset());
    }
}

/// Every entry of a design lies in `[0, 1)`, and inside the stratum it names:
/// its coordinate times `n`, rounded down, is its stratum.
pub proof fn lemma_design_in_unit_interval(m: Seq<Vec<UnitCoord>>, n: int, f: int)
    requires
        is_lhs_design(m, n, f),
    ensures
        forall|i: int, j: int|
            0 <= i < n && 0 <= j < f ==> {
                &&& 0 <= (#[trigger] m[i]@[j]).numerator() < unit_denominator(n)
                &&& stratum_of(m[i]@[j]) == m[i]@[j].stratum
            },
{
    assert forall|i: int, j: int| 0 <= i < n && 0 <= j < f implies {
        &&& 0 <= (#[trigger] m[i]@[j]).numerator() < unit_denominator(n)
        &&& stratum_of(m[i]@[j]) == m[i]@[j].stratum
    } by {
        lemma_coord_in_stratum(m[i]@[j], n);
    }
}

} // verus!
