//! Random symmetric matrices. One weight is drawn for each pair of distinct
//! cities; the matrix holds it in both directions, and zero on the diagonal.

use vstd::prelude::*;
use crate::matrix::{has_zero_diagonal, is_square, is_symmetric};
use crate::random::{draw_weight, thread_source};

verus! {

/// The number of pairs `(i, j)` of cities with `i < j < n` and `i < row`.
pub open spec fn pairs_before(n: nat, row: nat) -> int
    decreases row,
{
    if row == 0 {
        0
    } else {
        pairs_before(n, (row - 1) as nat) + (n - row)
    }
}

/// The number of pairs of distinct cities among `n`.
pub open spec fn pair_count(n: nat) -> int {
    pairs_before(n, n)
}

/// The place of the pair `(i, j)`, with `i < j < n`, when the pairs are
/// listed row by row: all pairs of city 0 first, then those of city 1 with
/// later cities, and so on.
pub open spec fn pair_index(n: nat, i: int, j: int) -> int {
    pairs_before(n, i as nat) + (j - i - 1)
}

/// The entry at row `i` and column `j` of the symmetric matrix over the
/// listed pair weights.
pub open spec fn symmetric_entry(n: nat, weights: Seq<u16>, i: int, j: int) -> u16 {
    if i == j {
        0
    } else if i < j {
        weights[pair_index(n, i, j)]
    } else {
        weights[pair_index(n, j, i)]
    }
}

/// The first `len` entries of row `i` of the symmetric matrix.
pub open spec fn symmetric_row(n: nat, weights: Seq<u16>, i: int, len: nat) -> Seq<u16> {
    Seq::new(len, |j: int| symmetric_entry(n, weights, i, j))
}

/// The symmetric matrix of `n` cities over the pair weights listed in
/// `weights`.
pub open spec fn symmetric_matrix(n: nat, weights: Seq<u16>) -> Seq<Seq<u16>> {
    Seq::new(n, |i: int| symmetric_row(n, weights, i, n))
}

/// Every weight lies in the half-open range from `low` to `high`.
pub open spec fn weights_within(weights: Seq<u16>, low: u16, high: u16) -> bool {
    forall|k: int| 0 <= k < weights.len() ==> low <= #[trigger] weights[k] < high
}

/// The pairs are counted row by row: each row adds its pairs to those before
/// it, and no row starts beyond the full count.
pub proof fn lemma_pairs_before_bounds(n: nat, row: nat)
    requires
        row <= n,
    ensures
        0 <= pairs_before(n, row) <= row * n,
        pairs_before(n, row) <= pair_count(n),
        row < n ==> pairs_before(n, row) + (n - 1 - row) == pairs_before(n, row + 1),
        row < n ==> pairs_before(n, row + 1) <= pair_count(n),
    decreases n - row,
{
    lemma_pairs_before_at_most(n, row);
    if row < n {
        lemma_pairs_before_bounds(n, row + 1);
    }
}

proof fn lemma_pairs_before_at_most(n: nat, row: nat)
    requires
        row <= n,
    ensures
        0 <= pairs_before(n, row) <= row * n,
    decreases row,
{
    if row > 0 {
        lemma_pairs_before_at_most(n, (row - 1) as nat);
        assert((row - 1) * n + n == row * n) by (nonlinear_arith);
    }
}

/// The symmetric matrix is square for at least one city, weighs every edge
/// the same in both directions, and has zero on its diagonal.
pub proof fn lemma_symmetric_matrix(n: nat, weights: Seq<u16>)
    ensures
        n > 0 ==> is_square(symmetric_matrix(n, weights)),
        is_symmetric(symmetric_matrix(n, weights)),
        has_zero_diagonal(symmetric_matrix(n, weights)),
{
}

/// Off the diagonal the symmetric matrix holds listed weights only.
pub proof fn lemma_symmetric_matrix_entries(n: nat, weights: Seq<u16>, low: u16, high: u16)
    requires
        weights.len() == pair_count(n),
        weights_within(weights, low, high),
    ensures
        forall|i: int, j: int|
            0 <= i < n && 0 <= j < n && i != j ==> low <= #[trigger] symmetric_matrix(
                n,
                weights,
            )[i][j] < high,
{
    assert forall|i: int, j: int| 0 <= i < n && 0 <= j < n && i != j implies low
        <= #[trigger] symmetric_matrix(n, weights)[i][j] < high by {
        if i < j {
            lemma_pairs_before_bounds(n, i as nat);
        } else {
            lemma_pairs_before_bounds(n, j as nat);
        }
    }
}

/// Builds the symmetric matrix of `num_cities` cities from one weight for
/// each pair of distinct cities, listed row by row. The answer is `None`
/// when the number of weights is not the number of pairs.
pub fn map_from_weights(num_cities: u16, weights: &Vec<u16>) -> (built: Option<Vec<Vec<u16>>>)
    ensures
        built is Some <==> weights.len() == pair_count(num_cities as nat),
        built matches Some(intercity_map) ==> intercity_map.deep_view() == symmetric_matrix(
            num_cities as nat,
            weights@,
        ),
{
    let n: usize = num_cities as usize;
    let ghost count = n as nat;
    let mut needed: usize = 0;
    let mut row: usize = 0;
    while row < n
        invariant
            n == num_cities,
            count == n,
            row <= n,
            needed == pairs_before(count, row as nat),
        decreases n - row,
    {
        proof {
            lemma_pairs_before_bounds(count, row as nat);
            lemma_pairs_before_bounds(count, (row + 1) as nat);
            assert((row + 1) * n <= 0xffff * 0xffff) by (nonlinear_arith)
                requires
                    row + 1 <= n,
                    n <= 0xffff,
            ;
        }
        needed = needed + (n - 1 - row);
        row += 1;
    }
    if weights.len() != needed {
        return None;
    }
    let mut intercity_map: Vec<Vec<u16>> = Vec::new();
    let mut row_start: usize = 0;
    let mut i: usize = 0;
    while i < n
        invariant
            n == num_cities,
            count == n,
            i <= n,
            weights.len() == pair_count(count),
            row_start == pairs_before(count, i as nat),
            intercity_map@.len() == i,
            forall|r: int|
                0 <= r < i ==> (#[trigger] intercity_map@[r])@ == symmetric_row(
                    count,
                    weights@,
                    r,
                    count,
                ),
        decreases n - i,
    {
        proof {
            lemma_pairs_before_bounds(count, i as nat);
        }
        let mut cities: Vec<u16> = Vec::new();
        let mut j: usize = 0;
        while j < n
            invariant
                n == num_cities,
                count == n,
                i < n,
                j <= n,
                weights.len() == pair_count(count),
                row_start == pairs_before(count, i as nat),
                row_start + (n - 1 - i) <= pair_count(count),
                intercity_map@.len() == i,
                forall|r: int|
                    0 <= r < i ==> (#[trigger] intercity_map@[r])@ == symmetric_row(
                        count,
                        weights@,
                        r,
                        count,
                    ),
                cities@ == symmetric_row(count, weights@, i as int, j as nat),
            decreases n - j,
        {
            let weight: u16 = if i > j {
                assert(intercity_map@[j as int]@[i as int] == symmetric_entry(
                    count,
                    weights@,
                    j as int,
                    i as int,
                ));
                intercity_map[j][i]
            } else if i == j {
                0
            } else {
                weights[row_start + (j - i - 1)]
            };
            cities.push(weight);
            j += 1;
        }
        intercity_map.push(cities);
        row_start = row_start + (n - 1 - i);
        i += 1;
    }
    assert(intercity_map.deep_view() =~~= symmetric_matrix(count, weights@));
    Some(intercity_map)
}

/// Generates a random symmetric matrix of `num_cities` cities with zero on
/// its diagonal and, off it, weights drawn from the half-open range from
/// `weight_range.0` to `weight_range.1`. The answer is `None` when that range
/// is empty or reversed.
pub fn generate_map(num_cities: u16, weight_range: (u16, u16)) -> (generated: Option<
    Vec<Vec<u16>>,
>)
    ensures
        generated is Some <==> weight_range.0 < weight_range.1,
        generated matches Some(intercity_map) ==> exists|weights: Seq<u16>|
            weights.len() == pair_count(num_cities as nat) && weights_within(
                weights,
                weight_range.0,
                weight_range.1,
            ) && intercity_map.deep_view() == #[trigger] symmetric_matrix(
                num_cities as nat,
                weights,
            ),
        generated matches Some(intercity_map) ==> intercity_map.deep_view().len() == num_cities,
        generated matches Some(intercity_map) ==> num_cities > 0 ==> is_square(
            intercity_map.deep_view(),
        ),
        generated matches Some(intercity_map) ==> is_symmetric(intercity_map.deep_view()),
        generated matches Some(intercity_map) ==> has_zero_diagonal(intercity_map.deep_view()),
        generated matches Some(intercity_map) ==> forall|i: int, j: int|
            0 <= i < num_cities && 0 <= j < num_cities && i != j ==> weight_range.0
                <= #[trigger] intercity_map.deep_view()[i][j] < weight_range.1,
{
    let (low, high) = weight_range;
    if high <= low {
        return None;
    }
    let n: usize = num_cities as usize;
    let ghost count = n as nat;
    let mut source = thread_source();
    let mut weights: Vec<u16> = Vec::new();
    let mut i: usize = 0;
    while i < n
        invariant
            n == num_cities,
            count == n,
            i <= n,
            low < high,
            weights.len() == pairs_before(count, i as nat),
            weights_within(weights@, low, high),
        decreases n - i,
    {
        proof {
            lemma_pairs_before_bounds(count, i as nat);
        }
        let mut j: usize = i + 1;
        while j < n
            invariant
                n == num_cities,
                count == n,
                i < j <= n,
                low < high,
                weights.len() == pairs_before(count, i as nat) + (j - i - 1),
                weights_within(weights@, low, high),
            decreases n - j,
        {
            let weight: u16 = draw_weight(&mut source, low, high);
            weights.push(weight);
            j += 1;
        }
        i += 1;
    }
    proof {
        lemma_symmetric_matrix(count, weights@);
        lemma_symmetric_matrix_entries(count, weights@, low, high);
    }
    map_from_weights(num_cities, &weights)
}

} // verus!
