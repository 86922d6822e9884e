//! The distance matrix: its mathematical model and its shape check.
//!
//! A matrix is held as a `Vec<Vec<u16>>`, one inner vector per city. Contracts
//! speak of its deep view, a `Seq<Seq<u16>>` of rows of weights.

use vstd::prelude::*;

verus! {

/// A matrix is square when it has at least one row and every row is as long
/// as the matrix has rows.
pub open spec fn is_square(m: Seq<Seq<u16>>) -> bool {
    &&& m.len() > 0
    &&& forall|i: int| 0 <= i < m.len() ==> (#[trigger] m[i]).len() == m.len()
}

/// The weight of the edge that leads from city `from` to city `to`.
pub open spec fn distance(m: Seq<Seq<u16>>, from: int, to: int) -> nat {
    m[from][to] as nat
}

/// Every edge weighs the same in both directions.
pub open spec fn is_symmetric(m: Seq<Seq<u16>>) -> bool {
    forall|i: int, j: int|
        0 <= i < m.len() && 0 <= j < m.len() ==> #[trigger] m[i][j] == #[trigger] m[j][i]
}

/// No city is at a distance from itself.
pub open spec fn has_zero_diagonal(m: Seq<Seq<u16>>) -> bool {
    forall|i: int| 0 <= i < m.len() ==> #[trigger] m[i][i] == 0
}

/// Says whether the matrix has at least one city and is square. Symmetry and
/// the diagonal are not looked at.
pub fn valid_city_map(intercity_map: &Vec<Vec<u16>>) -> (valid: bool)
    ensures
        valid == is_square(intercity_map.deep_view()),
{
    let n: usize = intercity_map.len();
    if n == 0 {
        return false;
    }
    let mut i: usize = 0;
    while i < n
        invariant
            n == intercity_map@.len(),
            i <= n,
            forall|k: int| 0 <= k < i ==> (#[trigger] intercity_map@[k])@.len() == n,
        decreases n - i,
    {
        if intercity_map[i].len() != n {
            assert(intercity_map.deep_view()[i as int].len() != n);
            return false;
        }
        i += 1;
    }
    assert forall|k: int| 0 <= k < intercity_map.deep_view().len() implies (
    #[trigger] intercity_map.deep_view()[k]).len() == intercity_map.deep_view().len() by {
        assert(intercity_map@[k]@.len() == n);
    }
    true
}

} // verus!
