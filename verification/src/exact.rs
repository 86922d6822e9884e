//! The exact solver: every tour is tried, and the cheapest is kept.

use vstd::prelude::*;
use crate::matrix::{is_square, valid_city_map};
use crate::path::{
    cost_along,
    identity_path,
    is_tour,
    lemma_identity_is_tour,
    lemma_lex_less_asymmetric,
    lex_less,
    path_cost,
};
use crate::permutations::{enumerates_tours, next_permutation, pending, permutations_of_cities};

verus! {

/// No tour over `m` costs less than `path`, which is a tour itself.
pub open spec fn is_optimal_tour(m: Seq<Seq<u16>>, path: Seq<u16>) -> bool {
    &&& is_tour(m.len(), path)
    &&& forall|other: Seq<u16>| #[trigger]
        is_tour(m.len(), other) ==> cost_along(m, path) <= cost_along(m, other)
}

/// `path` is an optimal tour over `m`, and it comes first in lexicographic
/// order among the tours that cost as little.
pub open spec fn is_first_optimal_tour(m: Seq<Seq<u16>>, path: Seq<u16>) -> bool {
    &&& is_optimal_tour(m, path)
    &&& forall|other: Seq<u16>| #[trigger]
        is_tour(m.len(), other) && cost_along(m, other) == cost_along(m, path) && other != path
            ==> lex_less(path, other)
}

/// A matrix has at most one first optimal tour: the tour that
/// `brute_force_tsp` returns is determined by the matrix.
pub proof fn lemma_first_optimal_tour_unique(m: Seq<Seq<u16>>, a: Seq<u16>, b: Seq<u16>)
    requires
        is_first_optimal_tour(m, a),
        is_first_optimal_tour(m, b),
    ensures
        a == b,
{
    if a != b {
        assert(cost_along(m, a) == cost_along(m, b));
        assert(lex_less(a, b));
        assert(lex_less(b, a));
        lemma_lex_less_asymmetric(a, b);
    }
}

/// Finds a cheapest tour by trying all of them. The answer is `None` when the
/// matrix is empty or not square. Among several cheapest tours the one that
/// the enumeration reaches first is returned, which is the first of them in
/// lexicographic order. The cost is that of walking the tour from its first
/// city to its last.
///
/// The number of tours grows as the factorial of the number of cities, and
/// nothing cuts the search short.
pub fn brute_force_tsp(intercity_map: &Vec<Vec<u16>>) -> (found: Option<(Vec<u16>, u64)>)
    requires
        intercity_map.len() <= u16::MAX,
    ensures
        found is Some <==> is_square(intercity_map.deep_view()),
        found matches Some((path, cost)) ==> is_first_optimal_tour(
            intercity_map.deep_view(),
            path@,
        ) && cost == cost_along(intercity_map.deep_view(), path@),
{
    if !valid_city_map(intercity_map) {
        return None;
    }
    let ghost m = intercity_map.deep_view();
    let num_cities: u16 = intercity_map.len() as u16;
    let mut perms = permutations_of_cities(num_cities);
    let ghost order = pending(perms);
    proof {
        lemma_identity_is_tour(num_cities as nat);
        let k = choose|k: int| 0 <= k < order.len() && #[trigger] order[k] == identity_path(num_cities as nat);
    }
    let mut best_path: Vec<u16> = match next_permutation(&mut perms) {
        None => {
            return None;
        },
        Some(tour) => tour,
    };
    let mut best_cost: u64 = match path_cost(intercity_map, &best_path) {
        None => {
            return None;
        },
        Some(cost) => cost,
    };
    let ghost mut seen: int = 1;
    let ghost mut best_at: int = 0;
    loop
        invariant_except_break
            pending(perms) == order.skip(seen),
        invariant
            m == intercity_map.deep_view(),
            is_square(m),
            m.len() == num_cities,
            enumerates_tours(order, num_cities as nat),
            0 <= best_at < seen <= order.len(),
            best_path@ == order[best_at],
            best_cost == cost_along(m, best_path@),
            forall|j: int| 0 <= j < seen ==> best_cost <= cost_along(m, #[trigger] order[j]),
            forall|j: int| 0 <= j < best_at ==> best_cost < cost_along(m, #[trigger] order[j]),
        ensures
            seen == order.len(),
        decreases order.len() - seen,
    {
        let tour: Vec<u16> = match next_permutation(&mut perms) {
            None => {
                break ;
            },
            Some(tour) => tour,
        };
        assert(tour@ == order[seen]);
        assert(order.skip(seen).drop_first() == order.skip(seen + 1));
        let cost: u64 = match path_cost(intercity_map, &tour) {
            None => {
                return None;
            },
            Some(cost) => cost,
        };
        if cost < best_cost {
            best_path = tour;
            best_cost = cost;
            proof {
                best_at = seen;
            }
        }
        proof {
            seen = seen + 1;
        }
    }
    proof {
        assert forall|other: Seq<u16>| #[trigger] is_tour(m.len(), other) implies cost_along(
            m,
            best_path@,
        ) <= cost_along(m, other) by {
            let k = choose|k: int| 0 <= k < order.len() && #[trigger] order[k] == other;
        }
        assert forall|other: Seq<u16>| #[trigger]
            is_tour(m.len(), other) && cost_along(m, other) == cost_along(m, best_path@) && other
                != best_path@ implies lex_less(best_path@, other) by {
            let k = choose|k: int| 0 <= k < order.len() && #[trigger] order[k] == other;
            assert(best_at < k);
        }
    }
    Some((best_path, best_cost))
}

} // verus!
