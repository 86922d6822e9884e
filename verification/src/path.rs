//! Paths over a distance matrix: what a tour is, what a path costs, and the
//! order in which two paths of one length compare.

use vstd::prelude::*;
use crate::matrix::{distance, is_square, valid_city_map};

verus! {

/// The longest path whose cost is computed: with a weight of at most
/// `u16::MAX` per hop, the cost of such a path fits in a `u64`.
pub const MAX_PATH_LEN: u64 = 0x1_0000_0000_0000;

/// The cost of walking `path` over `m`: the sum of the weights of the edges
/// between consecutive cities. A path of fewer than two cities has no edge
/// and costs nothing. The walk does not return to its start.
pub open spec fn cost_along(m: Seq<Seq<u16>>, path: Seq<u16>) -> nat
    decreases path.len(),
{
    if path.len() < 2 {
        0
    } else {
        cost_along(m, path.drop_last()) + distance(
            m,
            path[path.len() - 2] as int,
            path[path.len() - 1] as int,
        )
    }
}

/// Every city on a path that has at least one edge is a city of a matrix
/// with `n` cities.
pub open spec fn hops_in_range(n: nat, path: Seq<u16>) -> bool {
    path.len() >= 2 ==> forall|k: int| 0 <= k < path.len() ==> (#[trigger] path[k] as nat) < n
}

/// A tour of `n` cities visits each of the cities `0..n` exactly once.
pub open spec fn is_tour(n: nat, path: Seq<u16>) -> bool {
    &&& path.len() == n
    &&& forall|k: int| 0 <= k < path.len() ==> (#[trigger] path[k] as nat) < n
    &&& path.no_duplicates()
}

/// The tour that visits the cities in the order of their numbers.
pub open spec fn identity_path(n: nat) -> Seq<u16> {
    Seq::new(n, |k: int| k as u16)
}

/// Two paths agree before position `k` and differ at it.
pub open spec fn differ_first_at(a: Seq<u16>, b: Seq<u16>, k: int) -> bool {
    &&& 0 <= k < a.len()
    &&& k < b.len()
    &&& a[k] != b[k]
    &&& forall|j: int| 0 <= j < k ==> a[j] == b[j]
}

/// `a` comes before `b` in lexicographic order: where the two first differ,
/// `a` holds the smaller city.
pub open spec fn lex_less(a: Seq<u16>, b: Seq<u16>) -> bool {
    exists|k: int| #[trigger] differ_first_at(a, b, k) && a[k] < b[k]
}

/// Of two paths, at most one comes before the other.
pub proof fn lemma_lex_less_asymmetric(a: Seq<u16>, b: Seq<u16>)
    ensures
        !(lex_less(a, b) && lex_less(b, a)),
{
    if lex_less(a, b) && lex_less(b, a) {
        let k = choose|k: int| #[trigger] differ_first_at(a, b, k) && a[k] < b[k];
        let l = choose|l: int| #[trigger] differ_first_at(b, a, l) && b[l] < a[l];
        if k < l {
            assert(b[k] == a[k]);
        } else if l < k {
            assert(a[l] == b[l]);
        }
    }
}

/// The cities in the order of their numbers form a tour.
pub proof fn lemma_identity_is_tour(n: nat)
    requires
        n <= 0x1_0000,
    ensures
        is_tour(n, identity_path(n)),
{
}

/// A path that holds the cities of a tour, each as often as the tour does,
/// is a tour as well.
pub proof fn lemma_rearranged_tour(n: nat, tour: Seq<u16>, rearranged: Seq<u16>)
    requires
        is_tour(n, tour),
        rearranged.to_multiset() == tour.to_multiset(),
    ensures
        is_tour(n, rearranged),
{
    broadcast use vstd::seq_lib::group_to_multiset_ensures;

    tour.lemma_multiset_has_no_duplicates();
    rearranged.lemma_multiset_has_no_duplicates_conv();
    assert(rearranged.len() == rearranged.to_multiset().len());
    assert(tour.len() == tour.to_multiset().len());
    assert forall|k: int| 0 <= k < rearranged.len() implies (#[trigger] rearranged[k] as nat)
        < n by {
        let city = rearranged[k];
        assert(rearranged.contains(city));
        assert(rearranged.to_multiset().count(city) > 0);
        assert(tour.to_multiset().count(city) > 0);
        assert(tour.contains(city));
    }
}

/// The cost of a path grows by the weight of the last edge when the path
/// grows by one city.
pub proof fn lemma_cost_additive(m: Seq<Seq<u16>>, path: Seq<u16>)
    requires
        path.len() >= 2,
    ensures
        cost_along(m, path) == cost_along(m, path.subrange(0, path.len() - 1)) + distance(
            m,
            path[path.len() - 2] as int,
            path[path.len() - 1] as int,
        ),
{
    assert(path.subrange(0, path.len() - 1) == path.drop_last());
}

/// Builds the tour that visits the cities in the order of their numbers.
pub(crate) fn identity_tour(num_cities: u16) -> (path: Vec<u16>)
    ensures
        path@ == identity_path(num_cities as nat),
{
    let mut path: Vec<u16> = Vec::new();
    let mut city: u16 = 0;
    while city < num_cities
        invariant
            city <= num_cities,
            path@ == identity_path(city as nat),
        decreases num_cities - city,
    {
        path.push(city);
        city += 1;
    }
    path
}

/// Computes the cost of walking `path` over the matrix, or `None` when the
/// matrix is empty or not square. The cities of a path with at least one
/// edge must be cities of the matrix.
pub fn path_cost(intercity_map: &Vec<Vec<u16>>, path: &Vec<u16>) -> (cost: Option<u64>)
    requires
        path.len() <= MAX_PATH_LEN,
        is_square(intercity_map.deep_view()) ==> hops_in_range(intercity_map.len() as nat, path@),
    ensures
        cost is Some <==> is_square(intercity_map.deep_view()),
        cost matches Some(c) ==> c == cost_along(intercity_map.deep_view(), path@),
{
    if !valid_city_map(intercity_map) {
        return None;
    }
    let ghost m = intercity_map.deep_view();
    if path.len() < 2 {
        return Some(0);
    }
    let mut total: u64 = 0;
    let mut k: usize = 1;
    while k < path.len()
        invariant
            1 <= k <= path.len(),
            path.len() <= MAX_PATH_LEN,
            m == intercity_map.deep_view(),
            is_square(m),
            hops_in_range(m.len(), path@),
            total == cost_along(m, path@.take(k as int)),
            total <= 0xffff * k,
        decreases path.len() - k,
    {
        let from: usize = path[k - 1] as usize;
        let to: usize = path[k] as usize;
        assert(intercity_map@[from as int]@.len() == m[from as int].len());
        let weight: u16 = intercity_map[from][to];
        proof {
            assert(path@.take(k + 1).drop_last() == path@.take(k as int));
            assert(m[from as int][to as int] == weight);
        }
        total = total + weight as u64;
        k += 1;
    }
    assert(path@.take(k as int) == path@);
    Some(total)
}

} // verus!
