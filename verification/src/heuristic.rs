//! The heuristic solver: a fixed number of random tours is drawn, and the
//! cheapest tour seen is kept. The search starts from the tour that visits
//! the cities in the order of their numbers, and a drawn tour replaces the
//! one kept only when it costs strictly less.

use vstd::prelude::*;
use crate::exact::is_optimal_tour;
use crate::matrix::{is_square, valid_city_map};
use crate::path::{
    cost_along,
    hops_in_range,
    identity_path,
    identity_tour,
    is_tour,
    lemma_identity_is_tour,
    lemma_rearranged_tour,
    path_cost,
    MAX_PATH_LEN,
};
use crate::random::{shuffle_path, thread_source};

verus! {

/// The number of tours that `simulated_annealing_tsp` draws.
pub const RESTARTS: u32 = 32;

/// The path that is kept when `candidate` is held against `incumbent`: the
/// candidate when it costs strictly less, else the incumbent.
pub open spec fn better_of(m: Seq<Seq<u16>>, incumbent: Seq<u16>, candidate: Seq<u16>) -> Seq<u16> {
    if cost_along(m, candidate) < cost_along(m, incumbent) {
        candidate
    } else {
        incumbent
    }
}

/// The path that is kept after the paths of `draws` were held, one after the
/// other, against what was kept before them, beginning with `start`.
pub open spec fn search_over(m: Seq<Seq<u16>>, start: Seq<u16>, draws: Seq<Seq<u16>>) -> Seq<u16>
    decreases draws.len(),
{
    if draws.len() == 0 {
        start
    } else {
        better_of(m, search_over(m, start, draws.drop_last()), draws.last())
    }
}

/// `draws` holds `rounds` tours over `m`, and `path` is what the search keeps
/// when it starts from the identity tour and is offered these tours in turn.
pub open spec fn is_search_result(
    m: Seq<Seq<u16>>,
    rounds: nat,
    draws: Seq<Seq<u16>>,
    path: Seq<u16>,
) -> bool {
    &&& draws.len() == rounds
    &&& forall|i: int| 0 <= i < draws.len() ==> is_tour(m.len(), #[trigger] draws[i])
    &&& path == search_over(m, identity_path(m.len()), draws)
}

/// A search that starts from a tour and is offered tours keeps a tour. What
/// it keeps costs no more than the start, and no more than any tour offered.
pub proof fn lemma_search_keeps_cheapest(m: Seq<Seq<u16>>, start: Seq<u16>, draws: Seq<Seq<u16>>)
    requires
        is_tour(m.len(), start),
        forall|i: int| 0 <= i < draws.len() ==> is_tour(m.len(), #[trigger] draws[i]),
    ensures
        is_tour(m.len(), search_over(m, start, draws)),
        cost_along(m, search_over(m, start, draws)) <= cost_along(m, start),
        forall|i: int|
            0 <= i < draws.len() ==> cost_along(m, search_over(m, start, draws)) <= cost_along(
                m,
                #[trigger] draws[i],
            ),
    decreases draws.len(),
{
    if draws.len() > 0 {
        let earlier = draws.drop_last();
        lemma_search_keeps_cheapest(m, start, earlier);
        assert forall|i: int| 0 <= i < draws.len() implies cost_along(
            m,
            search_over(m, start, draws),
        ) <= cost_along(m, #[trigger] draws[i]) by {
            if i < earlier.len() {
                assert(earlier[i] == draws[i]);
            }
        }
    }
}

/// The cost of what the search keeps lies between the cost of an optimal
/// tour and the cost of the identity tour.
pub proof fn lemma_search_between_optimum_and_identity(
    m: Seq<Seq<u16>>,
    optimal: Seq<u16>,
    rounds: nat,
    draws: Seq<Seq<u16>>,
    path: Seq<u16>,
)
    requires
        m.len() <= 0x1_0000,
        is_optimal_tour(m, optimal),
        is_search_result(m, rounds, draws, path),
    ensures
        cost_along(m, optimal) <= cost_along(m, path) <= cost_along(m, identity_path(m.len())),
{
    lemma_identity_is_tour(m.len());
    lemma_search_keeps_cheapest(m, identity_path(m.len()), draws);
}

/// Draws a random tour of the cities of the matrix, or answers `None` when
/// the matrix is empty or not square.
pub fn generate_random_path(intercity_map: &Vec<Vec<u16>>) -> (drawn: Option<Vec<u16>>)
    requires
        intercity_map.len() <= u16::MAX,
    ensures
        drawn is Some <==> is_square(intercity_map.deep_view()),
        drawn matches Some(path) ==> is_tour(intercity_map.len() as nat, path@),
{
    if !valid_city_map(intercity_map) {
        return None;
    }
    let num_cities: u16 = intercity_map.len() as u16;
    let mut path = identity_tour(num_cities);
    let mut source = thread_source();
    let ghost before = path@;
    shuffle_path(&mut source, &mut path);
    proof {
        lemma_identity_is_tour(num_cities as nat);
        lemma_rearranged_tour(num_cities as nat, before, path@);
    }
    Some(path)
}

/// Holds a candidate against the incumbent and its cost, and keeps the
/// candidate, with its cost, when it costs strictly less; at equal cost the
/// incumbent stays. The answer is `None` when the matrix is empty or not
/// square.
pub fn keep_better(
    intercity_map: &Vec<Vec<u16>>,
    incumbent: (Vec<u16>, u64),
    candidate: Vec<u16>,
) -> (kept: Option<(Vec<u16>, u64)>)
    requires
        candidate.len() <= MAX_PATH_LEN,
        is_square(intercity_map.deep_view()) ==> hops_in_range(
            intercity_map.len() as nat,
            candidate@,
        ),
    ensures
        kept is Some <==> is_square(intercity_map.deep_view()),
        kept matches Some((path, cost)) ==> (cost_along(intercity_map.deep_view(), candidate@)
            < incumbent.1 ==> path@ == candidate@ && cost == cost_along(
            intercity_map.deep_view(),
            candidate@,
        )),
        kept matches Some((path, cost)) ==> (cost_along(intercity_map.deep_view(), candidate@)
            >= incumbent.1 ==> path@ == incumbent.0@ && cost == incumbent.1),
{
    match path_cost(intercity_map, &candidate) {
        None => None,
        Some(cost) => {
            if cost < incumbent.1 {
                Some((candidate, cost))
            } else {
                Some(incumbent)
            }
        },
    }
}

/// Searches for a cheap tour by drawing `iterations` random tours. The
/// answer is `None` when the matrix is empty or not square. Else it is the
/// tour that the search keeps, with its cost: the search starts from the
/// identity tour and replaces what it keeps by a drawn tour only when that
/// costs strictly less, so the cost reported is at most that of the identity
/// tour.
pub fn random_restart_tsp(intercity_map: &Vec<Vec<u16>>, iterations: u32) -> (found: Option<
    (Vec<u16>, u64),
>)
    requires
        intercity_map.len() <= u16::MAX,
    ensures
        found is Some <==> is_square(intercity_map.deep_view()),
        found matches Some((path, cost)) ==> cost == cost_along(
            intercity_map.deep_view(),
            path@,
        ),
        found matches Some((path, cost)) ==> is_tour(intercity_map.len() as nat, path@),
        found matches Some((path, cost)) ==> cost <= cost_along(
            intercity_map.deep_view(),
            identity_path(intercity_map.len() as nat),
        ),
        found matches Some((path, cost)) ==> exists|draws: Seq<Seq<u16>>| #[trigger]
            is_search_result(intercity_map.deep_view(), iterations as nat, draws, path@),
{
    if !valid_city_map(intercity_map) {
        return None;
    }
    let ghost m = intercity_map.deep_view();
    let num_cities: u16 = intercity_map.len() as u16;
    let mut best_path = identity_tour(num_cities);
    proof {
        lemma_identity_is_tour(num_cities as nat);
    }
    let mut best_cost: u64 = match path_cost(intercity_map, &best_path) {
        None => {
            return None;
        },
        Some(cost) => cost,
    };
    let mut source = thread_source();
    let ghost mut draws: Seq<Seq<u16>> = Seq::empty();
    let mut round: u32 = 0;
    while round < iterations
        invariant
            round <= iterations,
            m == intercity_map.deep_view(),
            is_square(m),
            m.len() == num_cities,
            is_search_result(m, round as nat, draws, best_path@),
            is_tour(m.len(), best_path@),
            best_cost == cost_along(m, best_path@),
        decreases iterations - round,
    {
        let mut candidate = best_path.clone();
        assert(candidate@ == best_path@);
        shuffle_path(&mut source, &mut candidate);
        proof {
            lemma_rearranged_tour(num_cities as nat, best_path@, candidate@);
            let longer = draws.push(candidate@);
            assert(longer.drop_last() == draws);
            assert(longer.last() == candidate@);
            draws = longer;
        }
        match keep_better(intercity_map, (best_path, best_cost), candidate) {
            None => {
                return None;
            },
            Some((path, cost)) => {
                best_path = path;
                best_cost = cost;
            },
        }
        round += 1;
    }
    proof {
        lemma_search_keeps_cheapest(m, identity_path(m.len()), draws);
    }
    Some((best_path, best_cost))
}

/// Searches for a cheap tour by drawing `RESTARTS` random tours: see
/// `random_restart_tsp`.
pub fn simulated_annealing_tsp(intercity_map: &Vec<Vec<u16>>) -> (found: Option<(Vec<u16>, u64)>)
    requires
        intercity_map.len() <= u16::MAX,
    ensures
        found is Some <==> is_square(intercity_map.deep_view()),
        found matches Some((path, cost)) ==> cost == cost_along(
            intercity_map.deep_view(),
            path@,
        ),
        found matches Some((path, cost)) ==> is_tour(intercity_map.len() as nat, path@),
        found matches Some((path, cost)) ==> cost <= cost_along(
            intercity_map.deep_view(),
            identity_path(intercity_map.len() as nat),
        ),
        found matches Some((path, cost)) ==> exists|draws: Seq<Seq<u16>>| #[trigger]
            is_search_result(intercity_map.deep_view(), RESTARTS as nat, draws, path@),
{
    random_restart_tsp(intercity_map, RESTARTS)
}

} // verus!
