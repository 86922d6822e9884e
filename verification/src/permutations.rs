//! The enumeration of all tours, in the order in which the search visits
//! them. The enumerating iterator comes from `itertools`; its contracts are
//! stated here and believed, not proved.

use itertools::structs::Permutations;
use itertools::Itertools;
use std::ops::Range;
use vstd::prelude::*;
use crate::path::{is_tour, lex_less};

verus! {

/// `order` lists every tour of `n` cities once, in rising lexicographic
/// order.
pub open spec fn enumerates_tours(order: Seq<Seq<u16>>, n: nat) -> bool {
    &&& forall|k: int| 0 <= k < order.len() ==> is_tour(n, #[trigger] order[k])
    &&& forall|j: int, k: int|
        0 <= j < k < order.len() ==> lex_less(#[trigger] order[j], #[trigger] order[k])
    &&& forall|tour: Seq<u16>|
        is_tour(n, tour) ==> exists|k: int| 0 <= k < order.len() && #[trigger] order[k] == tour
}

/// `itertools::structs::Permutations`, the iterator that
/// `Itertools::permutations` returns. Nothing inside it is visible here.
#[verifier::external_type_specification]
#[verifier::external_body]
#[verifier::reject_recursive_types(I)]
pub struct ExPermutations<I: Iterator>(Permutations<I>);

/// The permutations that the iterator yields before it next answers `None`,
/// in the order in which it yields them.
pub uninterp spec fn pending(perms: Permutations<Range<u16>>) -> Seq<Seq<u16>>;

/// `Itertools::permutations` over the cities `0..num_cities`, taken
/// `num_cities` at a time. The iterator yields each arrangement of the cities
/// once, and yields them in rising lexicographic order, beginning with the
/// cities in the order of their numbers.
#[verifier::external_body]
pub(crate) fn permutations_of_cities(num_cities: u16) -> (perms: Permutations<Range<u16>>)
    ensures
        enumerates_tours(pending(perms), num_cities as nat),
{
    (0..num_cities).permutations(num_cities as usize)
}

/// `Iterator::next` of `itertools::structs::Permutations`. While permutations
/// are pending the call yields the first of them and leaves the rest pending;
/// it answers `None` only when none is pending. What is pending after a
/// `None` is not stated: the iterator may start over.
#[verifier::external_body]
pub(crate) fn next_permutation(perms: &mut Permutations<Range<u16>>) -> (next: Option<Vec<u16>>)
    ensures
        next is None <==> pending(*old(perms)).len() == 0,
        next matches Some(tour) ==> tour@ == pending(*old(perms)).first() && pending(*final(perms))
            == pending(*old(perms)).drop_first(),
{
    perms.next()
}

} // verus!
