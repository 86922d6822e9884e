use itertools::Itertools;
use tsp::{brute_force_tsp, path_cost};

#[test]
fn test_brute_force_tsp() {
    let map: Vec<Vec<u16>> = vec![
        vec![2, 2, 2, 1],
        vec![1, 2, 2, 2],
        vec![2, 1, 2, 2],
        vec![2, 2, 1, 2],
    ];
    let path: Vec<u16> = vec![0, 3, 2, 1];

    let res = brute_force_tsp(&map);
    assert!(res.is_some());

    let (optimal_path, optimal_cost) = res.unwrap();

    assert_eq!(optimal_path, path);
    assert_eq!(optimal_cost, path_cost(&map, &path).unwrap());
}

#[test]
fn brute_force_on_invalid_map_is_absent() {
    let empty: Vec<Vec<u16>> = Vec::new();
    assert_eq!(brute_force_tsp(&empty), None);
    let ragged: Vec<Vec<u16>> = vec![vec![0, 1, 2], vec![1, 0, 2], vec![2, 2]];
    assert_eq!(brute_force_tsp(&ragged), None);
    let wide: Vec<Vec<u16>> = vec![vec![0, 1, 2], vec![1, 0, 2]];
    assert_eq!(brute_force_tsp(&wide), None);
}

#[test]
fn brute_force_on_one_city() {
    let map: Vec<Vec<u16>> = vec![vec![0]];
    assert_eq!(brute_force_tsp(&map), Some((vec![0], 0)));
}

#[test]
fn brute_force_on_two_cities_goes_the_cheaper_way() {
    let map: Vec<Vec<u16>> = vec![vec![0, 9], vec![4, 0]];
    assert_eq!(brute_force_tsp(&map), Some((vec![1, 0], 4)));
    let back: Vec<Vec<u16>> = vec![vec![0, 4], vec![9, 0]];
    assert_eq!(brute_force_tsp(&back), Some((vec![0, 1], 4)));
}

#[test]
fn brute_force_keeps_the_first_of_equal_tours() {
    let map: Vec<Vec<u16>> = vec![vec![3; 5]; 5];
    assert_eq!(brute_force_tsp(&map), Some((vec![0, 1, 2, 3, 4], 12)));
}

#[test]
fn brute_force_prefers_the_lexicographically_first_of_two_directions() {
    let map: Vec<Vec<u16>> = vec![
        vec![0, 9, 1, 9],
        vec![9, 0, 9, 1],
        vec![1, 9, 0, 1],
        vec![9, 1, 1, 0],
    ];
    // the cheapest walk is 0 - 2 - 3 - 1, in either direction
    assert_eq!(brute_force_tsp(&map), Some((vec![0, 2, 3, 1], 3)));
}

#[test]
fn brute_force_finds_no_more_than_any_tour_costs() {
    let map: Vec<Vec<u16>> = vec![
        vec![0, 12, 7, 31, 5],
        vec![12, 0, 9, 4, 18],
        vec![7, 9, 0, 22, 3],
        vec![31, 4, 22, 0, 16],
        vec![5, 18, 3, 16, 0],
    ];
    let (best, best_cost) = brute_force_tsp(&map).unwrap();
    assert_eq!(path_cost(&map, &best), Some(best_cost));
    let mut sorted = best.clone();
    sorted.sort();
    assert_eq!(sorted, vec![0, 1, 2, 3, 4]);
    let mut cheapest = u64::MAX;
    let mut tours = 0;
    for tour in (0..5u16).permutations(5) {
        let cost = path_cost(&map, &tour).unwrap();
        assert!(best_cost <= cost);
        if cost == best_cost {
            assert!(best <= tour);
        }
        cheapest = cheapest.min(cost);
        tours += 1;
    }
    assert_eq!(tours, 120);
    assert_eq!(best_cost, cheapest);
    assert_eq!(best_cost, 4 + 9 + 3 + 5);
    assert_eq!(best, vec![0, 4, 2, 1, 3]);
}

#[test]
fn permutations_of_cities_rise_lexicographically() {
    let mut expected: usize = 1;
    for n in 0..7u16 {
        if n > 0 {
            expected *= n as usize;
        }
        let all: Vec<Vec<u16>> = (0..n).permutations(n as usize).collect();
        assert_eq!(all.len(), expected);
        assert_eq!(all[0], (0..n).collect::<Vec<u16>>());
        for k in 1..all.len() {
            assert!(all[k - 1] < all[k]);
        }
        for tour in &all {
            let mut sorted = tour.clone();
            sorted.sort();
            assert_eq!(sorted, (0..n).collect::<Vec<u16>>());
        }
    }
}
