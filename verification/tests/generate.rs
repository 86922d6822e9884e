use tsp::{generate_map, map_from_weights, valid_city_map};

#[test]
fn test_map_gen() {
    let map = generate_map(5, (25, 40));
    assert!(map.is_some());
    let map = map.unwrap();

    for i in 0..map.len() {
        for j in 0..map.len() {
            assert_eq!(map[i][j], map[j][i]); // must be symmetric
        }
    }
}

#[test]
fn generated_map_is_square_with_zero_diagonal() {
    for n in 1..12u16 {
        let map = generate_map(n, (25, 40)).unwrap();
        assert!(valid_city_map(&map));
        assert_eq!(map.len(), n as usize);
        for i in 0..map.len() {
            assert_eq!(map[i].len(), n as usize);
            assert_eq!(map[i][i], 0);
        }
    }
}

#[test]
fn generated_weights_lie_in_the_range() {
    let map = generate_map(30, (25, 40)).unwrap();
    for i in 0..map.len() {
        for j in 0..map.len() {
            if i != j {
                assert!(25 <= map[i][j] && map[i][j] < 40);
            }
        }
    }
}

#[test]
fn range_of_one_weight_leaves_no_choice() {
    let map = generate_map(6, (7, 8)).unwrap();
    for i in 0..6 {
        for j in 0..6 {
            assert_eq!(map[i][j], if i == j { 0 } else { 7 });
        }
    }
}

#[test]
fn generated_weights_vary() {
    let map = generate_map(40, (0, 60000)).unwrap();
    let first = map[0][1];
    let mut varied = false;
    for i in 0..map.len() {
        for j in (i + 1)..map.len() {
            if map[i][j] != first {
                varied = true;
            }
        }
    }
    assert!(varied);
}

#[test]
fn degenerate_range_is_rejected() {
    for n in [0u16, 1, 2, 5, 10, 1000, u16::MAX] {
        for w in [0u16, 1, 25, 300, u16::MAX] {
            assert_eq!(generate_map(n, (w, w)), None);
        }
    }
}

#[test]
fn reversed_range_is_rejected() {
    assert_eq!(generate_map(5, (40, 25)), None);
    assert_eq!(generate_map(0, (1, 0)), None);
    assert_eq!(generate_map(3, (u16::MAX, 0)), None);
}

#[test]
fn map_of_no_cities_is_empty() {
    let map = generate_map(0, (1, 2)).unwrap();
    assert!(map.is_empty());
    assert!(!valid_city_map(&map));
}

#[test]
fn map_of_one_city_is_a_single_zero() {
    assert_eq!(generate_map(1, (1, 2)), Some(vec![vec![0]]));
}

#[test]
fn map_from_weights_lists_pairs_row_by_row() {
    let weights: Vec<u16> = vec![1, 2, 3, 4, 5, 6];
    let map = map_from_weights(4, &weights).unwrap();
    assert_eq!(
        map,
        vec![
            vec![0, 1, 2, 3],
            vec![1, 0, 4, 5],
            vec![2, 4, 0, 6],
            vec![3, 5, 6, 0],
        ]
    );
}

#[test]
fn map_from_weights_for_few_cities() {
    assert_eq!(map_from_weights(0, &Vec::new()), Some(Vec::new()));
    assert_eq!(map_from_weights(1, &Vec::new()), Some(vec![vec![0]]));
    assert_eq!(map_from_weights(2, &vec![65535]), Some(vec![vec![0, 65535], vec![65535, 0]]));
    assert_eq!(
        map_from_weights(3, &vec![10, 20, 30]),
        Some(vec![vec![0, 10, 20], vec![10, 0, 30], vec![20, 30, 0]])
    );
}

#[test]
fn map_from_weights_wants_one_weight_for_each_pair() {
    assert_eq!(map_from_weights(4, &vec![1, 2, 3, 4, 5]), None);
    assert_eq!(map_from_weights(4, &vec![1, 2, 3, 4, 5, 6, 7]), None);
    assert_eq!(map_from_weights(0, &vec![1]), None);
    assert_eq!(map_from_weights(1, &vec![1]), None);
    assert_eq!(map_from_weights(2, &Vec::new()), None);
    assert_eq!(map_from_weights(u16::MAX, &vec![1, 2, 3]), None);
}
