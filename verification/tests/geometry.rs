use hexlife::coordinate::{HexCoordinate, COORD_LIMIT};

fn at(x: i32, y: i32) -> HexCoordinate {
    HexCoordinate::new(x, y)
}

#[test]
fn new_keeps_the_components() {
    let c = HexCoordinate::new(3, -7);
    assert_eq!(c.x, 3);
    assert_eq!(c.y, -7);
    assert_eq!(HexCoordinate::origin(), at(0, 0));
}

#[test]
fn range_check_is_inclusive() {
    assert!(at(COORD_LIMIT, -COORD_LIMIT).is_in_range());
    assert!(!at(COORD_LIMIT + 1, 0).is_in_range());
    assert!(!at(0, -COORD_LIMIT - 1).is_in_range());
    assert!(!at(i32::MIN, i32::MAX).is_in_range());
}

#[test]
fn distance_exact_values() {
    assert_eq!(at(0, 0).distance(at(0, 0)), 0);
    assert_eq!(at(0, 0).distance(at(3, -1)), 3);
    assert_eq!(at(0, 0).distance(at(2, 2)), 4);
    assert_eq!(at(0, 0).distance(at(-2, -3)), 5);
    assert_eq!(at(1, 1).distance(at(-1, 3)), 2);
    assert_eq!(at(5, -1).distance(at(5, 4)), 5);
}

#[test]
fn distance_at_the_limit() {
    let far = at(COORD_LIMIT, COORD_LIMIT);
    let back = at(-COORD_LIMIT, -COORD_LIMIT);
    assert_eq!(far.distance(back), 4 * COORD_LIMIT);
    assert_eq!(far.distance(at(0, 0)), 2 * COORD_LIMIT);
}

#[test]
fn distance_is_a_metric_on_samples() {
    let samples = [at(0, 0), at(1, -1), at(-3, 2), at(4, 4), at(-5, -1), at(2, -7)];
    for a in samples {
        for b in samples {
            assert_eq!(a.distance(b), b.distance(a));
            assert_eq!(a.distance(b) == 0, a == b);
            for c in samples {
                assert!(a.distance(c) <= a.distance(b) + b.distance(c));
            }
        }
    }
}

#[test]
fn neighbors_in_fixed_order() {
    let around = at(0, 0).neighbors();
    assert_eq!(around, [at(0, 1), at(1, 0), at(1, -1), at(0, -1), at(-1, 0), at(-1, 1)]);
    let around = at(4, -2).neighbors();
    assert_eq!(around, [at(4, -1), at(5, -2), at(5, -3), at(4, -3), at(3, -2), at(3, -1)]);
}

#[test]
fn neighbors_are_six_distinct_cells_at_distance_one() {
    for c in [at(0, 0), at(7, -3), at(-2, -2), at(COORD_LIMIT, -COORD_LIMIT)] {
        let around = c.neighbors();
        assert_eq!(around.len(), 6);
        for j in 0..6 {
            assert_eq!(c.distance(around[j]), 1);
            for k in 0..6 {
                assert_eq!(around[j] == around[k], j == k);
            }
        }
    }
}

#[test]
fn adjacency_is_symmetric() {
    for a in [at(0, 0), at(3, 1), at(-4, 2)] {
        for b in a.neighbors() {
            assert!(b.neighbors().contains(&a));
        }
    }
    assert!(!at(0, 0).neighbors().contains(&at(1, 1)));
    assert!(!at(1, 1).neighbors().contains(&at(0, 0)));
}

#[test]
fn ring_of_radius_zero_is_the_centre() {
    assert_eq!(at(2, -5).ring(0), vec![at(2, -5)]);
}

#[test]
fn ring_of_radius_one_in_order() {
    assert_eq!(
        at(0, 0).ring(1),
        vec![at(-1, 1), at(0, 1), at(1, 0), at(1, -1), at(0, -1), at(-1, 0)]
    );
}

#[test]
fn ring_of_radius_two_in_order() {
    assert_eq!(
        at(0, 0).ring(2),
        vec![
            at(-2, 2),
            at(-1, 2),
            at(0, 2),
            at(1, 1),
            at(2, 0),
            at(2, -1),
            at(2, -2),
            at(1, -2),
            at(0, -2),
            at(-1, -1),
            at(-2, 0),
            at(-2, 1),
        ]
    );
}

#[test]
fn ring_around_another_centre() {
    assert_eq!(
        at(5, -1).ring(1),
        vec![at(4, 0), at(5, 0), at(6, -1), at(6, -2), at(5, -2), at(4, -1)]
    );
}

#[test]
fn ring_is_the_circle_of_its_radius() {
    let centre = at(3, -2);
    for n in 1..6 {
        let ring = centre.ring(n);
        assert_eq!(ring.len(), 6 * n as usize);
        for (i, c) in ring.iter().enumerate() {
            assert_eq!(centre.distance(*c), n);
            assert!(!ring[..i].contains(c));
        }
        for x in -8..9 {
            for y in -8..9 {
                let c = at(centre.x + x, centre.y + y);
                assert_eq!(ring.contains(&c), centre.distance(c) == n);
            }
        }
    }
}

#[test]
fn consecutive_ring_cells_are_adjacent() {
    let ring = at(0, 0).ring(4);
    for i in 0..ring.len() {
        let next = ring[(i + 1) % ring.len()];
        assert_eq!(ring[i].distance(next), 1);
    }
}
