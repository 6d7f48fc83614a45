use raytracer::{checker_pick, tile_parity_of};

#[test]
fn origin_tile_takes_first_color() {
    assert_eq!(checker_pick(0, 0, "black", "white"), "black");
}

#[test]
fn next_tile_along_first_direction_takes_second_color() {
    assert_eq!(checker_pick(1, 0, "black", "white"), "white");
    assert_eq!(checker_pick(0, 1, "black", "white"), "white");
    assert_eq!(checker_pick(1, 1, "black", "white"), "black");
}

#[test]
fn negative_indices_keep_alternating() {
    assert_eq!(checker_pick(-1, 0, 'b', 'w'), 'w');
    assert_eq!(checker_pick(-1, -1, 'b', 'w'), 'b');
    assert_eq!(checker_pick(-2, 0, 'b', 'w'), 'b');
    assert_eq!(checker_pick(-3, 1, 'b', 'w'), 'b');
    assert_eq!(checker_pick(-1, 1, 'b', 'w'), 'b');
    assert_eq!(checker_pick(0, -1, 'b', 'w'), 'w');
}

#[test]
fn adjacent_tiles_alternate_over_a_range() {
    for j in -5i64..=5 {
        for i in -5i64..=5 {
            assert_ne!(checker_pick(i + 1, j, 0u8, 1u8), checker_pick(i, j, 0u8, 1u8));
            assert_ne!(checker_pick(i, j + 1, 0u8, 1u8), checker_pick(i, j, 0u8, 1u8));
            assert_eq!(checker_pick(i + 2, j, 0u8, 1u8), checker_pick(i, j, 0u8, 1u8));
        }
    }
}

#[test]
fn parity_at_the_extremes() {
    assert_eq!(tile_parity_of(i64::MAX, 0), 1);
    assert_eq!(tile_parity_of(i64::MIN, 0), 0);
    assert_eq!(tile_parity_of(i64::MIN, i64::MAX), 1);
    assert_eq!(tile_parity_of(i64::MAX, i64::MAX), 0);
}
