use raytracer::nearest_hit;

#[test]
fn no_figures_means_no_hit() {
    assert_eq!(nearest_hit(&vec![]), None);
}

#[test]
fn all_missed_means_no_hit() {
    assert_eq!(nearest_hit(&vec![None, None, None]), None);
}

#[test]
fn single_hit_is_chosen() {
    assert_eq!(nearest_hit(&vec![None, Some(42), None]), Some(1));
}

#[test]
fn smallest_distance_wins() {
    assert_eq!(nearest_hit(&vec![Some(9), None, Some(3), Some(5)]), Some(2));
    assert_eq!(nearest_hit(&vec![Some(1), Some(3), Some(5)]), Some(0));
    assert_eq!(nearest_hit(&vec![Some(u64::MAX), Some(u64::MAX - 1)]), Some(1));
}

#[test]
fn equal_distances_keep_the_first() {
    assert_eq!(nearest_hit(&vec![None, Some(5), Some(3), Some(3)]), Some(2));
    assert_eq!(nearest_hit(&vec![Some(7), Some(7)]), Some(0));
}

#[test]
fn float_distance_keys_order_like_distances() {
    let d = [12.5f64, 0.75, 3.0, 1e-5];
    let keys: Vec<Option<u64>> = d.iter().map(|x| Some(x.to_bits())).collect();
    assert_eq!(nearest_hit(&keys), Some(3));
}
