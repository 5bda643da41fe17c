use love::order::{paint_order, total_order_key};

#[test]
fn key_orders_floats_like_total_cmp() {
    let values = [
        f64::NEG_INFINITY,
        -3.5,
        -1.0,
        -0.0,
        0.0,
        0.15,
        0.35,
        0.47,
        1.0,
        f64::INFINITY,
    ];
    for a in values {
        for b in values {
            let ka = total_order_key(a.to_bits());
            let kb = total_order_key(b.to_bits());
            assert_eq!(ka.cmp(&kb), a.total_cmp(&b), "{} vs {}", a, b);
        }
    }
}

#[test]
fn key_values_at_the_sign_boundary() {
    assert_eq!(total_order_key(0), 0);
    assert_eq!(total_order_key(1), 1);
    assert_eq!(total_order_key(0x8000_0000_0000_0000), -1);
    assert_eq!(total_order_key(0x8000_0000_0000_0001), -2);
    assert_eq!(total_order_key(u64::MAX), i64::MIN);
    assert_eq!(total_order_key(0x7fff_ffff_ffff_ffff), i64::MAX);
}

#[test]
fn paints_deepest_first() {
    let keys = vec![30, 10, 20];
    assert_eq!(paint_order(&keys), vec![1, 2, 0]);
}

#[test]
fn ties_keep_deck_order() {
    let keys = vec![5, 1, 5, 1, 5];
    assert_eq!(paint_order(&keys), vec![1, 3, 0, 2, 4]);
}

#[test]
fn paint_order_of_nothing_is_empty() {
    assert!(paint_order(&Vec::new()).is_empty());
}

#[test]
fn paint_order_matches_a_sort_by_depth_then_index() {
    let depths: Vec<f64> = (0..40)
        .map(|i| 0.35 + (i / 10) as f64 * 0.13 + ((i as f64 * 0.7).sin() + 1.0) * 0.06)
        .collect();
    let keys: Vec<i64> = depths.iter().map(|d| total_order_key(d.to_bits())).collect();
    let mut expected: Vec<usize> = (0..depths.len()).collect();
    expected.sort_by(|&a, &b| depths[a].total_cmp(&depths[b]).then_with(|| a.cmp(&b)));
    assert_eq!(paint_order(&keys), expected);
}
