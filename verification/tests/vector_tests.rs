use slimes::vector::VectorN;

/// Order key of a finite float: an unsigned integer whose `<` order agrees
/// with the numeric order.
fn key(x: f64) -> u64 {
    let b = x.to_bits();
    if b & (1u64 << 63) != 0 {
        !b
    } else {
        b | (1u64 << 63)
    }
}

fn unkey(k: u64) -> f64 {
    let b = if k & (1u64 << 63) != 0 {
        k & !(1u64 << 63)
    } else {
        !k
    };
    f64::from_bits(b)
}

fn keys(xs: &[f64]) -> Vec<u64> {
    xs.iter().map(|x| key(*x)).collect()
}

fn unkeys(v: &VectorN) -> Vec<f64> {
    v.coordinates.iter().map(|k| unkey(*k)).collect()
}

#[test]
fn clamp_test() {
    let mut a = VectorN::new(keys(&[1.0, 2.0, 3.0]));
    a.clamp((key(1.5), key(2.5)));

    assert_eq!(unkeys(&a), vec![1.5, 2.0, 2.5]);
}

#[test]
fn clamp_is_idempotent() {
    let bounds = (key(-2.5), key(7.25));
    let mut a = VectorN::new(keys(&[-100.0, -2.5, 0.0, 7.25, 3.5, 1e300]));
    a.clamp(bounds);
    let once = unkeys(&a);
    a.clamp(bounds);
    let twice = unkeys(&a);
    assert_eq!(once, twice);
}

#[test]
fn clamp_stays_in_bounds() {
    let bounds = (key(-1.0), key(4.0));
    let mut a = VectorN::new(keys(&[-7.0, -1.0, 0.5, 4.0, 900.25]));
    a.clamp(bounds);
    for c in unkeys(&a) {
        assert!(-1.0 <= c && c <= 4.0);
    }
    assert_eq!(unkeys(&a), vec![-1.0, -1.0, 0.5, 4.0, 4.0]);
}

#[test]
fn key_order_matches_float_order() {
    let xs = [-1e308, -3.5, -0.0, 0.0, 1e-9, 2.0, 6.02e23];
    for i in 0..xs.len() {
        for j in 0..xs.len() {
            if xs[i] < xs[j] {
                assert!(key(xs[i]) < key(xs[j]));
            }
            assert_eq!(unkey(key(xs[i])), xs[i]);
        }
    }
}
