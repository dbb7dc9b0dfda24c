use slimes::batch::BatchRunData;

fn key(x: f64) -> u64 {
    let b = x.to_bits();
    if b & (1u64 << 63) != 0 {
        !b
    } else {
        b | (1u64 << 63)
    }
}

#[test]
fn folding_three_samples() {
    let mut stats = BatchRunData::new();
    stats.add_result(key(3.0));
    stats.add_result(key(1.0));
    stats.add_result(key(5.0));
    assert_eq!(stats.min_result, key(1.0));
    assert_eq!(stats.max_result, key(5.0));
    assert_eq!(stats.run_count, 3);
}

#[test]
fn merging_with_a_singleton() {
    let mut stats = BatchRunData::new();
    stats.add_result(key(3.0));
    stats.add_result(key(1.0));
    stats.add_result(key(5.0));
    let mut single = BatchRunData::new();
    single.add_result(key(7.0));
    stats.merge(single);
    assert_eq!(stats.min_result, key(1.0));
    assert_eq!(stats.max_result, key(7.0));
    assert_eq!(stats.run_count, 4);
}

#[test]
fn merge_is_commutative_on_samples() {
    let mut a = BatchRunData::new();
    a.add_result(key(2.0));
    a.add_result(key(9.5));
    let mut b = BatchRunData::new();
    b.add_result(key(-4.0));

    let mut ab = a;
    ab.merge(b);
    let mut ba = b;
    ba.merge(a);
    assert_eq!(ab, ba);
}

#[test]
fn merge_is_associative_on_any_grouping() {
    let samples = [3.0, 1.0, 5.0, 7.0, -2.5, 5.0];
    for split_one in 0..samples.len() {
        for split_two in split_one..samples.len() {
            let mut a = BatchRunData::new();
            for x in &samples[..split_one] {
                a.add_result(key(*x));
            }
            let mut b = BatchRunData::new();
            for x in &samples[split_one..split_two] {
                b.add_result(key(*x));
            }
            let mut c = BatchRunData::new();
            for x in &samples[split_two..] {
                c.add_result(key(*x));
            }

            let mut left = a;
            left.merge(b);
            left.merge(c);

            let mut right = b;
            right.merge(c);
            let mut outer = a;
            outer.merge(right);

            assert_eq!(left, outer);
            assert_eq!(left.run_count, samples.len());
        }
    }
}
