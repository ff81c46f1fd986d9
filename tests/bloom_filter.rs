use tabledb::bloom_filter::{probe_positions, BloomFilter};
use tabledb::murmur3_32::murmur_hash3_32;

/// A filter sized for `n` items at false-positive rate `p`:
/// m = ceil(-n ln p / (ln 2)^2) bits and k = round(m / n * ln 2) probes.
fn filter_for(n: f32, p: f32) -> BloomFilter {
    let ln2 = 2.0_f32.ln();
    let m = (-(n * p.ln()) / ln2.powi(2)).ceil();
    let k = ((m / n) * ln2).round();
    BloomFilter::new(m as usize, k as usize)
}

fn create_item(id: u32, value: &str) -> Vec<u8> {
    bincode::serialize(&(id, value.to_string())).unwrap()
}

#[test]
fn bloom_filter_initialization() {
    let n = 100_f32;
    let error_percent = 0.01_f32;
    let expected_size = (-(n * error_percent.ln()) / (2.0_f32.ln().powi(2))) as usize;
    let expected_num_of_functions = ((expected_size as f32 / n) * 2.0_f32.ln()) as usize;
    let filter = BloomFilter::new(expected_size, expected_num_of_functions);

    assert_eq!(filter.size(), expected_size);
    assert_eq!(filter.num_of_functions(), expected_num_of_functions);
    assert_eq!(filter.bit_vector().len(), expected_size);
}

#[test]
fn add_and_check_element() {
    let mut filter = filter_for(100_f32, 0.01_f32);
    let item = create_item(1, "test");

    filter.add(&item);

    assert!(filter.check(&item));
}

#[test]
fn check_nonexistent_element() {
    let filter = filter_for(100_f32, 0.01_f32);
    let _item = create_item(1, "test");
    let non_existent_item = create_item(2, "nonexistent");

    assert!(!filter.check(&non_existent_item));
}

#[test]
fn false_positive_rate() {
    let mut filter = filter_for(1000_f32, 0.01_f32);
    let mut false_positives = 0;
    let trials = 10000;

    for id in 0..500 {
        let item = create_item(id, &format!("item{}", id));
        filter.add(&item);
    }

    for id in 500..(500 + trials) {
        let non_existent_item = create_item(id, &format!("item{}", id));
        if filter.check(&non_existent_item) {
            false_positives += 1;
        }
    }

    let false_positive_rate = false_positives as f32 / trials as f32;
    println!("False positive rate: {}", false_positive_rate);

    assert!(false_positive_rate <= 0.01 + 0.005);
}

#[test]
fn sized_filter_dimensions() {
    let filter = filter_for(1000_f32, 0.01_f32);
    assert_eq!(filter.size(), 9586);
    assert_eq!(filter.num_of_functions(), 7);
    assert!(filter.bit_vector().iter().all(|b| !*b));
}

#[test]
fn added_items_stay_present() {
    let mut filter = filter_for(50_f32, 0.05_f32);
    let first = create_item(7, "first");
    filter.add(&first);
    assert!(filter.check(&first));
    for id in 0..200 {
        filter.add(&create_item(id, "later"));
        assert!(filter.check(&first));
    }
    for id in 0..200 {
        assert!(filter.check(&create_item(id, "later")));
    }
}

#[test]
fn add_sets_exactly_the_probe_positions() {
    let mut filter = BloomFilter::new(64, 3);
    let item = create_item(3, "x");
    let positions = filter.hash(&item);
    filter.add(&item);
    let set: Vec<usize> = (0..64).filter(|&j| filter.bit_vector()[j]).collect();
    for j in 0..64 {
        assert_eq!(filter.bit_vector()[j], positions.contains(&j));
    }
    assert!(!set.is_empty());
}

#[test]
fn probe_positions_follow_double_hashing() {
    let filter = BloomFilter::new(1000, 5);
    let item = b"hello world".to_vec();
    let h1 = murmur_hash3_32(&item, 0) as u64;
    let h2 = BloomFilter::fnv1a_32(&item) as u64;
    assert_eq!(h1, 0x5e928f0f);
    let expected: Vec<usize> = (0..5u64).map(|i| ((h1 + i * h2) % 1000) as usize).collect();
    assert_eq!(filter.hash(&item), expected);
}

#[test]
fn fnv1a_known_values() {
    assert_eq!(BloomFilter::fnv1a_32(b""), 0x811c9dc5);
    assert_eq!(BloomFilter::fnv1a_32(b"a"), 0xe40c292c);
    assert_eq!(BloomFilter::fnv1a_32(b"foobar"), 0xbf9cf968);
}

#[test]
fn zero_probes_report_everything() {
    let filter = BloomFilter::new(8, 0);
    assert!(filter.hash(b"anything").is_empty());
    assert!(filter.check(b"anything"));
}

#[test]
fn probe_positions_exact_values() {
    assert_eq!(probe_positions(10, 3, 4, 7), vec![3, 6, 2, 5]);
    assert_eq!(probe_positions(u32::MAX, u32::MAX, 3, 1000), vec![295, 590, 885]);
    assert!(probe_positions(1, 2, 0, 5).is_empty());
}
