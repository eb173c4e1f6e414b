use dmt_staking::power::{classify, voting_weight};

#[test]
fn classify_boundaries() {
    assert_eq!(classify(1000), 1);
    assert_eq!(classify(1001), 5);
    assert_eq!(classify(100000), 20);
    assert_eq!(classify(100001), 30);
}

#[test]
fn classify_all_tiers() {
    assert_eq!(classify(0), 1);
    assert_eq!(classify(500), 1);
    assert_eq!(classify(5000), 5);
    assert_eq!(classify(5001), 10);
    assert_eq!(classify(10000), 10);
    assert_eq!(classify(10001), 15);
    assert_eq!(classify(50000), 15);
    assert_eq!(classify(50001), 20);
    assert_eq!(classify(u64::MAX), 30);
}

#[test]
fn classify_monotone_on_samples() {
    let samples: [u64; 14] = [
        0,
        1,
        999,
        1000,
        1001,
        4999,
        5001,
        10000,
        10001,
        50000,
        50001,
        100000,
        100001,
        u64::MAX,
    ];
    let mut prev: u8 = 0;
    for amount in samples {
        let level = classify(amount);
        assert!(level >= prev);
        assert!(matches!(level, 1 | 5 | 10 | 15 | 20 | 30));
        prev = level;
    }
}

#[test]
fn voting_weight_exact_products() {
    assert_eq!(voting_weight(500, 1), 500);
    assert_eq!(voting_weight(5100, 10), 51000);
    assert_eq!(voting_weight(0, 30), 0);
    assert_eq!(voting_weight(200000, 30), 6000000);
}

#[test]
fn voting_weight_saturates() {
    assert_eq!(voting_weight(u64::MAX, 30), u64::MAX);
    assert_eq!(voting_weight(u64::MAX / 2 + 1, 2), u64::MAX);
    // The largest product that still fits is exact, not clipped.
    assert_eq!(voting_weight(u64::MAX, 1), u64::MAX);
    assert_eq!(voting_weight(u64::MAX / 2, 2), u64::MAX - 1);
}
