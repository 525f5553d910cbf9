use termlink_core::netrate::{NetworkSampleCache, Rates, Sample, MIN_ELAPSED_MICROS};

const ZERO: Rates = Rates { rx: 0, tx: 0 };

#[test]
fn threshold_is_half_a_second() {
    assert_eq!(MIN_ELAPSED_MICROS, 500_000);
}

#[test]
fn first_sample_of_an_interface_reports_zero_rates() {
    let mut cache = NetworkSampleCache::new();
    assert_eq!(cache.last("eth0"), None);
    let first = Sample { rx_bytes: 1000, tx_bytes: 2000, at: 10_000_000 };
    assert_eq!(cache.sample("eth0", first), ZERO);
    assert_eq!(cache.last("eth0"), Some(first));
}

#[test]
fn fast_repeat_reports_zero_but_refreshes_the_cache_and_the_third_sample_gives_the_rate() {
    let mut cache = NetworkSampleCache::new();
    let first = Sample { rx_bytes: 1_000, tx_bytes: 2_000, at: 1_000_000 };
    let second = Sample { rx_bytes: 5_000, tx_bytes: 2_500, at: 1_200_000 };
    let third = Sample { rx_bytes: 9_000, tx_bytes: 4_500, at: 3_200_000 };
    assert_eq!(cache.sample("eth0", first), ZERO);
    assert_eq!(cache.sample("eth0", second), ZERO);
    assert_eq!(cache.last("eth0"), Some(second));
    // 4000 and 2000 bytes in two seconds, counted from the second sample.
    assert_eq!(cache.sample("eth0", third), Rates { rx: 2_000, tx: 1_000 });
    assert_eq!(cache.last("eth0"), Some(third));
}

#[test]
fn rate_is_the_advance_divided_by_the_seconds_passed() {
    let mut cache = NetworkSampleCache::new();
    cache.sample("wlan0", Sample { rx_bytes: 0, tx_bytes: 100, at: 0 });
    let rates = cache.sample("wlan0", Sample { rx_bytes: 1_500, tx_bytes: 101, at: 750_000 });
    assert_eq!(rates, Rates { rx: 2_000, tx: 1 });
}

#[test]
fn exactly_half_a_second_is_enough() {
    let mut cache = NetworkSampleCache::new();
    cache.sample("eth0", Sample { rx_bytes: 0, tx_bytes: 0, at: 7 });
    let rates = cache.sample("eth0", Sample { rx_bytes: 500, tx_bytes: 250, at: 500_007 });
    assert_eq!(rates, Rates { rx: 1_000, tx: 500 });
}

#[test]
fn just_under_half_a_second_is_not_enough() {
    let mut cache = NetworkSampleCache::new();
    cache.sample("eth0", Sample { rx_bytes: 0, tx_bytes: 0, at: 7 });
    let rates = cache.sample("eth0", Sample { rx_bytes: 500, tx_bytes: 250, at: 500_006 });
    assert_eq!(rates, ZERO);
}

#[test]
fn counter_that_went_back_counts_as_not_advanced() {
    let mut cache = NetworkSampleCache::new();
    cache.sample("eth0", Sample { rx_bytes: 9_000, tx_bytes: 100, at: 0 });
    let rates = cache.sample("eth0", Sample { rx_bytes: 10, tx_bytes: 1_100, at: 1_000_000 });
    assert_eq!(rates, Rates { rx: 0, tx: 1_000 });
}

#[test]
fn clock_that_went_back_gives_no_rate() {
    let mut cache = NetworkSampleCache::new();
    cache.sample("eth0", Sample { rx_bytes: 0, tx_bytes: 0, at: 5_000_000 });
    let rates = cache.sample("eth0", Sample { rx_bytes: 10, tx_bytes: 10, at: 1_000_000 });
    assert_eq!(rates, ZERO);
    assert_eq!(cache.last("eth0").map(|s| s.at), Some(1_000_000));
}

#[test]
fn interfaces_are_kept_apart() {
    let mut cache = NetworkSampleCache::new();
    cache.sample("eth0", Sample { rx_bytes: 0, tx_bytes: 0, at: 0 });
    cache.sample("eth1", Sample { rx_bytes: 1_000_000, tx_bytes: 0, at: 0 });
    let rates = cache.sample("eth0", Sample { rx_bytes: 3_000, tx_bytes: 0, at: 1_000_000 });
    assert_eq!(rates, Rates { rx: 3_000, tx: 0 });
    assert_eq!(cache.last("eth1"), Some(Sample { rx_bytes: 1_000_000, tx_bytes: 0, at: 0 }));
}

#[test]
fn rate_is_held_at_the_largest_number() {
    let mut cache = NetworkSampleCache::new();
    cache.sample("eth0", Sample { rx_bytes: 0, tx_bytes: 0, at: 0 });
    let rates =
        cache.sample("eth0", Sample { rx_bytes: u64::MAX, tx_bytes: u64::MAX / 2, at: 500_000 });
    assert_eq!(rates, Rates { rx: u64::MAX, tx: u64::MAX - 1 });
}
