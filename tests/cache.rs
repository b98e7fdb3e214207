use rainmeter_remote_simple_metric_server::cache::{AppState, RateCache};
use rainmeter_remote_simple_metric_server::metrics::{Rates, Sample};
use rainmeter_remote_simple_metric_server::probe::{sum_pairs, Probe};

const SEC: u64 = 1_000_000_000;

fn counters(net_rx: u64, disk_read: u64) -> Sample {
    Sample {
        cpu_bits: 50.0f32.to_bits(),
        mem_used: 512,
        mem_total: 1024,
        swap_used: 5,
        swap_total: 10,
        net_rx,
        net_tx: 0,
        disk_read,
        disk_write: 0,
    }
}

#[test]
fn new_cache_renders_zero_rates() {
    let c = RateCache::new(1, counters(1000, 1000), 0);
    assert_eq!(
        c.text(),
        "cpu=[50.0]\nmem=[50]\nswap=[50.0]\nio_read=[0.0KB/s]\nio_write=[0.0KB/s]\nnet_rx=[0.0KB/s]\nnet_tx=[0.0KB/s]"
    );
    assert_eq!(c.interval_secs(), 1);
}

#[test]
fn calls_within_interval_return_identical_text() {
    let mut c = RateCache::new(1, counters(1000, 1000), 0);
    let first = c.text();
    for now in [0, 1, SEC / 2, SEC - 1] {
        assert!(!c.is_stale(now));
        let t = c.get_data_with(now, counters(9_000_000, 9_000_000));
        assert_eq!(t, first);
    }
}

#[test]
fn rate_from_counter_movement_over_two_seconds() {
    let mut c = RateCache::new(1, counters(1000, 1000), 0);
    let t = c.get_data_with(2 * SEC, counters(3000, 3000));
    assert!(t.contains("net_rx=[1.0KB/s]"));
    assert!(t.contains("io_read=[1.0KB/s]"));
    let r = Rates::between(&counters(1000, 1000), &counters(3000, 3000), 2 * SEC);
    assert_eq!(r.net_rx, 2000);
    assert_eq!(r.net_rx as u128 * SEC as u128 / r.elapsed_nanos as u128, 1000);
}

#[test]
fn refresh_at_exactly_the_interval() {
    let mut c = RateCache::new(1, counters(0, 0), 0);
    assert!(c.is_stale(SEC));
    let t = c.get_data_with(SEC, counters(1_000_000, 0));
    assert!(t.contains("net_rx=[1.0MB/s]"));
}

#[test]
fn one_refresh_per_stale_window() {
    let mut c = RateCache::new(1, counters(0, 0), 0);
    let first = c.get_data_with(3 * SEC, counters(3_000_000, 0));
    assert!(first.contains("net_rx=[1.0MB/s]"));
    for (k, now) in [3 * SEC, 3 * SEC + 1, 4 * SEC - 1].into_iter().enumerate() {
        let t = c.get_data_with(now, counters(100_000_000 + k as u64, 0));
        assert_eq!(t, first);
    }
    let next = c.get_data_with(4 * SEC, counters(3_500_000, 0));
    assert!(next.contains("net_rx=[500.0KB/s]"));
}

#[test]
fn counter_going_back_counts_as_no_movement() {
    let mut c = RateCache::new(1, counters(5000, 5000), 0);
    let t = c.get_data_with(SEC, counters(10, 10));
    assert!(t.contains("net_rx=[0.0KB/s]"));
    assert!(t.contains("io_read=[0.0KB/s]"));
    let r = Rates::between(&counters(5000, 5000), &counters(10, 10), SEC);
    assert_eq!((r.net_rx, r.io_read), (0, 0));
}

#[test]
fn clock_behind_last_refresh_is_not_stale() {
    let c = RateCache::new(1, counters(0, 0), 5 * SEC);
    assert!(!c.is_stale(0));
    assert!(!c.is_stale(5 * SEC));
    assert!(c.is_stale(6 * SEC));
}

#[test]
fn zero_interval_refreshes_every_call() {
    let mut c = RateCache::new(0, counters(0, 0), 0);
    assert!(c.is_stale(0));
    let t = c.get_data_with(0, counters(1000, 0));
    assert!(t.contains("net_rx=[0.0KB/s]"));
    let t = c.get_data_with(SEC, counters(2000, 0));
    assert!(t.contains("net_rx=[1.0KB/s]"));
}

#[test]
fn huge_interval_does_not_overflow() {
    let c = RateCache::new(u64::MAX, counters(0, 0), 0);
    assert!(!c.is_stale(u64::MAX));
}

#[test]
fn sums_saturate() {
    assert_eq!(sum_pairs(&vec![]), (0, 0));
    assert_eq!(sum_pairs(&vec![(1, 2), (3, 4), (5, 6)]), (9, 12));
    assert_eq!(sum_pairs(&vec![(u64::MAX, 1), (1, 1)]), (u64::MAX, 2));
}

#[test]
fn host_reads_within_interval_are_served_from_cache() {
    let probe = Probe::new();
    let mut state = AppState::new(3600, probe, 0);
    let a = state.get_data(1);
    let b = state.get_data(SEC);
    assert_eq!(a, b);
    assert_eq!(a.lines().count(), 7);
    let p = Probe::new();
    let _ = (p.get_net_total(), p.get_disk_total());
}
