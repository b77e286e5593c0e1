use trc_rtt_proxy::clock::Interval;
use trc_rtt_proxy::metrics::{Metrics, MetricsReport};

fn ms(millis: u64) -> Interval {
    Interval::from_millis(millis)
}

#[test]
fn reads_are_counted() {
    let mut metrics = Metrics::new(64, ms(0));
    let update = metrics.update(10, ms(1));
    assert_eq!(update.sample, Some(10));
    assert_eq!(update.report, None);
    let update = metrics.update(0, ms(2));
    assert_eq!(update.sample, None);
    let update = metrics.update(64, ms(3));
    assert_eq!(update.sample, Some(64));
    assert_eq!(metrics.read_cnt, 3);
    assert_eq!(metrics.bytes_read, 74);
    assert_eq!(metrics.read_zero_cnt, 1);
    assert_eq!(metrics.read_max_cnt, 1);
}

#[test]
fn window_ends_after_two_seconds() {
    let mut metrics = Metrics::new(64, ms(500));
    assert_eq!(metrics.update(64, ms(600)).report, None);
    assert_eq!(metrics.update(1, ms(2_499)).report, None);
    let update = metrics.update(0, ms(2_500));
    assert_eq!(
        update.report,
        Some(MetricsReport {
            bytes_read: 65,
            elapsed_nanos: 2_000_000_000,
            read_cnt: 3,
            read_zero_cnt: 1,
            read_max_cnt: 1,
        })
    );
    assert_eq!(metrics, Metrics::new(64, ms(2_500)));
}

#[test]
fn reset_opens_a_new_window() {
    let mut metrics = Metrics::new(128, ms(0));
    metrics.update(128, ms(1));
    metrics.reset(ms(9));
    assert_eq!(metrics, Metrics::new(128, ms(9)));
}
