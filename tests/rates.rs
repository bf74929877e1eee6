use rate::counters::ByteCounters;
use rate::rates::{active_rates, get_net_speed, RateSample, INTERVAL};

fn counters(rx: u64, tx: u64) -> ByteCounters {
    ByteCounters { rx, tx }
}

#[test]
fn single_interface_happy_path() {
    let r = get_net_speed(counters(1000, 2000), counters(2000, 2500), 1000);
    assert_eq!(r, RateSample { rx: 1000, tx: 500 });
}

#[test]
fn rate_is_scaled_and_truncated() {
    let r = get_net_speed(counters(0, 0), counters(1000, 10), 3000);
    assert_eq!(r, RateSample { rx: 333, tx: 3 });
    let r = get_net_speed(counters(5, 5), counters(7, 5), 500);
    assert_eq!(r, RateSample { rx: 4, tx: 0 });
}

#[test]
fn rolled_back_counter_gives_zero() {
    let r = get_net_speed(counters(5000, 100), counters(10, 300), INTERVAL);
    assert_eq!(r, RateSample { rx: 0, tx: 200 });
}

#[test]
fn oversized_rate_saturates() {
    let r = get_net_speed(counters(0, 0), counters(u64::MAX, 1), 1);
    assert_eq!(r, RateSample { rx: u64::MAX, tx: 1000 });
}

#[test]
fn idle_interfaces_are_left_out() {
    let window = vec![
        ("eth0".to_string(), counters(100, 200), counters(150, 200)),
        ("eth1".to_string(), counters(100, 200), counters(100, 200)),
        ("wlan0".to_string(), counters(0, 0), counters(0, 7)),
    ];
    let r = active_rates(&window);
    assert_eq!(
        r,
        vec![
            ("eth0".to_string(), RateSample { rx: 50, tx: 0 }),
            ("wlan0".to_string(), RateSample { rx: 0, tx: 7 }),
        ]
    );
}

#[test]
fn active_rates_of_empty_window() {
    assert_eq!(active_rates(&Vec::new()), Vec::new());
}

#[test]
fn rolled_back_interface_counts_as_idle() {
    let window = vec![("eth0".to_string(), counters(100, 200), counters(10, 20))];
    assert_eq!(active_rates(&window), Vec::new());
}
