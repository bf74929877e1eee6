use rate::counters::{
    counter_file_path, get_net_bytes, interface_path, parse_counter, read_sysfs_as_u64,
    ByteCounters, CounterError, RX_BYTES, TX_BYTES,
};

#[test]
fn parse_counter_reads_plain_digits() {
    assert_eq!(parse_counter("12345"), Some(12345));
    assert_eq!(parse_counter("0"), Some(0));
    assert_eq!(parse_counter("+7"), Some(7));
}

#[test]
fn parse_counter_rejects_malformed_text() {
    assert_eq!(parse_counter(""), None);
    assert_eq!(parse_counter("+"), None);
    assert_eq!(parse_counter("12a"), None);
    assert_eq!(parse_counter("-1"), None);
    assert_eq!(parse_counter(" 5"), None);
    assert_eq!(parse_counter("5\n"), None);
}

#[test]
fn parse_counter_largest_value() {
    assert_eq!(parse_counter("18446744073709551615"), Some(u64::MAX));
    assert_eq!(parse_counter("18446744073709551616"), None);
    assert_eq!(parse_counter("99999999999999999999999"), None);
}

#[test]
fn read_sysfs_trims_whitespace() {
    assert_eq!(read_sysfs_as_u64("1000\n"), Some(1000));
    assert_eq!(read_sysfs_as_u64("  42 \n"), Some(42));
    assert_eq!(read_sysfs_as_u64("abc\n"), None);
    assert_eq!(read_sysfs_as_u64("\n"), None);
}

#[test]
fn missing_counters_read_as_zero() {
    assert_eq!(get_net_bytes(None, None), Ok(ByteCounters { rx: 0, tx: 0 }));
    assert_eq!(get_net_bytes(None, Some("55\n")), Ok(ByteCounters { rx: 0, tx: 0 }));
}

#[test]
fn present_counters_are_parsed() {
    assert_eq!(
        get_net_bytes(Some("1000\n"), Some("2000\n")),
        Ok(ByteCounters { rx: 1000, tx: 2000 })
    );
}

#[test]
fn counter_errors() {
    assert_eq!(get_net_bytes(Some("x\n"), Some("1\n")), Err(CounterError::RxMalformed));
    assert_eq!(get_net_bytes(Some("1\n"), None), Err(CounterError::TxMissing));
    assert_eq!(get_net_bytes(Some("1\n"), Some("y\n")), Err(CounterError::TxMalformed));
}

#[test]
fn counter_paths() {
    assert_eq!(interface_path("eth0"), "/sys/class/net/eth0");
    assert_eq!(counter_file_path("eth0", RX_BYTES), "/sys/class/net/eth0/statistics/rx_bytes");
    assert_eq!(counter_file_path("wlan0", TX_BYTES), "/sys/class/net/wlan0/statistics/tx_bytes");
}
