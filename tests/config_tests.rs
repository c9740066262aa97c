use eth_indexer::config::{parse_decimal, Config, Settings};

fn unset() -> Settings {
    Settings {
        rpc_endpoint: None,
        blocks_in_memory: None,
        metrics_port: None,
        data_dir: None,
        rotation_blocks: None,
        start_block: None,
        start_block_truncated: None,
    }
}

#[test]
fn defaults_when_nothing_is_set() {
    let c = Config::load(&unset()).unwrap();
    assert_eq!(c.rpc_endpoint, "https://rpc.sepolia.org");
    assert_eq!(c.blocks_in_memory, 1000);
    assert_eq!(c.metrics_port, 9090);
    assert_eq!(c.data_dir, "/data/eth-indexer");
    assert_eq!(c.rotation_blocks, 10000);
    assert_eq!(c.start_block, None);
}

#[test]
fn values_are_read_and_unreadable_numbers_fall_back() {
    let mut s = unset();
    s.rpc_endpoint = Some("http://node:8545".to_string());
    s.blocks_in_memory = Some("250".to_string());
    s.metrics_port = Some("70000".to_string());
    s.data_dir = Some("/var/blocks".to_string());
    s.rotation_blocks = Some("abc".to_string());
    s.start_block = Some("+123".to_string());
    let c = Config::load(&s).unwrap();
    assert_eq!(c.rpc_endpoint, "http://node:8545");
    assert_eq!(c.blocks_in_memory, 250);
    assert_eq!(c.metrics_port, 9090);
    assert_eq!(c.data_dir, "/var/blocks");
    assert_eq!(c.rotation_blocks, 10000);
    assert_eq!(c.start_block, Some(123));
}

#[test]
fn start_block_falls_back_to_truncated_reading() {
    let mut s = unset();
    s.start_block = Some("4200000.7".to_string());
    s.start_block_truncated = Some(4200000);
    assert_eq!(Config::load(&s).unwrap().start_block, Some(4200000));
    s.start_block = Some("junk".to_string());
    s.start_block_truncated = None;
    assert_eq!(Config::load(&s).unwrap().start_block, None);
}

#[test]
fn zero_block_count_is_accepted() {
    let mut s = unset();
    s.blocks_in_memory = Some("0".to_string());
    assert_eq!(Config::load(&s).unwrap().blocks_in_memory, 0);
}

#[test]
fn decimal_parsing_edges() {
    assert_eq!(parse_decimal("0", u64::MAX), Some(0));
    assert_eq!(parse_decimal("18446744073709551615", u64::MAX), Some(u64::MAX));
    assert_eq!(parse_decimal("18446744073709551616", u64::MAX), None);
    assert_eq!(parse_decimal("65535", 65535), Some(65535));
    assert_eq!(parse_decimal("65536", 65535), None);
    assert_eq!(parse_decimal("", u64::MAX), None);
    assert_eq!(parse_decimal("+", u64::MAX), None);
    assert_eq!(parse_decimal("-1", u64::MAX), None);
    assert_eq!(parse_decimal("12a", u64::MAX), None);
    assert_eq!(parse_decimal(" 12", u64::MAX), None);
    assert_eq!(parse_decimal("007", u64::MAX), Some(7));
}
