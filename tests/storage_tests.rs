use eth_indexer::blocks::{Block, Transaction};
use eth_indexer::config::Config;
use eth_indexer::storage::StorageManager;

fn config(blocks_in_memory: usize) -> Config {
    Config {
        rpc_endpoint: "http://localhost:8545".to_string(),
        blocks_in_memory,
        metrics_port: 9090,
        data_dir: "/tmp/blocks".to_string(),
        rotation_blocks: 10000,
        start_block: None,
    }
}

fn block(number: u64) -> Block {
    Block {
        number,
        hash: format!("0x{:02x}", number),
        transactions: vec![Transaction {
            hash: format!("0xt{}", number),
            from: "0xfrom".to_string(),
            to: None,
            value: "1".to_string(),
        }],
        timestamp: 100 + number,
    }
}

fn is_stamped_path(p: &str) -> bool {
    let name = p.strip_prefix("/tmp/blocks/blocks_").unwrap_or("");
    name.len() >= "YYYYmmdd_HHMMSS.parquet".len()
        && name.ends_with(".parquet")
        && name.as_bytes()[8] == b'_'
        && name[..8].bytes().all(|c| c.is_ascii_digit())
        && name[9..15].bytes().all(|c| c.is_ascii_digit())
}

#[test]
fn zero_threshold_writes_every_block_on_its_own() {
    let mut s = StorageManager::new(&config(0)).unwrap();
    assert!(s.has_room());
    let req = s.store_block(block(4)).unwrap().expect("due at once");
    assert_eq!(req.batch.number, vec![4]);
    assert!(!s.has_room());
    s.batch_written(req.open_file);
    let req = s.store_block(block(5)).unwrap().expect("due at once");
    assert_eq!(req.batch.number, vec![5]);
    assert!(req.open_file.is_none());
}

#[test]
fn below_threshold_writes_nothing_then_one_full_batch() {
    let mut s = StorageManager::new(&config(3)).unwrap();
    assert!(s.store_block(block(10)).unwrap().is_none());
    assert!(s.store_block(block(11)).unwrap().is_none());
    assert!(s.has_room());
    let req = s.store_block(block(12)).unwrap().expect("threshold reached");
    assert!(!s.has_room());
    assert_eq!(req.batch.number, vec![10, 11, 12]);
    let path = req.open_file.clone().expect("no file open yet");
    assert!(is_stamped_path(&path));
    assert_eq!(s.pending().len(), 3);
    s.batch_written(req.open_file);
    assert_eq!(s.pending().len(), 0);
    assert!(s.has_open_file());
    assert_eq!(s.open_file().as_deref(), Some(path.as_str()));
    assert_eq!(s.batches_in_file(), 1);
}

#[test]
fn second_batch_goes_to_the_open_file() {
    let mut s = StorageManager::new(&config(1)).unwrap();
    let first = s.store_block(block(1)).unwrap().unwrap();
    assert!(first.open_file.is_some());
    s.batch_written(first.open_file);
    let second = s.store_block(block(2)).unwrap().unwrap();
    assert!(second.open_file.is_none());
    assert_eq!(second.batch.number, vec![2]);
    s.batch_written(second.open_file);
    assert_eq!(s.batches_in_file(), 2);
}

#[test]
fn flush_of_empty_batch_is_a_no_op() {
    let mut s = StorageManager::new(&config(4)).unwrap();
    assert!(s.flush_batch().unwrap().is_none());
}

#[test]
fn rotation_flushes_pending_blocks_first() {
    let mut s = StorageManager::new(&config(5)).unwrap();
    for n in 20..22 {
        assert!(s.store_block(block(n)).unwrap().is_none());
    }
    let rot = s.rotate_file().unwrap();
    let flush = rot.flush.expect("two blocks pending");
    assert_eq!(flush.batch.number, vec![20, 21]);
    assert_eq!(flush.batch.tx_offsets, vec![0, 1, 2]);
    let flushed_to = flush.open_file.expect("no file was open");
    assert!(is_stamped_path(&rot.next_file));
    assert_ne!(rot.next_file, flushed_to);
    s.rotated(rot.next_file.clone());
    assert_eq!(s.pending().len(), 0);
    assert_eq!(s.open_file().as_deref(), Some(rot.next_file.as_str()));
    assert_eq!(s.batches_in_file(), 0);
}

#[test]
fn rotation_with_nothing_pending_flushes_nothing() {
    let mut s = StorageManager::new(&config(5)).unwrap();
    let rot = s.rotate_file().unwrap();
    assert!(rot.flush.is_none());
    assert!(is_stamped_path(&rot.next_file));
}

#[test]
fn quick_rotations_never_reuse_a_file_name() {
    let mut s = StorageManager::new(&config(5)).unwrap();
    let mut seen: Vec<String> = Vec::new();
    for _ in 0..5 {
        let rot = s.rotate_file().unwrap();
        assert!(!seen.contains(&rot.next_file));
        seen.push(rot.next_file.clone());
        s.rotated(rot.next_file);
    }
}
