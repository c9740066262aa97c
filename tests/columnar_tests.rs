use eth_indexer::blocks::{Block, Transaction};
use eth_indexer::columnar::encode;

fn tx(hash: &str, from: &str, to: Option<&str>, value: &str) -> Transaction {
    Transaction {
        hash: hash.to_string(),
        from: from.to_string(),
        to: to.map(|s| s.to_string()),
        value: value.to_string(),
    }
}

fn block(number: u64, txs: Vec<Transaction>) -> Block {
    Block {
        number,
        hash: format!("0x{:064x}", number),
        transactions: txs,
        timestamp: 1_700_000_000 + number * 12,
    }
}

fn same_tx(a: &Transaction, b: &Transaction) -> bool {
    a.hash == b.hash && a.from == b.from && a.to == b.to && a.value == b.value
}

fn same_block(a: &Block, b: &Block) -> bool {
    a.number == b.number
        && a.hash == b.hash
        && a.timestamp == b.timestamp
        && a.transactions.len() == b.transactions.len()
        && a.transactions.iter().zip(b.transactions.iter()).all(|(x, y)| same_tx(x, y))
}

#[test]
fn round_trip_keeps_every_field() {
    let blocks = vec![
        block(7, vec![
            tx("0xaa", "0x01", Some("0x02"), "1000000000000000000000000"),
            tx("0xbb", "0x03", None, "0"),
        ]),
        block(8, vec![]),
        block(9, vec![tx("0xcc", "0x04", Some("0x05"), "42")]),
    ];
    let batch = encode(&blocks);
    let back = batch.decode().expect("well-formed batch");
    assert_eq!(back.len(), 3);
    for (a, b) in blocks.iter().zip(back.iter()) {
        assert!(same_block(a, b));
    }
    assert_eq!(back[0].transactions[1].to, None);
}

#[test]
fn columns_are_laid_out_per_field() {
    let blocks = vec![
        block(1, vec![tx("0xa", "0xf", None, "5"), tx("0xb", "0xf", Some("0xt"), "6")]),
        block(2, vec![]),
        block(3, vec![tx("0xc", "0xg", Some("0xu"), "7")]),
    ];
    let batch = encode(&blocks);
    assert_eq!(batch.number, vec![1, 2, 3]);
    assert_eq!(batch.timestamp, vec![1_700_000_012, 1_700_000_024, 1_700_000_036]);
    assert_eq!(batch.tx_offsets, vec![0, 2, 2, 3]);
    assert_eq!(batch.tx_hash, vec!["0xa".to_string(), "0xb".to_string(), "0xc".to_string()]);
    assert_eq!(batch.tx_to, vec![None, Some("0xt".to_string()), Some("0xu".to_string())]);
    assert_eq!(batch.tx_value, vec!["5".to_string(), "6".to_string(), "7".to_string()]);
}

#[test]
fn empty_batch_encodes_to_empty_columns() {
    let batch = encode(&Vec::new());
    assert!(batch.number.is_empty());
    assert_eq!(batch.tx_offsets, vec![0]);
    assert!(batch.is_well_formed());
    assert_eq!(batch.decode().map(|b| b.len()), Some(0));
}

#[test]
fn malformed_offsets_do_not_decode() {
    let blocks = vec![block(1, vec![tx("0xa", "0xf", None, "5")]), block(2, vec![])];
    let mut batch = encode(&blocks);
    batch.tx_offsets = vec![0, 2, 1];
    assert!(!batch.is_well_formed());
    assert!(batch.decode().is_none());
}
