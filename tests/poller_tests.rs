use eth_indexer::blocks::Block;
use eth_indexer::poller::{BlockProcessor, Phase, PollAction, PollEvent};

fn block(number: u64) -> Block {
    Block { number, hash: format!("0x{:x}", number), transactions: vec![], timestamp: number }
}

fn fetch_of(a: &PollAction) -> Option<u64> {
    match a {
        PollAction::Fetch(n) => Some(*n),
        _ => None,
    }
}

fn pushed_number(a: &PollAction) -> Option<u64> {
    match a {
        PollAction::Push(b) => Some(b.number),
        _ => None,
    }
}

#[test]
fn start_override_fetches_override_first() {
    let mut p = BlockProcessor::new(Some(100));
    assert_eq!(p.get_latest_processed_block(), 99);
    let a = p.process_blocks(PollEvent::HeightOk(500));
    assert_eq!(fetch_of(&a), Some(100));
}

#[test]
fn without_override_starts_at_chain_head() {
    let mut p = BlockProcessor::new(None);
    let a = p.process_blocks(PollEvent::HeightOk(500));
    assert_eq!(fetch_of(&a), Some(500));
    assert_eq!(p.get_latest_processed_block(), 499);
}

#[test]
fn override_ahead_of_chain_waits() {
    let mut p = BlockProcessor::new(Some(600));
    assert!(matches!(p.process_blocks(PollEvent::HeightOk(500)), PollAction::Idle));
    assert_eq!(p.next_block(), 600);
    assert_eq!(p.phase(), Phase::AwaitHeight);
}

#[test]
fn height_failure_retries_without_moving() {
    let mut p = BlockProcessor::new(Some(5));
    assert!(matches!(p.process_blocks(PollEvent::HeightFailed), PollAction::RetryHeight));
    assert_eq!(p.next_block(), 5);
    assert_eq!(fetch_of(&p.process_blocks(PollEvent::HeightOk(5))), Some(5));
}

#[test]
fn retry_of_the_first_block_keeps_cursor_before_it() {
    let mut p = BlockProcessor::new(Some(50));
    assert_eq!(fetch_of(&p.process_blocks(PollEvent::HeightOk(60))), Some(50));
    assert!(matches!(p.process_blocks(PollEvent::FetchFailed), PollAction::RetryFetch(50)));
    assert!(matches!(p.process_blocks(PollEvent::FetchFailed), PollAction::RetryFetch(50)));
    assert_eq!(p.get_latest_processed_block(), 49);
    assert_eq!(pushed_number(&p.process_blocks(PollEvent::Fetched(block(50)))), Some(50));
    assert_eq!(p.get_latest_processed_block(), 49);
    p.process_blocks(PollEvent::Pushed);
    assert_eq!(p.get_latest_processed_block(), 50);
}

#[test]
fn fetch_retried_twice_then_cursor_advances() {
    let mut p = BlockProcessor::new(Some(9));
    assert_eq!(fetch_of(&p.process_blocks(PollEvent::HeightOk(20))), Some(9));
    assert_eq!(pushed_number(&p.process_blocks(PollEvent::Fetched(block(9)))), Some(9));
    assert_eq!(fetch_of(&p.process_blocks(PollEvent::Pushed)), Some(10));
    assert_eq!(p.get_latest_processed_block(), 9);
    let mut waits = 0;
    for _ in 0..2 {
        match p.process_blocks(PollEvent::FetchFailed) {
            PollAction::RetryFetch(n) => {
                assert_eq!(n, 10);
                waits += 1;
            }
            _ => panic!("expected a retry"),
        }
        assert_eq!(p.get_latest_processed_block(), 9);
    }
    assert_eq!(waits, 2);
    assert_eq!(pushed_number(&p.process_blocks(PollEvent::Fetched(block(10)))), Some(10));
    assert_eq!(p.get_latest_processed_block(), 9);
    p.process_blocks(PollEvent::Pushed);
    assert_eq!(p.get_latest_processed_block(), 10);
}

#[test]
fn blocks_are_handed_over_in_order_without_gaps() {
    let mut p = BlockProcessor::new(Some(1000));
    let mut action = p.process_blocks(PollEvent::HeightOk(1002));
    let mut handed = Vec::new();
    let mut failed_once = Vec::new();
    let mut heights = vec![1004u64, 1004, 1005].into_iter();
    for _ in 0..40 {
        action = match action {
            PollAction::Fetch(n) | PollAction::RetryFetch(n) => {
                if n % 3 == 0 && !failed_once.contains(&n) {
                    failed_once.push(n);
                    p.process_blocks(PollEvent::FetchFailed)
                } else {
                    p.process_blocks(PollEvent::Fetched(block(n)))
                }
            }
            PollAction::Push(b) => {
                handed.push(b.number);
                p.process_blocks(PollEvent::Pushed)
            }
            PollAction::Idle | PollAction::QueryHeight | PollAction::RetryHeight => match heights.next() {
                Some(h) => p.process_blocks(PollEvent::HeightOk(h)),
                None => break,
            },
            PollAction::Stop | PollAction::Fail(_) => break,
        };
    }
    assert_eq!(handed, vec![1000, 1001, 1002, 1003, 1004, 1005]);
    assert_eq!(failed_once, vec![1002, 1005]);
    assert_eq!(p.get_latest_processed_block(), 1005);
    assert_eq!(p.next_block(), 1006);
}

#[test]
fn wrong_block_number_is_refetched() {
    let mut p = BlockProcessor::new(Some(3));
    p.process_blocks(PollEvent::HeightOk(3));
    match p.process_blocks(PollEvent::Fetched(block(4))) {
        PollAction::RetryFetch(n) => assert_eq!(n, 3),
        _ => panic!("expected a retry"),
    }
}

#[test]
fn closed_queue_fails_the_poller() {
    let mut p = BlockProcessor::new(Some(3));
    p.process_blocks(PollEvent::HeightOk(3));
    p.process_blocks(PollEvent::Fetched(block(3)));
    assert!(matches!(p.process_blocks(PollEvent::QueueClosed), PollAction::Fail(3)));
    assert_eq!(p.phase(), Phase::Stopped);
    assert_eq!(p.get_latest_processed_block(), 2);
    assert!(matches!(p.process_blocks(PollEvent::HeightOk(9)), PollAction::Stop));
}

#[test]
fn unexpected_report_stops_the_poller() {
    let mut p = BlockProcessor::new(Some(3));
    assert!(matches!(p.process_blocks(PollEvent::Pushed), PollAction::Stop));
    assert_eq!(p.phase(), Phase::Stopped);
}

#[test]
fn last_block_number_ends_polling() {
    let mut p = BlockProcessor::new(Some(u64::MAX));
    assert_eq!(p.get_latest_processed_block(), u64::MAX - 1);
    assert_eq!(fetch_of(&p.process_blocks(PollEvent::HeightOk(u64::MAX))), Some(u64::MAX));
    p.process_blocks(PollEvent::Fetched(block(u64::MAX)));
    assert!(matches!(p.process_blocks(PollEvent::Pushed), PollAction::Stop));
    assert_eq!(p.get_latest_processed_block(), u64::MAX);
}
