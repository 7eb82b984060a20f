use chiral_network::chain::{
    block_authored_by, block_mined_by, block_time_window, history_item, loose_hex_or_exec,
    mined_block, prefixed_hex_member, receipt_status, tx_direction, tx_flow, BlockFields,
    AuthorTally, BlockWalk, MinedBlockCounter, MinedBlockSearch, TxDirection, TxFlow,
};

fn block(author: Option<&str>, miner: Option<&str>, number: &str) -> BlockFields {
    BlockFields {
        author: author.map(|s| s.to_string()),
        miner: miner.map(|s| s.to_string()),
        hash: Some("0xhash".to_string()),
        nonce: Some("0x01".to_string()),
        difficulty: Some("0x20000".to_string()),
        timestamp: Some("0x64".to_string()),
        number: Some(number.to_string()),
    }
}

#[test]
fn mined_block_matches_author_then_miner() {
    let b = block(None, Some("0xABCdef"), "0xa");
    let m = mined_block(&b, 10, "0xabcdef").unwrap();
    assert_eq!(m.hash, "0xhash");
    assert_eq!(m.nonce, Some("0x01".to_string()));
    assert_eq!(m.difficulty, Some("0x20000".to_string()));
    assert_eq!(m.timestamp, 100);
    assert_eq!(m.number, 10);
    let other = block(Some("0x111"), Some("0xabcdef"), "0xa");
    assert!(mined_block(&other, 10, "0xabcdef").is_none());
    let unreadable = block(Some("0xabcdef"), None, "zz");
    assert_eq!(mined_block(&unreadable, 7, "0xabcdef").unwrap().number, 7);
    assert!(block_authored_by(&b, "0xABCDEF"));
    assert!(!block_authored_by(&other, "0xABCDEF"));
}

#[test]
fn search_walks_down_to_the_limit() {
    let mut s = MinedBlockSearch::recent("0xAA", 5, 10, 2);
    let mut seen = Vec::new();
    while let Some(n) = s.next_block() {
        seen.push(n);
        let miner = if n % 2 == 1 { "0xaa" } else { "0xbb" };
        let b = block(Some(miner), None, &format!("0x{:x}", n));
        s.record(Some(&b));
    }
    assert_eq!(seen, vec![5, 4, 3]);
    let found = s.into_found();
    assert_eq!(found.iter().map(|b| b.number).collect::<Vec<_>>(), vec![5, 3]);

    let mut r = MinedBlockSearch::range("0xaa", 2, 4);
    let mut seen = Vec::new();
    while let Some(n) = r.next_block() {
        seen.push(n);
        r.record(None);
    }
    assert_eq!(seen, vec![4, 3, 2]);
    assert!(r.into_found().is_empty());
    let empty = MinedBlockSearch::range("0xaa", 5, 4);
    assert_eq!(empty.next_block(), None);
}

#[test]
fn transaction_flows() {
    let me = "0xaa";
    let some = |s: &str| Some(s.to_string());
    assert_eq!(tx_flow(&some("0xBB"), &some("0xAA"), &some("0x10"), me), TxFlow { received_wei: 16, sent_wei: 0 });
    assert_eq!(tx_flow(&some("0xaa"), &some("0xbb"), &some("0x0x10"), me), TxFlow { received_wei: 0, sent_wei: 16 });
    assert_eq!(tx_flow(&some("0xaa"), &some("0xaa"), &some("0x2"), me), TxFlow { received_wei: 2, sent_wei: 2 });
    assert_eq!(tx_flow(&some("0xaa"), &some("0xbb"), &some("0x0"), me), TxFlow { received_wei: 0, sent_wei: 0 });
    assert_eq!(tx_flow(&some("0xaa"), &None, &None, me), TxFlow { received_wei: 0, sent_wei: 0 });
    assert_eq!(tx_flow(&some("0xaa"), &None, &some("0xzz"), me), TxFlow { received_wei: 0, sent_wei: 0 });
}

#[test]
fn history_entries() {
    let some = |s: &str| Some(s.to_string());
    assert_eq!(tx_direction(&some("0xAA"), &some("0xbb"), "0xaa"), Some(TxDirection::Sent));
    assert_eq!(tx_direction(&some("0xbb"), &some("0xAA"), "0xaa"), Some(TxDirection::Received));
    assert_eq!(tx_direction(&some("0xbb"), &None, "0xaa"), None);
    assert_eq!(receipt_status(Some("0x1")), "success");
    assert_eq!(receipt_status(Some("0x0")), "failed");
    assert_eq!(receipt_status(None), "unknown");
    let item = history_item(
        Some("0xh"), &some("0xBB"), &some("0xAA"), None, some("0x3b9aca00"),
        TxDirection::Received, 12, 99, Some("0x1"), some("0x5208"),
    );
    assert_eq!(item.hash, "0xh");
    assert_eq!(item.from, "0xbb");
    assert_eq!(item.to, Some("0xaa".to_string()));
    assert_eq!(item.value, "0x0");
    assert_eq!(item.status, "success");
    assert_eq!(item.tx_type, "received");
    assert_eq!(item.block_number, 12);
    assert_eq!(item.timestamp, 99);
    assert_eq!(item.gas_used, Some("0x5208".to_string()));
    assert_eq!(item.gas_price, Some("0x3b9aca00".to_string()));
}

#[test]
fn block_time_window_values() {
    assert_eq!(block_time_window(0), (0, 0));
    assert_eq!(block_time_window(1), (0, 1));
    assert_eq!(block_time_window(50), (49, 1));
    assert_eq!(block_time_window(101), (100, 1));
    assert_eq!(block_time_window(500), (100, 400));
    assert_eq!(prefixed_hex_member(Some("0x5f5e100"), "bad", "fail: ", u64::MAX as u128), Ok(100_000_000));
    assert_eq!(prefixed_hex_member(None, "bad", "fail: ", 10), Err("bad".to_string()));
    assert_eq!(prefixed_hex_member(Some("0x11"), "bad", "fail: ", 10), Err("fail: number too large to fit in target type".to_string()));
    assert_eq!(loose_hex_or_exec(&Some("0x0xff".to_string()), 3), 255);
    assert_eq!(loose_hex_or_exec(&None, 3), 3);
}

#[test]
fn mined_block_counting() {
    assert!(block_mined_by(Some("0xAbC"), "0xabc"));
    assert!(!block_mined_by(None, "0xabc"));
    let mut c = MinedBlockCounter::new();
    let mut pass = c.begin_pass(100, "0xabc");
    assert_eq!(pass.next_block(), Some(99));
    assert!(c.has_room(&pass));
    assert_eq!(c.record_block(&mut pass, true), Some(1));
    assert_eq!(pass.next_block(), Some(100));
    assert_eq!(c.record_block(&mut pass, true), Some(2));
    assert_eq!(pass.next_block(), None);
    // Each found block is counted once: the pass reports 0 + 2.
    assert_eq!(pass.total(), 2);
    assert_eq!(c.count("0xabc"), 2);
    // The next pass starts after the last block already looked at.
    let mut next = c.begin_pass(103, "0xabc");
    assert_eq!(next.next_block(), Some(101));
    assert_eq!(c.record_block(&mut next, false), None);
    assert_eq!(c.record_block(&mut next, true), Some(3));
    assert_eq!(c.record_block(&mut next, false), None);
    assert_eq!(next.next_block(), None);
    assert_eq!(next.total(), 3);
    assert_eq!(c.count("0xabc"), 3);
    // Nothing new: no block to look at, the count stays.
    let same = c.begin_pass(103, "0xabc");
    assert_eq!(same.next_block(), None);
    assert_eq!(same.total(), 3);
    assert_eq!(c.count("0xother"), 0);
    c.reset();
    assert_eq!(c.count("0xabc"), 0);
    assert_eq!(c.begin_pass(0, "0xabc").next_block(), Some(0));
}

#[test]
fn block_walks() {
    let mut up = BlockWalk::upward(3, 5);
    assert_eq!((up.next_block(), up.next_block(), up.next_block(), up.next_block()), (Some(3), Some(4), Some(5), None));
    let mut down = BlockWalk::downward(3, 5);
    assert_eq!((down.next_block(), down.next_block(), down.next_block(), down.next_block()), (Some(5), Some(4), Some(3), None));
    let mut empty = BlockWalk::upward(6, 5);
    assert_eq!(empty.next_block(), None);
    let mut top = BlockWalk::upward(u64::MAX, u64::MAX);
    assert_eq!((top.next_block(), top.next_block()), (Some(u64::MAX), None));
}

#[test]
fn authored_blocks_tallied() {
    let mut t = AuthorTally::upward("0xABC", 0, 2);
    assert_eq!(t.next_block(), Some(0));
    t.record(Some(&block(Some("0xabc"), None, "0x0")));
    assert_eq!(t.next_block(), Some(1));
    t.record(None);
    assert_eq!(t.next_block(), Some(2));
    t.record(Some(&block(None, Some("0xAbc"), "0x2")));
    assert_eq!(t.next_block(), None);
    assert_eq!(t.mined_blocks(), 2);
}
