use chiral_network::diagnostics::{network_report, PeerSummary, PoolCounts};

#[test]
fn report_of_healthy_node() {
    let peers = vec![
        PeerSummary { name: Some("Geth/v1".to_string()), remote_address: Some("1.2.3.4:30303".to_string()) },
        PeerSummary { name: None, remote_address: None },
    ];
    let report = network_report(
        &Ok(2),
        &Ok(PoolCounts { pending: Some("0x1".to_string()), queued: None }),
        &Ok(98765),
        &Ok(Some(peers)),
    );
    assert_eq!(
        report,
        "Peer count: 2\nTxPool: pending=0x1, queued=?\nChain ID: 98765\nConnected peers details (2):\n  - Geth/v1 at 1.2.3.4:30303\n  - unknown at ?\n"
    );
}

#[test]
fn report_of_isolated_node() {
    let report = network_report(
        &Ok(0),
        &Err("RPC error: down".to_string()),
        &Err("boom".to_string()),
        &Ok(None),
    );
    assert_eq!(
        report,
        "Peer count: 0\n⚠️ WARNING: No peers connected! Transactions cannot propagate.\nFailed to get txpool: RPC error: down\nFailed to get chain ID: boom\n"
    );
    let failed = network_report(
        &Err("no answer".to_string()),
        &Ok(PoolCounts { pending: None, queued: Some("0x0".to_string()) }),
        &Ok(1),
        &Err("x".to_string()),
    );
    assert_eq!(
        failed,
        "Failed to get peer count: no answer\nTxPool: pending=?, queued=0x0\nChain ID: 1\nFailed to get peer info: x\n"
    );
}
