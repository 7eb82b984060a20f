use chiral_network::wide::Wide256;
use chiral_network::geth::{
    bootstrap_peers, check_balance, check_sender, count_enodes, count_mined_block_lines,
    geth_args, init_plan, log_shows_corruption, looks_like_rpc_response, mining_log_line,
    peers_suffice, readiness_step, reconnect_plan, sealed_block_difficulty, tail_lines, validate_chain_id,
    WaitStep,
};

#[test]
fn chain_id_marker() {
    assert_eq!(validate_chain_id(Some("98765\n"), 98765), Ok(()));
    assert_eq!(
        validate_chain_id(Some("1"), 98765),
        Err("Existing blockchain data is for chain ID 1, but expected 98765. Will reinitialize.".to_string())
    );
    let unsure = Err("Could not verify chain ID of existing blockchain data. Will reinitialize to ensure correctness.".to_string());
    assert_eq!(validate_chain_id(None, 98765), unsure);
    assert_eq!(validate_chain_id(Some("chain"), 98765), unsure);
}

fn lines(v: &[&str]) -> Vec<String> {
    v.iter().map(|s| s.to_string()).collect()
}

#[test]
fn corruption_only_in_the_last_fifty_lines() {
    assert!(log_shows_corruption(&lines(&["ok", "database corruption detected"])));
    assert!(log_shows_corruption(&lines(&["FATAL: bad chaindata"])));
    assert!(log_shows_corruption(&lines(&["corrupted database"])));
    assert!(!log_shows_corruption(&lines(&["FATAL: other", "corrupted file"])));
    let mut old = vec!["database corruption".to_string()];
    old.extend((0..50).map(|i| format!("line {}", i)));
    assert!(!log_shows_corruption(&old));
}

#[test]
fn mined_block_lines_counted() {
    let l = lines(&[
        "Successfully sealed new block number=5",
        "\u{1f528} mined potential block number=5",
        "Block mined",
        "a mined block",
        "nothing here",
        "mined something",
    ]);
    assert_eq!(count_mined_block_lines(&l), 4);
    let many: Vec<String> = (0..2500).map(|_| "Block mined".to_string()).collect();
    assert_eq!(count_mined_block_lines(&many), 2000);
}

#[test]
fn difficulty_of_sealing_line() {
    assert_eq!(sealed_block_difficulty("Successfully sealed new block diff=131072 elapsed=1s", 7), 131072);
    assert_eq!(sealed_block_difficulty("diff=131072", 7), 7);
    assert_eq!(sealed_block_difficulty("diff=abc more", 7), 7);
    assert_eq!(sealed_block_difficulty("no difficulty", 7), 7);
}

#[test]
fn log_tail() {
    let all = lines(&["a", "b", "c", "d"]);
    assert_eq!(tail_lines(all.clone(), 2), lines(&["c", "d"]));
    assert_eq!(tail_lines(all.clone(), 10), all);
    assert!(tail_lines(all, 0).is_empty());
}

#[test]
fn bootstrap_handling() {
    let s = "enode://a@1.2.3.4:30303,,enode://b@5.6.7.8:30303";
    assert_eq!(count_enodes(s), 2);
    assert_eq!(count_enodes(""), 0);
    assert_eq!(bootstrap_peers(s), lines(&["enode://a@1.2.3.4:30303", "enode://b@5.6.7.8:30303"]));
    assert_eq!(reconnect_plan(5, 3, s), None);
    assert_eq!(reconnect_plan(1, 3, s).unwrap().len(), 2);
    assert!(peers_suffice(3, 3));
    assert!(!peers_suffice(2, 3));
}

#[test]
fn startup_decisions() {
    let args = geth_args("/data", 98765, "enode://x", Some("0xminer"));
    assert_eq!(&args[0..4], &["--datadir", "/data", "--networkid", "98765"]);
    assert_eq!(args.len(), 43);
    assert_eq!(&args[41..], &["--miner.etherbase", "0xminer"]);
    assert_eq!(geth_args("/data", 1, "", None).len(), 41);
    let plan = init_plan(true, &Err("x".to_string()), false);
    assert!(!plan.needs_init && plan.needs_reinit);
    let fresh = init_plan(false, &Err("x".to_string()), true);
    assert!(fresh.needs_init && !fresh.needs_reinit);
    assert!(!init_plan(true, &Ok(()), false).needs_reinit);
    assert!(init_plan(true, &Ok(()), true).needs_reinit);
    assert!(looks_like_rpc_response("{\"jsonrpc\":\"2.0\",\"id\":1,\"result\":\"Geth\"}"));
    assert!(!looks_like_rpc_response("{\"jsonrpc\":\"2.0\",\"error\":{}}"));
    assert_eq!(readiness_step(true, 3), WaitStep::Ready);
    assert_eq!(readiness_step(false, 3), WaitStep::Retry(4));
    assert_eq!(readiness_step(false, 9), WaitStep::GiveUp);
    assert_eq!(mining_log_line("2024-01-01|10:00:00", "hi"), "INFO [2024-01-01|10:00:00] DEBUG: hi\n");
}

#[test]
fn transfer_checks() {
    assert_eq!(check_sender("0xABC", "0xabc"), Ok(()));
    assert_eq!(
        check_sender("0xabd", "0xabc"),
        Err("Private key doesn't match account. Expected: 0xabc, Got: 0xabd".to_string())
    );
    let w = Wide256::from_u128;
    assert_eq!(check_balance(w(1_000_000), 10, w(1)), Ok(()));
    assert_eq!(check_balance(w(21_010), 10, w(1)), Ok(()));
    assert_eq!(
        check_balance(w(21_009), 10, w(1)),
        Err("Insufficient balance. Have: 21009 wei, Need: 21010 wei (amount: 10 + gas: 21000)".to_string())
    );
    // Costs beyond 128 bits are compared and written in full.
    let price = Wide256 { w0: 0, w1: 0, w2: 1, w3: 0 };
    assert_eq!(
        check_balance(w(u128::MAX), 5, price),
        Err("Insufficient balance. Have: 340282366920938463463374607431768211455 wei, Need: 7145929705339707732730866756067132440576005 wei (amount: 5 + gas: 7145929705339707732730866756067132440576000)".to_string())
    );
    let rich = Wide256 { w0: 0, w1: 0, w2: 0, w3: 1 };
    assert_eq!(check_balance(rich, u128::MAX, price), Ok(()));
}
