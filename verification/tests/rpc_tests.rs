use chiral_network::rpc::{
    add_peer_outcome, balance_wei_from_reply, block_number_from_reply, can_skip_two_bytes,
    chain_id_from_reply, coinbase_from_reply, command_outcome, difficulty_from_reply,
    difficulty_scale, difficulty_u64, difficulty_u64_from_reply, hashrate_from_fallback_reply,
    hashrate_from_reply, hashrate_scale, hex_field, mining_status_from_reply, network_hashrate_from_reply,
    parse_hashrate,
    peer_count_from_reply, sync_numbers, DisplayScale, RpcReply, RpcResult,
};
use chiral_network::text::IntErrorKind;

fn text(s: &str) -> RpcReply {
    RpcReply { error: None, result: RpcResult::Text(s.to_string()) }
}

fn err(s: &str) -> RpcReply {
    RpcReply { error: Some(s.to_string()), result: RpcResult::Absent }
}

#[test]
fn quantities_read_as_hex() {
    assert_eq!(balance_wei_from_reply(&text("0xde0b6b3a7640000")), Ok(1_000_000_000_000_000_000));
    assert_eq!(peer_count_from_reply(&text("0x3")), Ok(3));
    assert_eq!(chain_id_from_reply(&text("0x1a4")), Ok(420));
    assert_eq!(block_number_from_reply(&text("0x10")), Ok(16));
    assert_eq!(block_number_from_reply(&text("0x")), Err("Failed to parse block number: cannot parse integer from empty string".to_string()));
}

#[test]
fn quantity_errors() {
    assert_eq!(balance_wei_from_reply(&err("{\"code\":-32000}")), Err("RPC error: {\"code\":-32000}".to_string()));
    let absent = RpcReply { error: None, result: RpcResult::Absent };
    assert_eq!(balance_wei_from_reply(&absent), Err("Invalid balance response".to_string()));
    assert_eq!(peer_count_from_reply(&text("0xzz")), Err("Failed to parse peer count: invalid digit found in string".to_string()));
    assert_eq!(peer_count_from_reply(&text("0x100000000")), Err("Failed to parse peer count: number too large to fit in target type".to_string()));
    assert_eq!(chain_id_from_reply(&RpcReply { error: None, result: RpcResult::Bool(true) }), Err("Invalid chain ID response".to_string()));
}

#[test]
fn slicing_after_two_bytes() {
    assert!(can_skip_two_bytes("0x1"));
    assert!(can_skip_two_bytes("é1"));
    assert!(!can_skip_two_bytes("1"));
    assert!(!can_skip_two_bytes("0é"));
    // The first two bytes are dropped whatever they are.
    assert_eq!(block_number_from_reply(&text("ab10")), Ok(16));
    assert_eq!(block_number_from_reply(&text("é10")), Ok(16));
}

#[test]
fn flags_and_texts() {
    assert_eq!(mining_status_from_reply(&RpcReply { error: None, result: RpcResult::Bool(true) }), Ok(true));
    assert_eq!(mining_status_from_reply(&text("yes")), Err("Invalid mining status response".to_string()));
    assert_eq!(coinbase_from_reply(&text("0xabc")), Ok("0xabc".to_string()));
    assert_eq!(coinbase_from_reply(&RpcReply { error: None, result: RpcResult::Other }), Err("Invalid coinbase response".to_string()));
    assert_eq!(add_peer_outcome(&RpcReply { error: None, result: RpcResult::Bool(true) }), Ok(true));
    assert_eq!(add_peer_outcome(&text("true")), Ok(false));
    assert_eq!(add_peer_outcome(&err("\"denied\"")), Err("RPC error adding peer: \"denied\"".to_string()));
    assert_eq!(command_outcome(&err("x"), "Failed to stop mining: "), Err("Failed to stop mining: x".to_string()));
    assert_eq!(command_outcome(&text("ok"), "Failed to stop mining: "), Ok(()));
}

#[test]
fn hashrates() {
    assert_eq!(parse_hashrate("0x0"), Ok(0));
    assert_eq!(parse_hashrate("0X"), Ok(0));
    assert_eq!(parse_hashrate(""), Ok(0));
    assert_eq!(parse_hashrate("0"), Ok(0));
    assert_eq!(parse_hashrate("ff"), Ok(255));
    assert_eq!(parse_hashrate("0x1e8480"), Ok(2_000_000));
    assert_eq!(parse_hashrate("0xq"), Err(IntErrorKind::InvalidDigit));
    assert_eq!(hashrate_from_reply(&text("0x3e8")), Ok(1000));
    assert_eq!(hashrate_from_reply(&text("0xg")), Err("Failed to parse hashrate: invalid digit found in string".to_string()));
    assert_eq!(hashrate_from_reply(&RpcReply { error: None, result: RpcResult::Absent }), Err("Invalid hashrate response".to_string()));
    assert_eq!(hashrate_from_fallback_reply(&text("0xg")), Some(0));
    assert_eq!(hashrate_from_fallback_reply(&text("0x10")), Some(16));
    assert_eq!(hashrate_from_fallback_reply(&err("no")), None);
    assert_eq!(hashrate_scale(999), DisplayScale::Units);
    assert_eq!(hashrate_scale(1_000), DisplayScale::Kilo);
    assert_eq!(hashrate_scale(1_000_000), DisplayScale::Mega);
    assert_eq!(hashrate_scale(1_000_000_000), DisplayScale::Giga);
    assert_eq!(difficulty_scale(1_000_000_000_000), DisplayScale::Tera);
    assert_eq!(difficulty_scale(999_999_999_999), DisplayScale::Giga);
}

#[test]
fn difficulties() {
    assert_eq!(difficulty_from_reply(&text("x"), Some("0x20000")), Ok(131072));
    assert_eq!(difficulty_from_reply(&text("x"), None), Err("Invalid difficulty response".to_string()));
    assert_eq!(difficulty_from_reply(&err("e"), Some("0x1")), Err("RPC error: e".to_string()));
    assert_eq!(difficulty_u64("0x20000"), 131072);
    assert_eq!(difficulty_u64("0X10"), 16);
    assert_eq!(difficulty_u64("0x"), 1);
    assert_eq!(difficulty_u64("0xnope"), 1);
    assert_eq!(difficulty_u64_from_reply(&text("x"), Some("0x5")), Ok(5));
    assert_eq!(difficulty_u64_from_reply(&text("x"), None), Err("Invalid difficulty response".to_string()));
}

#[test]
fn sync_reports() {
    let n = sync_numbers(Some("0x10"), Some("0x20"), Some("0x0x1")).unwrap();
    assert_eq!(n.current_block, 16);
    assert_eq!(n.highest_block, 32);
    assert_eq!(n.starting_block, 1);
    assert_eq!(n.blocks_remaining, 16);
    let ahead = sync_numbers(Some("0x30"), Some("0x20"), Some("0x0")).unwrap();
    assert_eq!(ahead.blocks_remaining, 0);
    assert_eq!(sync_numbers(None, Some("0x1"), Some("0x1")), Err("Missing currentBlock".to_string()));
    assert_eq!(sync_numbers(Some("0x1"), Some("0xg"), None), Err("Invalid highestBlock: invalid digit found in string".to_string()));
    assert_eq!(sync_numbers(Some("0x1"), Some("0x1"), None), Err("Missing startingBlock".to_string()));
}

#[test]
fn reported_network_rate() {
    assert_eq!(network_hashrate_from_reply(&text("0x1f4")), Some(500));
    assert_eq!(network_hashrate_from_reply(&text("ff")), Some(255));
    assert_eq!(network_hashrate_from_reply(&text("0x0")), None);
    assert_eq!(network_hashrate_from_reply(&text("0x")), None);
    assert_eq!(network_hashrate_from_reply(&text("0X10")), None);
    assert_eq!(network_hashrate_from_reply(&text("0x00")), None);
    assert_eq!(network_hashrate_from_reply(&err("x")), None);
    assert_eq!(network_hashrate_from_reply(&RpcReply { error: None, result: RpcResult::Bool(true) }), None);
}

#[test]
fn block_numbers_written_as_text() {
    assert_eq!(hex_field(Some("0x1f"), "Invalid eth_blockNumber", "hex parse: "), Ok(31));
    assert_eq!(hex_field(Some("0x0x10"), "m", "i: "), Ok(16));
    assert_eq!(hex_field(None, "Invalid eth_blockNumber", "hex parse: "), Err("Invalid eth_blockNumber".to_string()));
    assert_eq!(
        hex_field(Some("0xzz"), "m", "hex parse: "),
        Err("hex parse: invalid digit found in string".to_string())
    );
}
