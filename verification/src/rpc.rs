//! Reading Geth's JSON-RPC answers: hex quantities, flags and texts, with
//! the error messages the node's callers show.
use vstd::prelude::*;

use crate::text::{
    hex_quantity, lemma_hex_quantity_digits, lemma_hex_quantity_scan, is_lower_hex_digit,
    chars_of, int_error_message, lit, parse_unsigned, parse_unsigned_exec, push_all,
    push_int_error_message, slice_chars, starts_with, starts_with_chars, string_from_chars,
    trim_prefix_all, trim_prefix_all_chars, utf8_width, IntErrorKind,
};

verus! {

/// The `result` member of a reply, as far as it matters here.
#[derive(Debug)]
pub enum RpcResult {
    /// Missing or `null`.
    Absent,
    Bool(bool),
    Text(String),
    /// A number, array or object.
    Other,
}

/// A JSON-RPC reply: the JSON text of its `error` member, if any, and its
/// `result` member.
#[derive(Debug)]
pub struct RpcReply {
    pub error: Option<String>,
    pub result: RpcResult,
}

pub open spec fn reply_error(r: &RpcReply) -> Option<Seq<char>> {
    match &r.error {
        Some(e) => Some(e@),
        None => None,
    }
}

/// The result when it is a string.
pub open spec fn reply_text(r: &RpcReply) -> Option<Seq<char>> {
    match &r.result {
        RpcResult::Text(t) => Some(t@),
        _ => None,
    }
}

/// The result when it is a boolean.
pub open spec fn reply_bool(r: &RpcReply) -> Option<bool> {
    match &r.result {
        RpcResult::Bool(b) => Some(*b),
        _ => None,
    }
}

// ---------------------------------------------------------------------------
// Hex quantities
// ---------------------------------------------------------------------------

/// The text after its first two bytes (`&s[2..]`), when byte 2 is a
/// character boundary within the text; `None` where that slice panics.
pub open spec fn skip_two_bytes(s: Seq<char>) -> Option<Seq<char>> {
    if s.len() >= 1 && utf8_width(s[0]) == 2 {
        Some(s.drop_first())
    } else if s.len() >= 2 && utf8_width(s[0]) == 1 && utf8_width(s[1]) == 1 {
        Some(s.subrange(2, s.len() as int))
    } else {
        None
    }
}

fn utf8_width_exec(c: char) -> (res: usize)
    ensures
        res == utf8_width(c),
{
    let v = c as u32;
    if v < 0x80 {
        1
    } else if v < 0x800 {
        2
    } else if v < 0x10000 {
        3
    } else {
        4
    }
}

/// Whether `&s[2..]` can be taken.
pub fn can_skip_two_bytes(s: &str) -> (res: bool)
    ensures
        res == (skip_two_bytes(s@) is Some),
{
    let c = chars_of(s);
    if c.len() >= 1 && utf8_width_exec(c[0]) == 2 {
        true
    } else {
        c.len() >= 2 && utf8_width_exec(c[0]) == 1 && utf8_width_exec(c[1]) == 1
    }
}

pub fn skip_two_bytes_chars(s: &[char]) -> (res: Vec<char>)
    requires
        skip_two_bytes(s@) is Some,
    ensures
        res@ == skip_two_bytes(s@)->0,
{
    if s.len() >= 1 && utf8_width_exec(s[0]) == 2 {
        assert(s@.subrange(1, s@.len() as int) =~= s@.drop_first());
        slice_chars(s, 1, s.len())
    } else {
        slice_chars(s, 2, s.len())
    }
}

/// How a reply carrying a `0x`-prefixed hex quantity reads: the node's
/// error, the message for a result that is not a string, or the value of
/// the digits after the first two bytes (with `failed` before the parse
/// error's text).
pub open spec fn quantity_outcome(r: &RpcReply, invalid: Seq<char>, failed: Seq<char>, max: nat) -> Result<nat, Seq<char>> {
    match reply_error(r) {
        Some(e) => Err("RPC error: "@ + e),
        None => match reply_text(r) {
            None => Err(invalid),
            Some(t) => match parse_unsigned(skip_two_bytes(t)->0, 16, max) {
                Ok(n) => Ok(n),
                Err(k) => Err(failed + int_error_message(k)),
            },
        },
    }
}

/// A reply can be read without slicing inside a character.
pub open spec fn quantity_readable(r: &RpcReply) -> bool {
    reply_error(r) is None && reply_text(r) is Some ==> skip_two_bytes(reply_text(r)->0) is Some
}

fn message(prefix: &str, tail: &[char]) -> (res: String)
    ensures
        res@ == prefix@ + tail@,
{
    let mut m = lit(prefix);
    push_all(&mut m, tail);
    string_from_chars(&m)
}

fn rpc_error(e: &String) -> (res: String)
    ensures
        res@ == "RPC error: "@ + e@,
{
    let ec = chars_of(e.as_str());
    message("RPC error: ", &ec)
}

fn quantity_from_reply(r: &RpcReply, invalid: &str, failed: &str, max: u128) -> (res: Result<u128, String>)
    requires
        quantity_readable(r),
    ensures
        match quantity_outcome(r, invalid@, failed@, max as nat) {
            Ok(n) => res matches Ok(v) && v as nat == n,
            Err(m) => res matches Err(e) && e@ == m,
        },
        res matches Ok(v) ==> v <= max,
{
    if let Some(e) = &r.error {
        return Err(rpc_error(e));
    }
    let t = match &r.result {
        RpcResult::Text(t) => t,
        _ => {
            return Err(invalid.to_owned());
        },
    };
    let tc = chars_of(t.as_str());
    let digits = skip_two_bytes_chars(&tc);
    match parse_unsigned_exec(&digits, 16, max) {
        Ok(v) => Ok(v),
        Err(k) => {
            let mut m = lit(failed);
            push_int_error_message(&mut m, k);
            Err(string_from_chars(&m))
        },
    }
}

/// `eth_getBalance`: the balance in wei.
pub fn balance_wei_from_reply(r: &RpcReply) -> (res: Result<u128, String>)
    requires
        quantity_readable(r),
    ensures
        match quantity_outcome(r, "Invalid balance response"@, "Failed to parse balance: "@, u128::MAX as nat) {
            Ok(n) => res matches Ok(v) && v as nat == n,
            Err(m) => res matches Err(e) && e@ == m,
        },
{
    quantity_from_reply(r, "Invalid balance response", "Failed to parse balance: ", u128::MAX)
}

/// `net_peerCount`: the number of peers.
pub fn peer_count_from_reply(r: &RpcReply) -> (res: Result<u32, String>)
    requires
        quantity_readable(r),
    ensures
        match quantity_outcome(r, "Invalid peer count response"@, "Failed to parse peer count: "@, u32::MAX as nat) {
            Ok(n) => res matches Ok(v) && v as nat == n,
            Err(m) => res matches Err(e) && e@ == m,
        },
{
    match quantity_from_reply(r, "Invalid peer count response", "Failed to parse peer count: ", u32::MAX as u128) {
        Ok(v) => Ok(v as u32),
        Err(e) => Err(e),
    }
}

/// `eth_chainId`: the chain identifier.
pub fn chain_id_from_reply(r: &RpcReply) -> (res: Result<u64, String>)
    requires
        quantity_readable(r),
    ensures
        match quantity_outcome(r, "Invalid chain ID response"@, "Failed to parse chain ID: "@, u64::MAX as nat) {
            Ok(n) => res matches Ok(v) && v as nat == n,
            Err(m) => res matches Err(e) && e@ == m,
        },
{
    match quantity_from_reply(r, "Invalid chain ID response", "Failed to parse chain ID: ", u64::MAX as u128) {
        Ok(v) => Ok(v as u64),
        Err(e) => Err(e),
    }
}

/// `eth_blockNumber`: the number of the latest block.
pub fn block_number_from_reply(r: &RpcReply) -> (res: Result<u64, String>)
    requires
        quantity_readable(r),
    ensures
        match quantity_outcome(r, "Invalid block number response"@, "Failed to parse block number: "@, u64::MAX as nat) {
            Ok(n) => res matches Ok(v) && v as nat == n,
            Err(m) => res matches Err(e) && e@ == m,
        },
{
    match quantity_from_reply(r, "Invalid block number response", "Failed to parse block number: ", u64::MAX as u128) {
        Ok(v) => Ok(v as u64),
        Err(e) => Err(e),
    }
}

/// `eth_getBlockByNumber("latest")`: the difficulty of the latest block,
/// given the reply and the block's `difficulty` member.
pub fn difficulty_from_reply(r: &RpcReply, difficulty: Option<&str>) -> (res: Result<u128, String>)
    requires
        reply_error(r) is None && difficulty is Some ==> skip_two_bytes(difficulty->0@) is Some,
    ensures
        match reply_error(r) {
            Some(e) => res matches Err(m) && m@ == "RPC error: "@ + e,
            None => match difficulty {
                None => res matches Err(m) && m@ == "Invalid difficulty response"@,
                Some(d) => match parse_unsigned(skip_two_bytes(d@)->0, 16, u128::MAX as nat) {
                    Ok(n) => res matches Ok(v) && v as nat == n,
                    Err(k) => res matches Err(m) && m@ == "Failed to parse difficulty: "@ + int_error_message(k),
                },
            },
        },
{
    if let Some(e) = &r.error {
        return Err(rpc_error(e));
    }
    let d = match difficulty {
        Some(d) => d,
        None => {
            return Err("Invalid difficulty response".to_owned());
        },
    };
    let dc = chars_of(d);
    let digits = skip_two_bytes_chars(&dc);
    match parse_unsigned_exec(&digits, 16, u128::MAX) {
        Ok(v) => Ok(v),
        Err(k) => {
            let mut m = lit("Failed to parse difficulty: ");
            push_int_error_message(&mut m, k);
            Err(string_from_chars(&m))
        },
    }
}

/// `eth_mining`: whether the node is mining.
pub fn mining_status_from_reply(r: &RpcReply) -> (res: Result<bool, String>)
    ensures
        match reply_error(r) {
            Some(e) => res matches Err(m) && m@ == "RPC error: "@ + e,
            None => match reply_bool(r) {
                Some(b) => res == Ok::<bool, String>(b),
                None => res matches Err(m) && m@ == "Invalid mining status response"@,
            },
        },
{
    if let Some(e) = &r.error {
        return Err(rpc_error(e));
    }
    match &r.result {
        RpcResult::Bool(b) => Ok(*b),
        _ => Err("Invalid mining status response".to_owned()),
    }
}

/// `eth_coinbase`: the address that mining rewards go to.
pub fn coinbase_from_reply(r: &RpcReply) -> (res: Result<String, String>)
    ensures
        match reply_error(r) {
            Some(e) => res matches Err(m) && m@ == "RPC error: "@ + e,
            None => match reply_text(r) {
                Some(t) => res matches Ok(c) && c@ == t,
                None => res matches Err(m) && m@ == "Invalid coinbase response"@,
            },
        },
{
    if let Some(e) = &r.error {
        return Err(rpc_error(e));
    }
    match &r.result {
        RpcResult::Text(t) => Ok(t.clone()),
        _ => Err("Invalid coinbase response".to_owned()),
    }
}

/// `admin_addPeer`: whether the peer was added (a result that is not a
/// boolean counts as not added).
pub fn add_peer_outcome(r: &RpcReply) -> (res: Result<bool, String>)
    ensures
        match reply_error(r) {
            Some(e) => res matches Err(m) && m@ == "RPC error adding peer: "@ + e,
            None => res == Ok::<bool, String>(reply_bool(r) == Some(true)),
        },
{
    if let Some(e) = &r.error {
        let ec = chars_of(e.as_str());
        return Err(message("RPC error adding peer: ", &ec));
    }
    match &r.result {
        RpcResult::Bool(b) => Ok(*b),
        _ => Ok(false),
    }
}

/// A reply that only has to succeed (`miner_stop`): the node's error
/// after `prefix`.
pub fn command_outcome(r: &RpcReply, prefix: &str) -> (res: Result<(), String>)
    ensures
        match reply_error(r) {
            Some(e) => res matches Err(m) && m@ == prefix@ + e,
            None => res is Ok,
        },
{
    if let Some(e) = &r.error {
        let ec = chars_of(e.as_str());
        return Err(message(prefix, &ec));
    }
    Ok(())
}

// ---------------------------------------------------------------------------
// Hash rates and difficulties
// ---------------------------------------------------------------------------

/// The digits of a hash rate with an optional `0x` or `0X` removed.
pub open spec fn hashrate_digits(t: Seq<char>) -> Seq<char> {
    if starts_with(t, "0x"@) || starts_with(t, "0X"@) {
        t.subrange(2, t.len() as int)
    } else {
        t
    }
}

/// A reported hash rate: no digits or a lone `0` is zero, otherwise the hex
/// value.
pub open spec fn hashrate_value(t: Seq<char>) -> Result<nat, IntErrorKind> {
    let h = hashrate_digits(t);
    if h.len() == 0 || h == "0"@ {
        Ok(0)
    } else {
        parse_unsigned(h, 16, u64::MAX as nat)
    }
}

fn strip_hex_prefix(t: &[char]) -> (res: Vec<char>)
    ensures
        res@ == hashrate_digits(t@),
{
    proof {
        reveal_strlit("0x");
        reveal_strlit("0X");
    }
    if starts_with_chars(t, &lit("0x")) || starts_with_chars(t, &lit("0X")) {
        slice_chars(t, 2, t.len())
    } else {
        slice_chars(t, 0, t.len())
    }
}

/// Reads a hash rate reported in hex.
pub fn parse_hashrate(text: &str) -> (res: Result<u64, IntErrorKind>)
    ensures
        match hashrate_value(text@) {
            Ok(n) => res matches Ok(v) && v as nat == n,
            Err(k) => res == Err::<u64, IntErrorKind>(k),
        },
{
    let t = chars_of(text);
    let h = strip_hex_prefix(&t);
    if h.len() == 0 || (h.len() == 1 && h[0] == '0') {
        proof {
            reveal_strlit("0");
            if h.len() == 1 {
                assert(h@ =~= "0"@);
            }
        }
        return Ok(0);
    }
    proof {
        reveal_strlit("0");
        assert(h@ != "0"@) by {
            if h@ == "0"@ {
                assert(h@.len() == 1 && h@[0] == '0');
            }
        }
    }
    match parse_unsigned_exec(&h, 16, u64::MAX as u128) {
        Ok(v) => Ok(v as u64),
        Err(k) => Err(k),
    }
}

/// `eth_hashrate` as first asked: the node's error (after which other
/// methods are tried), or the rate.
pub fn hashrate_from_reply(r: &RpcReply) -> (res: Result<u64, String>)
    ensures
        match reply_error(r) {
            Some(e) => res matches Err(m) && m@ == "RPC error: "@ + e,
            None => match reply_text(r) {
                None => res matches Err(m) && m@ == "Invalid hashrate response"@,
                Some(t) => match hashrate_value(t) {
                    Ok(n) => res matches Ok(v) && v as nat == n,
                    Err(k) => res matches Err(m) && m@ == "Failed to parse hashrate: "@ + int_error_message(k),
                },
            },
        },
{
    if let Some(e) = &r.error {
        return Err(rpc_error(e));
    }
    let t = match &r.result {
        RpcResult::Text(t) => t,
        _ => {
            return Err("Invalid hashrate response".to_owned());
        },
    };
    match parse_hashrate(t.as_str()) {
        Ok(v) => Ok(v),
        Err(k) => {
            let mut m = lit("Failed to parse hashrate: ");
            push_int_error_message(&mut m, k);
            Err(string_from_chars(&m))
        },
    }
}

/// A fallback hash-rate method's reply: usable when it has no error and a
/// string result, whose unreadable digits count as zero.
pub fn hashrate_from_fallback_reply(r: &RpcReply) -> (res: Option<u64>)
    ensures
        if reply_error(r) is None && reply_text(r) is Some {
            match hashrate_value(reply_text(r)->0) {
                Ok(n) => res matches Some(v) && v as nat == n,
                Err(_) => res == Some(0u64),
            }
        } else {
            res is None
        },
{
    if r.error.is_some() {
        return None;
    }
    match &r.result {
        RpcResult::Text(t) => match parse_hashrate(t.as_str()) {
            Ok(v) => Some(v),
            Err(_) => Some(0),
        },
        _ => None,
    }
}

/// The digits of a reported network rate: only a lowercase `0x` is removed.
pub open spec fn network_rate_digits(t: Seq<char>) -> Seq<char> {
    if starts_with(t, "0x"@) {
        t.subrange(2, t.len() as int)
    } else {
        t
    }
}

/// The network rate a node reports, when it is a usable positive number.
pub open spec fn reported_network_rate(r: &RpcReply) -> Option<nat> {
    match (reply_error(r), reply_text(r)) {
        (None, Some(t)) => {
            let d = network_rate_digits(t);
            if d.len() == 0 || d == "0"@ {
                None
            } else {
                match parse_unsigned(d, 16, u64::MAX as nat) {
                    Ok(n) => if n > 0 {
                        Some(n)
                    } else {
                        None
                    },
                    Err(_) => None,
                }
            }
        },
        _ => None,
    }
}

/// `eth_hashrate` asked for the network's rate: the rate when the node
/// reports a positive one, `None` when it must be estimated instead.
pub fn network_hashrate_from_reply(r: &RpcReply) -> (res: Option<u64>)
    ensures
        match reported_network_rate(r) {
            Some(n) => res matches Some(v) && v as nat == n,
            None => res is None,
        },
{
    if r.error.is_some() {
        return None;
    }
    let t = match &r.result {
        RpcResult::Text(t) => t,
        _ => {
            return None;
        },
    };
    let tc = chars_of(t.as_str());
    proof {
        reveal_strlit("0x");
        reveal_strlit("0");
    }
    let d = if starts_with_chars(&tc, &lit("0x")) {
        slice_chars(&tc, 2, tc.len())
    } else {
        slice_chars(&tc, 0, tc.len())
    };
    assert(d@ =~= network_rate_digits(t@));
    if d.len() == 0 || (d.len() == 1 && d[0] == '0') {
        if d.len() == 1 {
            assert(d@ =~= "0"@);
        }
        return None;
    }
    assert(d@ != "0"@) by {
        if d@ == "0"@ {
            assert(d@.len() == 1 && d@[0] == '0');
        }
    }
    match parse_unsigned_exec(&d, 16, u64::MAX as u128) {
        Ok(v) => if v > 0 {
            Some(v as u64)
        } else {
            None
        },
        Err(_) => None,
    }
}

/// The unit a rate or difficulty is shown in.
#[derive(Debug, Clone, Copy, PartialEq, Eq, Structural)]
pub enum DisplayScale {
    /// The plain number.
    Units,
    Kilo,
    Mega,
    Giga,
    Tera,
}

/// Hash rates go up to giga.
pub open spec fn hashrate_scale_spec(h: nat) -> DisplayScale {
    if h >= 1_000_000_000 {
        DisplayScale::Giga
    } else if h >= 1_000_000 {
        DisplayScale::Mega
    } else if h >= 1_000 {
        DisplayScale::Kilo
    } else {
        DisplayScale::Units
    }
}

/// Difficulties go up to tera.
pub open spec fn difficulty_scale_spec(d: nat) -> DisplayScale {
    if d >= 1_000_000_000_000 {
        DisplayScale::Tera
    } else {
        hashrate_scale_spec(d)
    }
}

pub fn hashrate_scale(h: u64) -> (res: DisplayScale)
    ensures
        res == hashrate_scale_spec(h as nat),
{
    if h >= 1_000_000_000 {
        DisplayScale::Giga
    } else if h >= 1_000_000 {
        DisplayScale::Mega
    } else if h >= 1_000 {
        DisplayScale::Kilo
    } else {
        DisplayScale::Units
    }
}

pub fn difficulty_scale(d: u128) -> (res: DisplayScale)
    ensures
        res == difficulty_scale_spec(d as nat),
{
    if d >= 1_000_000_000_000 {
        DisplayScale::Tera
    } else if d >= 1_000_000_000 {
        DisplayScale::Giga
    } else if d >= 1_000_000 {
        DisplayScale::Mega
    } else if d >= 1_000 {
        DisplayScale::Kilo
    } else {
        DisplayScale::Units
    }
}

/// The difficulty of the latest block as an integer for hash-rate
/// estimates: an optional `0x`/`0X` is removed, no digits count as 1, and
/// so do digits that do not read as a `u64`.
pub open spec fn difficulty_u64_spec(t: Seq<char>) -> nat {
    let h = hashrate_digits(t);
    if h.len() == 0 {
        1
    } else {
        match parse_unsigned(h, 16, u64::MAX as nat) {
            Ok(n) => n,
            Err(_) => 1,
        }
    }
}

pub fn difficulty_u64(text: &str) -> (res: u64)
    ensures
        res as nat == difficulty_u64_spec(text@),
{
    let t = chars_of(text);
    let h = strip_hex_prefix(&t);
    if h.len() == 0 {
        return 1;
    }
    match parse_unsigned_exec(&h, 16, u64::MAX as u128) {
        Ok(v) => v as u64,
        Err(_) => 1,
    }
}

/// `eth_getBlockByNumber("latest")` read as an integer difficulty.
pub fn difficulty_u64_from_reply(r: &RpcReply, difficulty: Option<&str>) -> (res: Result<u64, String>)
    ensures
        match reply_error(r) {
            Some(e) => res matches Err(m) && m@ == "RPC error: "@ + e,
            None => match difficulty {
                None => res matches Err(m) && m@ == "Invalid difficulty response"@,
                Some(d) => res matches Ok(v) && v as nat == difficulty_u64_spec(d@),
            },
        },
{
    if let Some(e) = &r.error {
        return Err(rpc_error(e));
    }
    match difficulty {
        Some(d) => Ok(difficulty_u64(d)),
        None => Err("Invalid difficulty response".to_owned()),
    }
}

// ---------------------------------------------------------------------------
// Sync status
// ---------------------------------------------------------------------------

/// A block number the node wrote as text: missing, or every leading `0x`
/// removed and the rest read as hex (with `invalid` before a parse error).
pub open spec fn hex_field_outcome(t: Option<Seq<char>>, missing: Seq<char>, invalid: Seq<char>) -> Result<nat, Seq<char>> {
    match t {
        None => Err(missing),
        Some(s) => match parse_unsigned(trim_prefix_all(s, "0x"@), 16, u64::MAX as nat) {
            Ok(n) => Ok(n),
            Err(k) => Err(invalid + int_error_message(k)),
        },
    }
}

pub open spec fn opt_view(t: Option<&str>) -> Option<Seq<char>> {
    match t {
        Some(s) => Some(s@),
        None => None,
    }
}

/// Reads a block number the node wrote as text.
pub fn hex_field(t: Option<&str>, missing: &str, invalid: &str) -> (res: Result<u64, String>)
    ensures
        match hex_field_outcome(opt_view(t), missing@, invalid@) {
            Ok(n) => res matches Ok(v) && v as nat == n,
            Err(m) => res matches Err(e) && e@ == m,
        },
{
    let s = match t {
        Some(s) => s,
        None => {
            return Err(missing.to_owned());
        },
    };
    let sc = chars_of(s);
    proof {
        reveal_strlit("0x");
    }
    let digits = trim_prefix_all_chars(&sc, &lit("0x"));
    match parse_unsigned_exec(&digits, 16, u64::MAX as u128) {
        Ok(v) => Ok(v as u64),
        Err(k) => {
            let mut m = lit(invalid);
            push_int_error_message(&mut m, k);
            Err(string_from_chars(&m))
        },
    }
}

/// Block numbers of a sync in progress.
#[derive(Debug, Clone, Copy, PartialEq, Eq, Structural)]
pub struct SyncNumbers {
    pub current_block: u64,
    pub highest_block: u64,
    pub starting_block: u64,
    /// Blocks still to fetch (none when the node is ahead).
    pub blocks_remaining: u64,
}

/// `eth_syncing` while syncing: the `currentBlock`, `highestBlock` and
/// `startingBlock` members, read in that order.
pub fn sync_numbers(current: Option<&str>, highest: Option<&str>, starting: Option<&str>) -> (res: Result<SyncNumbers, String>)
    ensures
        match (
            hex_field_outcome(opt_view(current), "Missing currentBlock"@, "Invalid currentBlock: "@),
            hex_field_outcome(opt_view(highest), "Missing highestBlock"@, "Invalid highestBlock: "@),
            hex_field_outcome(opt_view(starting), "Missing startingBlock"@, "Invalid startingBlock: "@),
        ) {
            (Ok(c), Ok(h), Ok(s)) => res matches Ok(n) && n.current_block == c && n.highest_block == h
                && n.starting_block == s && n.blocks_remaining == if h > c {
                (h - c) as nat
            } else {
                0
            },
            (Err(m), _, _) => res matches Err(e) && e@ == m,
            (Ok(_), Err(m), _) => res matches Err(e) && e@ == m,
            (Ok(_), Ok(_), Err(m)) => res matches Err(e) && e@ == m,
        },
{
    let c = hex_field(current, "Missing currentBlock", "Invalid currentBlock: ")?;
    let h = hex_field(highest, "Missing highestBlock", "Invalid highestBlock: ")?;
    let s = hex_field(starting, "Missing startingBlock", "Invalid startingBlock: ")?;
    let remaining = if h > c {
        h - c
    } else {
        0
    };
    Ok(SyncNumbers { current_block: c, highest_block: h, starting_block: s, blocks_remaining: remaining })
}

// ---------------------------------------------------------------------------
// Laws
// ---------------------------------------------------------------------------

/// Law: a quantity as the node writes it, `0x` and lowercase hex digits,
/// reads back as the same number whenever it fits the target type; the
/// slice after `0x` can always be taken.
pub proof fn law_hex_quantity_reads_back(n: nat, max: nat)
    requires
        n <= max,
    ensures
        skip_two_bytes("0x"@ + hex_quantity(n)) == Some(hex_quantity(n)),
        parse_unsigned(hex_quantity(n), 16, max) == Ok::<nat, IntErrorKind>(n),
{
    reveal_strlit("0x");
    let t = "0x"@ + hex_quantity(n);
    assert(t[0] == '0' && t[1] == 'x');
    assert(t.subrange(2, t.len() as int) =~= hex_quantity(n));
    lemma_hex_quantity_digits(n);
    lemma_hex_quantity_scan(n, max);
    assert(is_lower_hex_digit(hex_quantity(n)[0]));
}

} // verus!
