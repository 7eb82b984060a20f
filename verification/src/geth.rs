//! Decisions around the local Geth node: whether its data directory must be
//! initialized again, what its log says about mining, how it is started,
//! which bootstrap peers to add, and whether a transfer can be paid for.
use vstd::prelude::*;

use crate::wide::{push_decimal_wide, wide_limit, wide_value, Wide256};
use crate::text::{
    lemma_parse_decimal, lemma_decimal_digits, is_dec_digit, trim_start, trim_end,
    chars_of, contains, contains_chars, count_matches, decimal, find_chars, first_occurrence, lit,
    lowercase, parse_unsigned, parse_unsigned_exec, push_all, push_decimal, slice_chars,
    split_chars, split_on, string_from_chars, trim, trim_chars, lower_text, IntErrorKind,
    matches_at, occurs_at, starts_with,
};

verus! {

// ---------------------------------------------------------------------------
// Chain id marker
// ---------------------------------------------------------------------------

/// The chain id written in the data directory's marker file, if it reads
/// as one.
pub open spec fn marker_chain_id(content: Option<Seq<char>>) -> Option<nat> {
    match content {
        Some(c) => match parse_unsigned(trim(c), 10, u64::MAX as nat) {
            Ok(n) => Some(n),
            Err(_) => None,
        },
        None => None,
    }
}

pub open spec fn marker_outcome(content: Option<Seq<char>>, expected: u64) -> Result<(), Seq<char>> {
    match marker_chain_id(content) {
        Some(n) => if n == expected {
            Ok(())
        } else {
            Err(
                "Existing blockchain data is for chain ID "@ + decimal(n) + ", but expected "@ + decimal(
                    expected as nat,
                ) + ". Will reinitialize."@,
            )
        },
        None => Err("Could not verify chain ID of existing blockchain data. Will reinitialize to ensure correctness."@),
    }
}

/// Checks the chain id marker of an existing data directory (`None` when
/// the marker is missing or unreadable); an error means the directory must
/// be initialized again.
pub fn validate_chain_id(marker_content: Option<&str>, expected_chain_id: u64) -> (res: Result<(), String>)
    ensures
        match marker_outcome(
            match marker_content {
                Some(c) => Some(c@),
                None => None,
            },
            expected_chain_id,
        ) {
            Ok(()) => res is Ok,
            Err(m) => res matches Err(e) && e@ == m,
        },
{
    if let Some(c) = marker_content {
        let cc = chars_of(c);
        let t = trim_chars(&cc);
        if let Ok(stored) = parse_unsigned_exec(&t, 10, u64::MAX as u128) {
            if stored == expected_chain_id as u128 {
                return Ok(());
            } else {
                let mut m = lit("Existing blockchain data is for chain ID ");
                push_decimal(&mut m, stored);
                let mid = lit(", but expected ");
                push_all(&mut m, &mid);
                push_decimal(&mut m, expected_chain_id as u128);
                let end = lit(". Will reinitialize.");
                push_all(&mut m, &end);
                return Err(string_from_chars(&m));
            }
        }
    }
    Err(
        "Could not verify chain ID of existing blockchain data. Will reinitialize to ensure correctness.".to_owned(),
    )
}

// ---------------------------------------------------------------------------
// Log lines
// ---------------------------------------------------------------------------

/// A log line that reports actual blockchain corruption.
pub open spec fn is_corruption_line(l: Seq<char>) -> bool {
    ||| contains(l, "database corruption"@)
    ||| (contains(l, "FATAL"@) && contains(l, "chaindata"@))
    ||| (contains(l, "corrupted"@) && contains(l, "database"@))
}

/// A log line that reports a mined block.
pub open spec fn is_mined_block_line(l: Seq<char>) -> bool {
    ||| contains(l, "Successfully sealed new block"@)
    ||| contains(l, "\u{1f528} mined potential block"@)
    ||| contains(l, "Block mined"@)
    ||| (contains(l, "mined"@) && contains(l, "block"@))
}

/// Index of the first of the last `n` lines.
pub open spec fn tail_start(len: nat, n: nat) -> nat {
    if len > n {
        (len - n) as nat
    } else {
        0
    }
}

pub open spec fn line_views(lines: Seq<String>) -> Seq<Seq<char>> {
    lines.map_values(|l: String| l@)
}

/// Number of lines from index `i` on that report a mined block.
pub open spec fn mined_lines_from(lines: Seq<Seq<char>>, i: int) -> nat
    decreases lines.len() - i,
{
    if i < 0 || i >= lines.len() {
        0
    } else {
        (if is_mined_block_line(lines[i]) {
            1nat
        } else {
            0nat
        }) + mined_lines_from(lines, i + 1)
    }
}

fn is_corruption_line_exec(l: &str) -> (res: bool)
    ensures
        res == is_corruption_line(l@),
{
    let c = chars_of(l);
    contains_chars(&c, &lit("database corruption")) || (contains_chars(&c, &lit("FATAL"))
        && contains_chars(&c, &lit("chaindata"))) || (contains_chars(&c, &lit("corrupted"))
        && contains_chars(&c, &lit("database")))
}

fn is_mined_block_line_exec(l: &str) -> (res: bool)
    ensures
        res == is_mined_block_line(l@),
{
    let c = chars_of(l);
    contains_chars(&c, &lit("Successfully sealed new block")) || contains_chars(
        &c,
        &lit("\u{1f528} mined potential block"),
    ) || contains_chars(&c, &lit("Block mined")) || (contains_chars(&c, &lit("mined"))
        && contains_chars(&c, &lit("block")))
}

/// Whether any of the last 50 log lines reports corruption.
pub fn log_shows_corruption(lines: &Vec<String>) -> (res: bool)
    ensures
        res == exists|i: int|
            tail_start(lines@.len(), 50) <= i < lines@.len() && is_corruption_line(#[trigger] lines@[i]@),
{
    let start = if lines.len() > 50 {
        lines.len() - 50
    } else {
        0
    };
    let mut i = start;
    while i < lines.len()
        invariant
            start == tail_start(lines@.len(), 50),
            start <= i <= lines@.len(),
            forall|j: int| start <= j < i ==> !is_corruption_line(#[trigger] lines@[j]@),
        decreases lines@.len() - i,
    {
        if is_corruption_line_exec(lines[i].as_str()) {
            return true;
        }
        i = i + 1;
    }
    false
}

/// How many of the last 2000 log lines report a mined block.
pub fn count_mined_block_lines(lines: &Vec<String>) -> (res: u64)
    ensures
        res == mined_lines_from(line_views(lines@), tail_start(lines@.len(), 2000) as int),
{
    let start = if lines.len() > 2000 {
        lines.len() - 2000
    } else {
        0
    };
    let ghost lv = line_views(lines@);
    let mut count: u64 = 0;
    let mut i = lines.len();
    while i > start
        invariant
            start == tail_start(lines@.len(), 2000),
            start <= i <= lines@.len(),
            lv == line_views(lines@),
            lv.len() == lines@.len(),
            count as nat == mined_lines_from(lv, i as int),
            count <= lines@.len() - i,
        decreases i,
    {
        i = i - 1;
        assert(lv[i as int] == lines@[i as int]@);
        if is_mined_block_line_exec(lines[i].as_str()) {
            count = count + 1;
        }
    }
    count
}

/// Position of the first space or newline.
pub open spec fn stop_index(s: Seq<char>) -> Option<nat>
    decreases s.len(),
{
    if s.len() == 0 {
        None
    } else if s[0] == ' ' || s[0] == '\n' {
        Some(0)
    } else {
        match stop_index(s.drop_first()) {
            Some(k) => Some(k + 1),
            None => None,
        }
    }
}

/// The `diff=` value of a sealing line: the text after `diff=` up to the
/// first space or newline, read as a decimal `u64`.
pub open spec fn line_difficulty(l: Seq<char>) -> Option<nat> {
    match first_occurrence(l, "diff="@) {
        None => None,
        Some(p) => {
            let rest = l.subrange(p + 5, l.len() as int);
            match stop_index(rest) {
                Some(e) => match parse_unsigned(rest.subrange(0, e as int), 10, u64::MAX as nat) {
                    Ok(n) => Some(n),
                    Err(_) => None,
                },
                None => None,
            }
        },
    }
}

fn stop_index_exec(rest: &[char]) -> (res: Option<usize>)
    ensures
        match stop_index(rest@) {
            Some(k) => res matches Some(r) && r as nat == k,
            None => res is None,
        },
        res matches Some(k) ==> k < rest@.len(),
{
    assert(rest@.subrange(0, rest@.len() as int) =~= rest@);
    let mut j: usize = 0;
    while j < rest.len()
        invariant
            0 <= j <= rest@.len(),
            stop_index(rest@) == match stop_index(rest@.subrange(j as int, rest@.len() as int)) {
                Some(k) => Some((j + k) as nat),
                None => None::<nat>,
            },
        decreases rest@.len() - j,
    {
        let ghost r = rest@.subrange(j as int, rest@.len() as int);
        assert(r[0] == rest@[j as int]);
        if rest[j] == ' ' || rest[j] == '\n' {
            return Some(j);
        }
        assert(r.drop_first() =~= rest@.subrange(j + 1, rest@.len() as int));
        j = j + 1;
    }
    assert(rest@.subrange(j as int, rest@.len() as int).len() == 0);
    None
}

/// The difficulty a sealing line names, or `default` when it names none.
#[verifier::rlimit(40)]
pub fn sealed_block_difficulty(line: &str, default: u64) -> (res: u64)
    ensures
        res as nat == match line_difficulty(line@) {
            Some(n) => n,
            None => default as nat,
        },
{
    let c = chars_of(line);
    proof {
        reveal_strlit("diff=");
    }
    let p = match find_chars(&c, &lit("diff=")) {
        Some(p) => p,
        None => {
            return default;
        },
    };
    let clen = c.len();
    assert(occurs_at(c@, "diff="@, p as int));
    assert(p + 5 <= clen);
    assert(first_occurrence(line@, "diff="@) == Some(p as int));
    let rest = slice_chars(&c, p + 5, c.len());
    assert(rest@ == line@.subrange(p + 5, line@.len() as int));
    let e = match stop_index_exec(&rest) {
        Some(e) => e,
        None => {
            return default;
        },
    };
    let digits = slice_chars(&rest, 0, e);
    match parse_unsigned_exec(&digits, 10, u64::MAX as u128) {
        Ok(v) => v as u64,
        Err(_) => default,
    }
}

/// The last `n` lines, in order.
pub fn tail_lines(all: Vec<String>, n: usize) -> (res: Vec<String>)
    ensures
        res@ == all@.subrange(tail_start(all@.len(), n as nat) as int, all@.len() as int),
{
    let start = if all.len() > n {
        all.len() - n
    } else {
        0
    };
    let mut out: Vec<String> = Vec::new();
    let mut all = all;
    let ghost whole = all@;
    // Move the kept lines out from the back, then reverse them.
    let mut rev: Vec<String> = Vec::new();
    while all.len() > start
        invariant
            start <= all@.len() <= whole.len(),
            start == tail_start(whole.len(), n as nat),
            all@ == whole.subrange(0, all@.len() as int),
            rev@.len() == whole.len() - all@.len(),
            forall|k: int| 0 <= k < rev@.len() ==> #[trigger] rev@[k] == whole[whole.len() - 1 - k],
        decreases all@.len(),
    {
        let l = all.pop().unwrap();
        rev.push(l);
    }
    while rev.len() > 0
        invariant
            start == tail_start(whole.len(), n as nat),
            all@.len() == start,
            out@.len() + rev@.len() == whole.len() - start,
            forall|k: int| 0 <= k < rev@.len() ==> #[trigger] rev@[k] == whole[whole.len() - 1 - k],
            forall|k: int| 0 <= k < out@.len() ==> #[trigger] out@[k] == whole[start + k],
        decreases rev@.len(),
    {
        let l = rev.pop().unwrap();
        out.push(l);
    }
    assert(out@ =~= whole.subrange(start as int, whole.len() as int));
    out
}

// ---------------------------------------------------------------------------
// Starting the node
// ---------------------------------------------------------------------------

/// Number of bootstrap nodes in a comma-separated list of enode URLs.
pub fn count_enodes(bootstrap: &str) -> (res: usize)
    ensures
        res == count_matches(bootstrap@, "enode://"@),
{
    let s = chars_of(bootstrap);
    let pat = lit("enode://");
    proof {
        reveal_strlit("enode://");
    }
    let mut i: usize = 0;
    let mut n: usize = 0;
    assert(s@.subrange(0, s@.len() as int) =~= s@);
    while i < s.len()
        invariant
            pat@ == "enode://"@,
            pat@.len() == 8,
            0 <= i <= s@.len(),
            n <= i,
            count_matches(s@, pat@) == n + count_matches(s@.subrange(i as int, s@.len() as int), pat@),
        decreases s@.len() - i,
    {
        let ghost r = s@.subrange(i as int, s@.len() as int);
        if s.len() - i < 8 {
            assert(count_matches(r, pat@) == 0);
            i = s.len();
            assert(s@.subrange(i as int, s@.len() as int).len() == 0);
        } else if matches_at(&s, &pat, i) {
            assert(r.subrange(0, 8) =~= s@.subrange(i as int, i + 8));
            assert(r.subrange(8, r.len() as int) =~= s@.subrange(i + 8, s@.len() as int));
            n = n + 1;
            i = i + 8;
        } else {
            assert(r.subrange(0, 8) =~= s@.subrange(i as int, i + 8));
            assert(r.drop_first() =~= s@.subrange(i + 1, s@.len() as int));
            i = i + 1;
        }
    }
    n
}

/// The bootstrap peers to add: the non-empty entries of a comma-separated
/// list, in order.
pub fn bootstrap_peers(enodes: &str) -> (res: Vec<String>)
    ensures
        res@.map_values(|p: String| p@) == split_on(enodes@, ',').filter(|p: Seq<char>| p.len() > 0),
{
    let s = chars_of(enodes);
    let parts = split_chars(&s, ',');
    let ghost all = split_on(enodes@, ',');
    let mut out: Vec<String> = Vec::new();
    let mut i: usize = 0;
    while i < parts.len()
        invariant
            all == split_on(enodes@, ','),
            parts@.len() == all.len(),
            forall|k: int| 0 <= k < parts@.len() ==> #[trigger] parts@[k]@ == all[k],
            0 <= i <= parts@.len(),
            out@.map_values(|p: String| p@) == all.take(i as int).filter(|p: Seq<char>| p.len() > 0),
        decreases parts@.len() - i,
    {
        proof {
            reveal_with_fuel(Seq::<_>::filter, 1);
            assert(all.take(i + 1 as int).drop_last() =~= all.take(i as int));
        }
        if parts[i].len() > 0 {
            let ghost before = out@.map_values(|p: String| p@);
            let p = string_from_chars(parts[i].as_slice());
            out.push(p);
            assert(out@.map_values(|p: String| p@) =~= before.push(all[i as int]));
        } else {
            assert(out@.map_values(|p: String| p@) =~= all.take(i + 1 as int).filter(|p: Seq<char>| p.len() > 0));
        }
        i = i + 1;
    }
    assert(all.take(all.len() as int) =~= all);
    out
}

/// The command-line arguments Geth is started with.
pub open spec fn geth_args_spec(data_path: Seq<char>, network_id: u64, bootnodes: Seq<char>, miner: Option<Seq<char>>) -> Seq<Seq<char>> {
    seq![
        "--datadir"@, data_path,
        "--networkid"@, decimal(network_id as nat),
        "--bootnodes"@, bootnodes,
        "--http"@,
        "--http.addr"@, "127.0.0.1"@,
        "--http.port"@, "8545"@,
        "--http.api"@, "eth,net,web3,personal,debug,miner,admin,txpool"@,
        "--http.corsdomain"@, "*"@,
        "--syncmode"@, "snap"@,
        "--maxpeers"@, "50"@,
        "--port"@, "30303"@,
        "--nat"@, "any"@,
        "--txpool.globalslots"@, "16384"@,
        "--txpool.globalqueue"@, "4096"@,
        "--txpool.accountslots"@, "64"@,
        "--txpool.accountqueue"@, "128"@,
        "--txpool.pricebump"@, "0"@,
        "--txpool.pricelimit"@, "0"@,
        "--miner.gasprice"@, "0"@,
        "--miner.recommit"@, "500ms"@,
        "--ipcpath"@, "/tmp/chiral-geth.ipc"@,
    ] + match miner {
        Some(m) => seq!["--miner.etherbase"@, m],
        None => Seq::empty(),
    }
}

fn push_arg(args: &mut Vec<String>, a: &str)
    ensures
        final(args)@.map_values(|s: String| s@) == old(args)@.map_values(|s: String| s@).push(a@),
{
    let ghost before = args@.map_values(|s: String| s@);
    args.push(a.to_owned());
    assert(args@.map_values(|s: String| s@) =~= before.push(a@));
}

/// Arguments for starting Geth on a data directory.
pub fn geth_args(data_path: &str, network_id: u64, bootnodes: &str, miner_address: Option<&str>) -> (res: Vec<String>)
    ensures
        res@.map_values(|s: String| s@) == geth_args_spec(
            data_path@,
            network_id,
            bootnodes@,
            match miner_address {
                Some(m) => Some(m@),
                None => None,
            },
        ),
{
    let mut a: Vec<String> = Vec::new();
    let mut nid: Vec<char> = Vec::new();
    push_decimal(&mut nid, network_id as u128);
    assert(nid@ =~= decimal(network_id as nat));
    let nid_s = string_from_chars(&nid);
    push_arg(&mut a, "--datadir");
    push_arg(&mut a, data_path);
    push_arg(&mut a, "--networkid");
    push_arg(&mut a, nid_s.as_str());
    push_arg(&mut a, "--bootnodes");
    push_arg(&mut a, bootnodes);
    push_arg(&mut a, "--http");
    push_arg(&mut a, "--http.addr");
    push_arg(&mut a, "127.0.0.1");
    push_arg(&mut a, "--http.port");
    push_arg(&mut a, "8545");
    push_arg(&mut a, "--http.api");
    push_arg(&mut a, "eth,net,web3,personal,debug,miner,admin,txpool");
    push_arg(&mut a, "--http.corsdomain");
    push_arg(&mut a, "*");
    push_arg(&mut a, "--syncmode");
    push_arg(&mut a, "snap");
    push_arg(&mut a, "--maxpeers");
    push_arg(&mut a, "50");
    push_arg(&mut a, "--port");
    push_arg(&mut a, "30303");
    push_arg(&mut a, "--nat");
    push_arg(&mut a, "any");
    push_arg(&mut a, "--txpool.globalslots");
    push_arg(&mut a, "16384");
    push_arg(&mut a, "--txpool.globalqueue");
    push_arg(&mut a, "4096");
    push_arg(&mut a, "--txpool.accountslots");
    push_arg(&mut a, "64");
    push_arg(&mut a, "--txpool.accountqueue");
    push_arg(&mut a, "128");
    push_arg(&mut a, "--txpool.pricebump");
    push_arg(&mut a, "0");
    push_arg(&mut a, "--txpool.pricelimit");
    push_arg(&mut a, "0");
    push_arg(&mut a, "--miner.gasprice");
    push_arg(&mut a, "0");
    push_arg(&mut a, "--miner.recommit");
    push_arg(&mut a, "500ms");
    push_arg(&mut a, "--ipcpath");
    push_arg(&mut a, "/tmp/chiral-geth.ipc");
    if let Some(m) = miner_address {
        push_arg(&mut a, "--miner.etherbase");
        push_arg(&mut a, m);
    }
    let ghost m = match miner_address {
        Some(m) => Some(m@),
        None => None,
    };
    assert(a@.map_values(|s: String| s@) =~= geth_args_spec(data_path@, network_id, bootnodes@, m));
    a
}

// ---------------------------------------------------------------------------
// Node health and startup
// ---------------------------------------------------------------------------

/// Whether the body of an answer on the RPC port looks like a JSON-RPC
/// result.
pub fn looks_like_rpc_response(body: &str) -> (res: bool)
    ensures
        res == (contains(body@, "\"jsonrpc\""@) && contains(body@, "\"result\""@)),
{
    let c = chars_of(body);
    contains_chars(&c, &lit("\"jsonrpc\"")) && contains_chars(&c, &lit("\"result\""))
}

/// What the data directory needs before the node starts.
#[derive(Debug, Clone, Copy, PartialEq, Eq, Structural)]
pub struct InitPlan {
    /// No chain data yet: initialize from the genesis file.
    pub needs_init: bool,
    /// Chain data of another chain, or corrupted: remove it and initialize again.
    pub needs_reinit: bool,
}

/// Decides whether to initialize the data directory: when it has no chain
/// data, or (again) when the existing data is of another chain or the log
/// reports corruption.
pub fn init_plan(chain_data_exists: bool, chain_id_check: &Result<(), String>, log_corrupted: bool) -> (res: InitPlan)
    ensures
        res.needs_init == !chain_data_exists,
        res.needs_reinit == (chain_data_exists && (chain_id_check is Err || log_corrupted)),
{
    let needs_init = !chain_data_exists;
    let mut needs_reinit = false;
    if !needs_init {
        if chain_id_check.is_err() {
            needs_reinit = true;
        }
        if log_corrupted {
            needs_reinit = true;
        }
    }
    InitPlan { needs_init, needs_reinit }
}

/// Attempts at reaching the RPC endpoint before mining is given up.
pub const MAX_RPC_ATTEMPTS: u32 = 10;

/// The next move while waiting for the node's RPC endpoint.
#[derive(Debug, Clone, Copy, PartialEq, Eq, Structural)]
pub enum WaitStep {
    Ready,
    /// Wait a second and try again; the count of attempts made so far.
    Retry(u32),
    GiveUp,
}

/// After an attempt (the `attempts` before it failed or not): ready when it
/// answered, otherwise retry until `MAX_RPC_ATTEMPTS` attempts have failed.
pub fn readiness_step(answered: bool, attempts: u32) -> (res: WaitStep)
    requires
        attempts < MAX_RPC_ATTEMPTS,
    ensures
        res == if answered {
            WaitStep::Ready
        } else if attempts + 1 >= MAX_RPC_ATTEMPTS {
            WaitStep::GiveUp
        } else {
            WaitStep::Retry((attempts + 1) as u32)
        },
{
    if answered {
        WaitStep::Ready
    } else if attempts + 1 >= MAX_RPC_ATTEMPTS {
        WaitStep::GiveUp
    } else {
        WaitStep::Retry(attempts + 1)
    }
}

/// Whether the node has as many peers as wanted, so that no bootstrap peer
/// needs adding.
pub fn peers_suffice(current_peers: u32, min_peers: u32) -> (res: bool)
    ensures
        res == (current_peers >= min_peers),
{
    current_peers >= min_peers
}

/// When the node has fewer peers than wanted, the bootstrap peers to add.
pub fn reconnect_plan(current_peers: u32, min_peers: u32, healthy_enodes: &str) -> (res: Option<Vec<String>>)
    ensures
        current_peers >= min_peers ==> res is None,
        current_peers < min_peers ==> (res matches Some(v) && v@.map_values(|p: String| p@) == split_on(
            healthy_enodes@,
            ',',
        ).filter(|p: Seq<char>| p.len() > 0)),
{
    if peers_suffice(current_peers, min_peers) {
        None
    } else {
        Some(bootstrap_peers(healthy_enodes))
    }
}

/// A debug line for the node's log.
pub fn mining_log_line(timestamp: &str, message: &str) -> (res: String)
    ensures
        res@ == "INFO ["@ + timestamp@ + "] DEBUG: "@ + message@ + "\n"@,
{
    let mut m = lit("INFO [");
    let t = chars_of(timestamp);
    push_all(&mut m, &t);
    let mid = lit("] DEBUG: ");
    push_all(&mut m, &mid);
    let b = chars_of(message);
    push_all(&mut m, &b);
    let nl = lit("\n");
    push_all(&mut m, &nl);
    string_from_chars(&m)
}

// ---------------------------------------------------------------------------
// Sending value
// ---------------------------------------------------------------------------

/// Gas a plain transfer uses.
pub const TRANSFER_GAS: u128 = 21000;

/// The wallet of the private key must be the sender (compared
/// case-insensitively).
pub fn check_sender(wallet_address: &str, from_address: &str) -> (res: Result<(), String>)
    ensures
        if lower_text(wallet_address@) == lower_text(from_address@) {
            res is Ok
        } else {
            res matches Err(m) && m@ == "Private key doesn't match account. Expected: "@ + from_address@ + ", Got: "@ + wallet_address@
        },
{
    let a = lowercase(wallet_address);
    let b = lowercase(from_address);
    if a == b {
        return Ok(());
    }
    let mut m = lit("Private key doesn't match account. Expected: ");
    let f = chars_of(from_address);
    push_all(&mut m, &f);
    let mid = lit(", Got: ");
    push_all(&mut m, &mid);
    let w = chars_of(wallet_address);
    push_all(&mut m, &w);
    Err(string_from_chars(&m))
}

/// The sender must hold the amount plus the gas of a transfer at the
/// given price; amounts are 256-bit, as the node reports them.
pub fn check_balance(balance_wei: Wide256, amount_wei: u128, gas_price_wei: Wide256) -> (res: Result<(), String>)
    requires
        wide_value(gas_price_wei) * TRANSFER_GAS + amount_wei < wide_limit(),
    ensures
        if wide_value(balance_wei) >= amount_wei + wide_value(gas_price_wei) * TRANSFER_GAS {
            res is Ok
        } else {
            res matches Err(m) && m@ == "Insufficient balance. Have: "@ + decimal(wide_value(balance_wei)) + " wei, Need: "@
                + decimal((amount_wei + wide_value(gas_price_wei) * TRANSFER_GAS) as nat) + " wei (amount: "@ + decimal(amount_wei as nat)
                + " + gas: "@ + decimal((wide_value(gas_price_wei) * TRANSFER_GAS) as nat) + ")"@
        },
{
    let gas_cost = gas_price_wei.times_transfer_gas();
    let total = gas_cost.plus_u128(amount_wei);
    if balance_wei.at_least(total) {
        return Ok(());
    }
    let mut m = lit("Insufficient balance. Have: ");
    push_decimal_wide(&mut m, balance_wei);
    let a = lit(" wei, Need: ");
    push_all(&mut m, &a);
    push_decimal_wide(&mut m, total);
    let b = lit(" wei (amount: ");
    push_all(&mut m, &b);
    push_decimal(&mut m, amount_wei);
    let c = lit(" + gas: ");
    push_all(&mut m, &c);
    push_decimal_wide(&mut m, gas_cost);
    let d = lit(")");
    push_all(&mut m, &d);
    Err(string_from_chars(&m))
}

// ---------------------------------------------------------------------------
// Laws
// ---------------------------------------------------------------------------

/// The endpoint the node's JSON-RPC clients talk to: Geth's HTTP server on
/// the local host, port 8545.
pub open spec fn node_rpc_endpoint() -> Seq<char> {
    "http://127.0.0.1:8545"@
}

/// Law: Geth is started serving JSON-RPC where its clients look for it:
/// its arguments turn on `--http`, and the address after `--http.addr` and
/// the port after `--http.port` make up the clients' endpoint, whatever the
/// data directory, network, bootstrap peers and miner address.
pub proof fn law_geth_serves_client_endpoint(
    data_path: Seq<char>,
    network_id: u64,
    bootnodes: Seq<char>,
    miner: Option<Seq<char>>,
)
    ensures
        ({
            let a = geth_args_spec(data_path, network_id, bootnodes, miner);
            &&& exists|h: int| 0 <= h < a.len() && a[h] == "--http"@
            &&& exists|i: int, j: int|
                0 <= i && i + 1 < a.len() && 0 <= j && j + 1 < a.len() && a[i] == "--http.addr"@ && a[j]
                    == "--http.port"@ && #[trigger] ("http://"@ + a[i + 1] + ":"@ + a[j + 1]) == node_rpc_endpoint()
        }),
{
    let a = geth_args_spec(data_path, network_id, bootnodes, miner);
    reveal_strlit("http://127.0.0.1:8545");
    reveal_strlit("http://");
    reveal_strlit(":");
    reveal_strlit("127.0.0.1");
    reveal_strlit("8545");
    assert(a[6] == "--http"@);
    assert(a[7] == "--http.addr"@);
    assert(a[9] == "--http.port"@);
    assert(a[8] == "127.0.0.1"@);
    assert(a[10] == "8545"@);
    assert("http://"@ + a[8] + ":"@ + a[10] =~= node_rpc_endpoint());
    assert(exists|h: int| 0 <= h < a.len() && a[h] == "--http"@);
    assert(exists|i: int, j: int|
        0 <= i && i + 1 < a.len() && 0 <= j && j + 1 < a.len() && a[i] == "--http.addr"@ && a[j] == "--http.port"@
            && #[trigger] ("http://"@ + a[i + 1] + ":"@ + a[j + 1]) == node_rpc_endpoint()) by {
        assert(("http://"@ + a[7int + 1] + ":"@ + a[9int + 1]) == node_rpc_endpoint());
    }
}

/// Law: a data directory whose marker holds the decimal chain id it was
/// initialized for (as starting the node writes it) validates for that
/// chain, and for no other.
pub proof fn law_marker_validates_own_chain(id: u64, other: u64)
    ensures
        marker_outcome(Some(decimal(id as nat)), id) == Ok::<(), Seq<char>>(()),
        other != id ==> marker_outcome(Some(decimal(id as nat)), other) is Err,
{
    let d = decimal(id as nat);
    lemma_decimal_digits(id as nat);
    assert(is_dec_digit(d[0]));
    assert(is_dec_digit(d.last()));
    assert(trim_start(d) == d);
    assert(trim_end(d) == d);
    lemma_parse_decimal(id as nat, u64::MAX as nat);
}

} // verus!
