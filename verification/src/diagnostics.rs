//! The network report that explains why transactions may not propagate:
//! peers, transaction pool, chain id and the connected peers, each section
//! built from what the node answered or from the error it gave.
use vstd::prelude::*;

use crate::text::{chars_of, decimal, push_all, push_decimal, string_from_chars};

verus! {

/// What the report shows of one connected peer.
pub struct PeerSummary {
    /// The peer's client name, when the node gave one as text.
    pub name: Option<String>,
    /// The peer's remote address, when the node gave one as text.
    pub remote_address: Option<String>,
}

/// The pending and queued counts of the transaction pool, each as the text
/// the node gave, when it gave text.
pub struct PoolCounts {
    pub pending: Option<String>,
    pub queued: Option<String>,
}

pub open spec fn text_or(o: Option<String>, fallback: Seq<char>) -> Seq<char> {
    match o {
        Some(s) => s@,
        None => fallback,
    }
}

pub open spec fn peer_count_section(r: Result<u32, String>) -> Seq<char> {
    match r {
        Ok(n) => "Peer count: "@ + decimal(n as nat) + "\n"@ + if n == 0 {
            "⚠️ WARNING: No peers connected! Transactions cannot propagate.\n"@
        } else {
            Seq::empty()
        },
        Err(e) => "Failed to get peer count: "@ + e@ + "\n"@,
    }
}

pub open spec fn pool_section(r: Result<PoolCounts, String>) -> Seq<char> {
    match r {
        Ok(c) => "TxPool: pending="@ + text_or(c.pending, "?"@) + ", queued="@ + text_or(c.queued, "?"@)
            + "\n"@,
        Err(e) => "Failed to get txpool: "@ + e@ + "\n"@,
    }
}

pub open spec fn chain_section(r: Result<u64, String>) -> Seq<char> {
    match r {
        Ok(id) => "Chain ID: "@ + decimal(id as nat) + "\n"@,
        Err(e) => "Failed to get chain ID: "@ + e@ + "\n"@,
    }
}

pub open spec fn peer_line(p: PeerSummary) -> Seq<char> {
    "  - "@ + text_or(p.name, "unknown"@) + " at "@ + text_or(p.remote_address, "?"@) + "\n"@
}

pub open spec fn peer_lines(ps: Seq<PeerSummary>) -> Seq<char>
    decreases ps.len(),
{
    if ps.len() == 0 {
        Seq::empty()
    } else {
        peer_lines(ps.drop_last()) + peer_line(ps.last())
    }
}

/// `Ok(None)`: the node's answer was not a list of peers, and the section
/// stays empty.
pub open spec fn peers_section(r: Result<Option<Vec<PeerSummary>>, String>) -> Seq<char> {
    match r {
        Ok(Some(ps)) => "Connected peers details ("@ + decimal(ps@.len()) + "):\n"@ + peer_lines(ps@),
        Ok(None) => Seq::empty(),
        Err(e) => "Failed to get peer info: "@ + e@ + "\n"@,
    }
}

pub open spec fn network_report_text(
    peer_count: Result<u32, String>,
    pool: Result<PoolCounts, String>,
    chain_id: Result<u64, String>,
    peers: Result<Option<Vec<PeerSummary>>, String>,
) -> Seq<char> {
    peer_count_section(peer_count) + pool_section(pool) + chain_section(chain_id) + peers_section(
        peers,
    )
}

fn push_str(out: &mut Vec<char>, s: &str)
    ensures
        final(out)@ == old(out)@ + s@,
{
    let c = chars_of(s);
    push_all(out, &c);
}

fn push_text_or(out: &mut Vec<char>, o: &Option<String>, fallback: &str)
    ensures
        final(out)@ == old(out)@ + text_or(*o, fallback@),
{
    match o {
        Some(s) => push_str(out, s.as_str()),
        None => push_str(out, fallback),
    }
}

fn push_peer_line(out: &mut Vec<char>, p: &PeerSummary)
    ensures
        final(out)@ == old(out)@ + peer_line(*p),
{
    let ghost start = out@;
    push_str(out, "  - ");
    push_text_or(out, &p.name, "unknown");
    push_str(out, " at ");
    push_text_or(out, &p.remote_address, "?");
    push_str(out, "\n");
    assert(out@ =~= start + peer_line(*p));
}

fn push_peer_count_section(out: &mut Vec<char>, r: &Result<u32, String>)
    ensures
        final(out)@ == old(out)@ + peer_count_section(*r),
{
    let ghost start = out@;
    match r {
        Ok(n) => {
            push_str(out, "Peer count: ");
            push_decimal(out, *n as u128);
            push_str(out, "\n");
            if *n == 0 {
                push_str(out, "⚠️ WARNING: No peers connected! Transactions cannot propagate.\n");
            }
        },
        Err(e) => {
            push_str(out, "Failed to get peer count: ");
            push_str(out, e.as_str());
            push_str(out, "\n");
        },
    }
    assert(out@ =~= start + peer_count_section(*r));
}

fn push_pool_section(out: &mut Vec<char>, r: &Result<PoolCounts, String>)
    ensures
        final(out)@ == old(out)@ + pool_section(*r),
{
    let ghost start = out@;
    match r {
        Ok(c) => {
            push_str(out, "TxPool: pending=");
            push_text_or(out, &c.pending, "?");
            push_str(out, ", queued=");
            push_text_or(out, &c.queued, "?");
            push_str(out, "\n");
        },
        Err(e) => {
            push_str(out, "Failed to get txpool: ");
            push_str(out, e.as_str());
            push_str(out, "\n");
        },
    }
    assert(out@ =~= start + pool_section(*r));
}

fn push_chain_section(out: &mut Vec<char>, r: &Result<u64, String>)
    ensures
        final(out)@ == old(out)@ + chain_section(*r),
{
    let ghost start = out@;
    match r {
        Ok(id) => {
            push_str(out, "Chain ID: ");
            push_decimal(out, *id as u128);
            push_str(out, "\n");
        },
        Err(e) => {
            push_str(out, "Failed to get chain ID: ");
            push_str(out, e.as_str());
            push_str(out, "\n");
        },
    }
    assert(out@ =~= start + chain_section(*r));
}

fn push_peer_lines(out: &mut Vec<char>, ps: &Vec<PeerSummary>)
    ensures
        final(out)@ == old(out)@ + peer_lines(ps@),
{
    let ghost head = out@;
    let mut i: usize = 0;
    while i < ps.len()
        invariant
            0 <= i <= ps@.len(),
            out@ == head + peer_lines(ps@.subrange(0, i as int)),
        decreases ps@.len() - i,
    {
        push_peer_line(out, &ps[i]);
        assert(ps@.subrange(0, i + 1 as int).drop_last() =~= ps@.subrange(0, i as int));
        assert(ps@.subrange(0, i + 1 as int).last() == ps@[i as int]);
        assert(out@ =~= head + peer_lines(ps@.subrange(0, i + 1 as int)));
        i = i + 1;
    }
    assert(ps@.subrange(0, ps@.len() as int) =~= ps@);
}

fn push_peers_section(out: &mut Vec<char>, r: &Result<Option<Vec<PeerSummary>>, String>)
    ensures
        final(out)@ == old(out)@ + peers_section(*r),
{
    let ghost start = out@;
    match r {
        Ok(Some(ps)) => {
            push_str(out, "Connected peers details (");
            push_decimal(out, ps.len() as u128);
            push_str(out, "):\n");
            push_peer_lines(out, ps);
        },
        Ok(None) => {},
        Err(e) => {
            push_str(out, "Failed to get peer info: ");
            push_str(out, e.as_str());
            push_str(out, "\n");
        },
    }
    assert(out@ =~= start + peers_section(*r));
}

/// The network report, section by section from the four answers.
pub fn network_report(
    peer_count: &Result<u32, String>,
    pool: &Result<PoolCounts, String>,
    chain_id: &Result<u64, String>,
    peers: &Result<Option<Vec<PeerSummary>>, String>,
) -> (res: String)
    ensures
        res@ == network_report_text(*peer_count, *pool, *chain_id, *peers),
{
    let mut out: Vec<char> = Vec::new();
    push_peer_count_section(&mut out, peer_count);
    push_pool_section(&mut out, pool);
    push_chain_section(&mut out, chain_id);
    push_peers_section(&mut out, peers);
    assert(out@ =~= network_report_text(*peer_count, *pool, *chain_id, *peers));
    string_from_chars(&out)
}

/// Law: the report warns that no peers are connected exactly when the
/// node reports zero peers; with one peer or more the peer section is only
/// the count, and the rest of the report follows it unchanged.
pub proof fn law_warning_only_without_peers(
    n: u32,
    pool: Result<PoolCounts, String>,
    chain_id: Result<u64, String>,
    peers: Result<Option<Vec<PeerSummary>>, String>,
)
    ensures
        n > 0 ==> peer_count_section(Ok::<u32, String>(n)) == "Peer count: "@ + decimal(n as nat) + "\n"@,
        n > 0 ==> network_report_text(Ok::<u32, String>(n), pool, chain_id, peers) == "Peer count: "@ + decimal(n as nat)
            + "\n"@ + pool_section(pool) + chain_section(chain_id) + peers_section(peers),
        n == 0 ==> peer_count_section(Ok::<u32, String>(n)) == "Peer count: "@ + decimal(0) + "\n"@
            + "⚠️ WARNING: No peers connected! Transactions cannot propagate.\n"@,
{
    assert(Seq::<char>::empty() + Seq::<char>::empty() =~= Seq::<char>::empty());
    if n > 0 {
        let a = "Peer count: "@ + decimal(n as nat) + "\n"@;
        assert(a + Seq::<char>::empty() =~= a);
    }
}

} // verus!
