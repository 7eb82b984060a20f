//! Walking the chain for an address: blocks it mined, transactions that
//! involve it, and the incremental count of mined blocks.
use vstd::prelude::*;

use crate::registry::Registry;
use crate::rpc::skip_two_bytes;
use crate::text::{
    chars_of, int_error_message, lit, lowercase, parse_unsigned, parse_unsigned_exec, push_all,
    push_int_error_message, string_from_chars, trim_prefix_all, trim_prefix_all_chars,
    lower_text, IntErrorKind,
};

verus! {

/// The members of a block that the scans read, each present when it is a
/// string in the node's answer.
#[derive(Debug)]
pub struct BlockFields {
    pub author: Option<String>,
    pub miner: Option<String>,
    pub hash: Option<String>,
    pub nonce: Option<String>,
    pub difficulty: Option<String>,
    pub timestamp: Option<String>,
    pub number: Option<String>,
}

/// A block mined by the address in question.
#[derive(Debug)]
pub struct MinedBlock {
    pub hash: String,
    pub nonce: Option<String>,
    pub difficulty: Option<String>,
    pub timestamp: u64,
    pub number: u64,
}

pub struct MinedBlockView {
    pub hash: Seq<char>,
    pub nonce: Option<Seq<char>>,
    pub difficulty: Option<Seq<char>>,
    pub timestamp: u64,
    pub number: u64,
}

pub open spec fn opt_text(o: Option<String>) -> Option<Seq<char>> {
    match o {
        Some(s) => Some(s@),
        None => None,
    }
}

impl View for MinedBlock {
    type V = MinedBlockView;

    open spec fn view(&self) -> MinedBlockView {
        MinedBlockView {
            hash: self.hash@,
            nonce: opt_text(self.nonce),
            difficulty: opt_text(self.difficulty),
            timestamp: self.timestamp,
            number: self.number,
        }
    }
}

fn copy_opt(o: &Option<String>) -> (res: Option<String>)
    ensures
        opt_text(res) == opt_text(*o),
{
    match o {
        Some(s) => Some(s.clone()),
        None => None,
    }
}

/// Who mined a block: its `author`, else its `miner`, else nobody, lower-cased.
pub open spec fn block_author(f: &BlockFields) -> Seq<char> {
    lower_text(
        match &f.author {
            Some(a) => a@,
            None => match &f.miner {
                Some(m) => m@,
                None => Seq::empty(),
            },
        },
    )
}

/// A hex number written with any number of leading `0x`, when it reads as a `u64`.
pub open spec fn loose_hex(t: Seq<char>) -> Option<nat> {
    match parse_unsigned(trim_prefix_all(t, "0x"@), 16, u64::MAX as nat) {
        Ok(n) => Some(n),
        Err(_) => None,
    }
}

/// A block member read by `loose_hex`, or the given default.
pub open spec fn loose_hex_or(t: Option<Seq<char>>, default: nat) -> nat {
    match t {
        Some(s) => match loose_hex(s) {
            Some(n) => n,
            None => default,
        },
        None => default,
    }
}

pub fn loose_hex_or_exec(t: &Option<String>, default: u64) -> (res: u64)
    ensures
        res as nat == loose_hex_or(opt_text(*t), default as nat),
{
    match t {
        Some(s) => {
            let sc = chars_of(s.as_str());
            proof {
                reveal_strlit("0x");
            }
            let d = trim_prefix_all_chars(&sc, &lit("0x"));
            match parse_unsigned_exec(&d, 16, u64::MAX as u128) {
                Ok(v) => v as u64,
                Err(_) => default,
            }
        },
        None => default,
    }
}

fn block_author_exec(f: &BlockFields) -> (res: String)
    ensures
        res@ == block_author(f),
{
    let raw: String = match &f.author {
        Some(a) => a.clone(),
        None => match &f.miner {
            Some(m) => m.clone(),
            None => String::new(),
        },
    };
    lowercase(raw.as_str())
}

/// The record of block `n` when `target` (already lower-cased) mined it:
/// the hash (empty when missing), nonce and difficulty as given, and the
/// timestamp and number read as hex (0 and `n` when unreadable).
pub open spec fn mined_record(f: &BlockFields, n: u64, target: Seq<char>) -> Option<MinedBlockView> {
    if block_author(f) == target {
        Some(
            MinedBlockView {
                hash: match opt_text(f.hash) {
                    Some(h) => h,
                    None => Seq::empty(),
                },
                nonce: opt_text(f.nonce),
                difficulty: opt_text(f.difficulty),
                timestamp: loose_hex_or(opt_text(f.timestamp), 0) as u64,
                number: loose_hex_or(opt_text(f.number), n as nat) as u64,
            },
        )
    } else {
        None
    }
}

pub fn mined_block(f: &BlockFields, n: u64, target: &str) -> (res: Option<MinedBlock>)
    ensures
        match mined_record(f, n, target@) {
            Some(r) => res matches Some(b) && b@ == r,
            None => res is None,
        },
{
    let who = block_author_exec(f);
    let t = target.to_owned();
    if who != t {
        return None;
    }
    let hash = match &f.hash {
        Some(h) => h.clone(),
        None => String::new(),
    };
    Some(
        MinedBlock {
            hash,
            nonce: copy_opt(&f.nonce),
            difficulty: copy_opt(&f.difficulty),
            timestamp: loose_hex_or_exec(&f.timestamp, 0),
            number: loose_hex_or_exec(&f.number, n),
        },
    )
}

// ---------------------------------------------------------------------------
// Searching recent blocks
// ---------------------------------------------------------------------------

/// A walk down the chain from a top block to a bottom one collecting the
/// blocks one address mined, stopping early at a limit.
pub struct MinedBlockSearch {
    target: String,
    bottom: u64,
    next: Option<u64>,
    limit: usize,
    found: Vec<MinedBlock>,
}

impl MinedBlockSearch {
    /// The lower-cased address searched for.
    pub closed spec fn target(&self) -> Seq<char> {
        self.target@
    }

    pub closed spec fn bottom(&self) -> u64 {
        self.bottom
    }

    /// The block to look at next, if the walk has not ended.
    pub closed spec fn pending(&self) -> Option<u64> {
        self.next
    }

    pub closed spec fn limit(&self) -> usize {
        self.limit
    }

    /// The blocks found so far, newest first.
    pub closed spec fn found(&self) -> Seq<MinedBlockView> {
        self.found@.map_values(|b: MinedBlock| b@)
    }

    pub closed spec fn wf(&self) -> bool {
        &&& self.found@.len() <= self.limit
        &&& self.next matches Some(n) ==> self.bottom <= n
    }

    /// The last `lookback` blocks below and including `latest`, at most
    /// `limit` of them.
    pub fn recent(miner_address: &str, latest: u64, lookback: u64, limit: usize) -> (res: Self)
        ensures
            res.wf(),
            res.target() == lower_text(miner_address@),
            res.bottom() == if latest >= lookback {
                latest - lookback
            } else {
                0
            },
            res.pending() == Some(latest),
            res.limit() == limit,
            res.found().len() == 0,
    {
        let bottom = if latest >= lookback {
            latest - lookback
        } else {
            0
        };
        MinedBlockSearch { target: lowercase(miner_address), bottom, next: Some(latest), limit, found: Vec::new() }
    }

    /// Blocks `from_block..=to_block`, without a limit.
    pub fn range(miner_address: &str, from_block: u64, to_block: u64) -> (res: Self)
        ensures
            res.wf(),
            res.target() == lower_text(miner_address@),
            res.bottom() == from_block,
            res.pending() == if from_block <= to_block {
                Some(to_block)
            } else {
                None
            },
            res.limit() == usize::MAX,
            res.found().len() == 0,
    {
        let next = if from_block <= to_block {
            Some(to_block)
        } else {
            None
        };
        MinedBlockSearch { target: lowercase(miner_address), bottom: from_block, next, limit: usize::MAX, found: Vec::new() }
    }

    /// The block to fetch next, or `None` when the walk is over (all blocks
    /// seen, or the limit reached).
    pub fn next_block(&self) -> (res: Option<u64>)
        requires
            self.wf(),
        ensures
            res == if self.found().len() >= self.limit() {
                None
            } else {
                self.pending()
            },
    {
        if self.found.len() >= self.limit {
            None
        } else {
            self.next
        }
    }

    /// Takes in the block that `next_block` named (`None` when the node
    /// returned no block) and moves one block down.
    pub fn record(&mut self, fields: Option<&BlockFields>)
        requires
            old(self).wf(),
            old(self).pending() is Some,
            old(self).found().len() < old(self).limit(),
        ensures
            final(self).wf(),
            final(self).target() == old(self).target(),
            final(self).bottom() == old(self).bottom(),
            final(self).limit() == old(self).limit(),
            final(self).pending() == if old(self).pending()->0 > old(self).bottom() {
                Some((old(self).pending()->0 - 1) as u64)
            } else {
                None
            },
            final(self).found() == match fields {
                Some(f) => match mined_record(f, old(self).pending()->0, old(self).target()) {
                    Some(r) => old(self).found().push(r),
                    None => old(self).found(),
                },
                None => old(self).found(),
            },
    {
        let n = self.next.unwrap();
        if let Some(f) = fields {
            if let Some(b) = mined_block(f, n, self.target.as_str()) {
                let ghost before = self.found();
                let ghost bv = b@;
                self.found.push(b);
                assert(self.found() =~= before.push(bv));
            }
        }
        self.next = if n > self.bottom {
            Some(n - 1)
        } else {
            None
        };
    }

    /// The blocks found, newest first.
    pub fn into_found(self) -> (res: Vec<MinedBlock>)
        ensures
            res@.map_values(|b: MinedBlock| b@) == self.found(),
    {
        self.found
    }
}

// ---------------------------------------------------------------------------
// Transactions of an address
// ---------------------------------------------------------------------------

/// Wei moved by a transaction with respect to an address.
#[derive(Debug, Clone, Copy, PartialEq, Eq, Structural)]
pub struct TxFlow {
    pub received_wei: u128,
    pub sent_wei: u128,
}

/// A transaction's value, written in hex with any number of leading `0x`
/// (a missing value reads as `0x0`).
pub open spec fn tx_value(value: Option<Seq<char>>) -> Option<nat> {
    match parse_unsigned(
        trim_prefix_all(
            match value {
                Some(v) => v,
                None => "0x0"@,
            },
            "0x"@,
        ),
        16,
        u128::MAX as nat,
    ) {
        Ok(n) => Some(n),
        Err(_) => None,
    }
}

/// What a transaction brings to and takes from `target` (lower-cased):
/// a positive value counts as received when the lower-cased recipient is the
/// target and as sent when the lower-cased sender is; an unreadable value
/// counts for nothing.
pub open spec fn tx_flow_spec(from: Option<Seq<char>>, to: Option<Seq<char>>, value: Option<Seq<char>>, target: Seq<char>) -> TxFlow {
    let f = lower_text(
        match from {
            Some(s) => s,
            None => Seq::empty(),
        },
    );
    let t = lower_text(
        match to {
            Some(s) => s,
            None => Seq::empty(),
        },
    );
    match tx_value(value) {
        Some(v) => TxFlow {
            received_wei: if t == target && v > 0 {
                v as u128
            } else {
                0
            },
            sent_wei: if f == target && v > 0 {
                v as u128
            } else {
                0
            },
        },
        None => TxFlow { received_wei: 0, sent_wei: 0 },
    }
}

fn lower_or_empty(s: &Option<String>) -> (res: String)
    ensures
        res@ == lower_text(
            match opt_text(*s) {
                Some(v) => v,
                None => Seq::empty(),
            },
        ),
{
    proof {
        reveal_strlit("");
    }
    assert(""@ =~= Seq::<char>::empty());
    match s {
        Some(v) => lowercase(v.as_str()),
        None => lowercase(""),
    }
}

pub fn tx_flow(from: &Option<String>, to: &Option<String>, value: &Option<String>, target: &str) -> (res: TxFlow)
    ensures
        res == tx_flow_spec(opt_text(*from), opt_text(*to), opt_text(*value), target@),
{
    proof {
        reveal_strlit("");
    }
    assert(""@ =~= Seq::<char>::empty());
    let f = lower_or_empty(from);
    let t = lower_or_empty(to);
    let tg = target.to_owned();
    let vtext: Vec<char> = match value {
        Some(v) => chars_of(v.as_str()),
        None => lit("0x0"),
    };
    proof {
        reveal_strlit("0x");
    }
    let digits = trim_prefix_all_chars(&vtext, &lit("0x"));
    match parse_unsigned_exec(&digits, 16, u128::MAX) {
        Ok(v) => TxFlow {
            received_wei: if t == tg && v > 0 {
                v
            } else {
                0
            },
            sent_wei: if f == tg && v > 0 {
                v
            } else {
                0
            },
        },
        Err(_) => TxFlow { received_wei: 0, sent_wei: 0 },
    }
}

/// Whether a block's miner (its `miner` member, lower-cased) is the
/// address (lower-cased).
pub fn block_mined_by(miner: Option<&str>, miner_address: &str) -> (res: bool)
    ensures
        res == (match miner {
            Some(m) => lower_text(m@) == lower_text(miner_address@),
            None => false,
        }),
{
    match miner {
        Some(m) => {
            let a = lowercase(m);
            let b = lowercase(miner_address);
            a == b
        },
        None => false,
    }
}

/// Whether a block's author (its `author`, else `miner`) is the address.
pub fn block_authored_by(f: &BlockFields, miner_address: &str) -> (res: bool)
    ensures
        res == (block_author(f) == lower_text(miner_address@)),
{
    let a = block_author_exec(f);
    let b = lowercase(miner_address);
    a == b
}

// ---------------------------------------------------------------------------
// Walking a range of blocks
// ---------------------------------------------------------------------------

/// Block numbers handed out one at a time, upward or downward, both ends
/// of the range included.
pub struct BlockWalk {
    next: Option<u64>,
    last: u64,
    upward: bool,
}

/// The blocks still to be handed out, in order.
pub open spec fn walk_blocks(next: Option<u64>, last: u64, upward: bool) -> Seq<u64> {
    match next {
        None => Seq::empty(),
        Some(n) => if upward {
            Seq::new((last - n + 1) as nat, |i: int| (n + i) as u64)
        } else {
            Seq::new((n - last + 1) as nat, |i: int| (n - i) as u64)
        },
    }
}

/// The blocks `from..=to`, in the order a walk hands them out.
pub open spec fn range_blocks(from: u64, to: u64, upward: bool) -> Seq<u64> {
    if from <= to {
        if upward {
            walk_blocks(Some(from), to, true)
        } else {
            walk_blocks(Some(to), from, false)
        }
    } else {
        Seq::empty()
    }
}

impl BlockWalk {
    pub closed spec fn wf(&self) -> bool {
        self.next matches Some(n) ==> if self.upward {
            n <= self.last
        } else {
            n >= self.last
        }
    }

    /// The blocks still to be handed out, in order.
    pub closed spec fn remaining(&self) -> Seq<u64> {
        walk_blocks(self.next, self.last, self.upward)
    }

    /// The blocks `from..=to`, lowest first.
    pub fn upward(from: u64, to: u64) -> (res: Self)
        ensures
            res.wf(),
            res.remaining() == range_blocks(from, to, true),
    {
        BlockWalk { next: if from <= to { Some(from) } else { None }, last: to, upward: true }
    }

    /// The blocks `from..=to`, highest first.
    pub fn downward(from: u64, to: u64) -> (res: Self)
        ensures
            res.wf(),
            res.remaining() == range_blocks(from, to, false),
    {
        BlockWalk { next: if from <= to { Some(to) } else { None }, last: from, upward: false }
    }

    /// Hands out the next block.
    pub fn next_block(&mut self) -> (res: Option<u64>)
        requires
            old(self).wf(),
        ensures
            final(self).wf(),
            old(self).remaining().len() == 0 ==> res is None && final(self).remaining() == old(self).remaining(),
            old(self).remaining().len() > 0 ==> res == Some(old(self).remaining()[0])
                && final(self).remaining() == old(self).remaining().drop_first(),
    {
        match self.next {
            None => None,
            Some(n) => {
                let ghost before = self.remaining();
                if self.upward {
                    self.next = if n < self.last { Some(n + 1) } else { None };
                } else {
                    self.next = if n > self.last { Some(n - 1) } else { None };
                }
                assert(self.remaining() =~= before.drop_first());
                Some(n)
            },
        }
    }
}

/// Whether a block the node gave is authored by `target` (no block is not).
pub open spec fn is_authored(b: Option<BlockFields>, target: Seq<char>) -> bool {
    b matches Some(f) && block_author(&f) == target
}

/// A tally after one more block.
pub open spec fn tally_step(m: int, target: Seq<char>, b: Option<BlockFields>) -> int {
    m + if is_authored(b, target) {
        1int
    } else {
        0int
    }
}

/// How many of the blocks are authored by `target`.
pub open spec fn authored_count(target: Seq<char>, blocks: Seq<Option<BlockFields>>) -> nat
    decreases blocks.len(),
{
    if blocks.len() == 0 {
        0
    } else {
        authored_count(target, blocks.drop_last()) + if is_authored(blocks.last(), target) {
            1nat
        } else {
            0nat
        }
    }
}

/// A walk over blocks that counts those authored by an address.
pub struct AuthorTally {
    target: String,
    walk: BlockWalk,
    pending: Option<u64>,
    mined: u64,
    recorded: Ghost<Seq<Option<BlockFields>>>,
}

impl AuthorTally {
    pub closed spec fn wf(&self) -> bool {
        &&& self.walk.wf()
        &&& self.mined == authored_count(self.target@, self.recorded@)
    }

    /// The blocks recorded so far, in turn.
    pub closed spec fn recorded(&self) -> Seq<Option<BlockFields>> {
        self.recorded@
    }

    /// The address, as `str::to_lowercase` gives it.
    pub closed spec fn target(&self) -> Seq<char> {
        self.target@
    }

    /// The block handed out and not yet recorded, if any.
    pub closed spec fn pending(&self) -> Option<u64> {
        self.pending
    }

    /// The blocks after the pending one, in order.
    pub closed spec fn remaining(&self) -> Seq<u64> {
        self.walk.remaining()
    }

    /// Blocks found authored by the address so far.
    pub closed spec fn mined(&self) -> u64 {
        self.mined
    }

    /// A tally over the blocks `from..=to`, lowest first.
    pub fn upward(address: &str, from: u64, to: u64) -> (res: Self)
        ensures
            res.wf(),
            res.target() == lower_text(address@),
            res.pending() is None,
            res.remaining() == range_blocks(from, to, true),
            res.mined() == 0,
            res.recorded() == Seq::<Option<BlockFields>>::empty(),
    {
        AuthorTally {
            target: lowercase(address),
            walk: BlockWalk::upward(from, to),
            pending: None,
            mined: 0,
            recorded: Ghost(Seq::empty()),
        }
    }

    /// The next block to fetch, which becomes pending.
    pub fn next_block(&mut self) -> (res: Option<u64>)
        requires
            old(self).wf(),
        ensures
            final(self).wf(),
            final(self).target() == old(self).target(),
            final(self).mined() == old(self).mined(),
            final(self).recorded() == old(self).recorded(),
            old(self).remaining().len() == 0 ==> res is None && final(self).remaining() == old(self).remaining(),
            old(self).remaining().len() > 0 ==> res == Some(old(self).remaining()[0])
                && final(self).remaining() == old(self).remaining().drop_first(),
            final(self).pending() == res,
    {
        let n = self.walk.next_block();
        self.pending = n;
        n
    }

    /// Records the pending block: its fields, or `None` when the node had
    /// no such block. A block authored by the address is counted.
    pub fn record(&mut self, fields: Option<&BlockFields>)
        requires
            old(self).wf(),
            is_authored(match fields {
                Some(f) => Some(*f),
                None => None,
            }, old(self).target()) ==> old(self).mined() < u64::MAX,
        ensures
            final(self).wf(),
            final(self).target() == old(self).target(),
            final(self).remaining() == old(self).remaining(),
            final(self).pending() is None,
            final(self).mined() == tally_step(old(self).mined() as int, old(self).target(), match fields {
                Some(f) => Some(*f),
                None => None,
            }),
            final(self).recorded() == old(self).recorded().push(match fields {
                Some(f) => Some(*f),
                None => None,
            }),
    {
        let ghost b: Option<BlockFields> = match fields {
            Some(f) => Some(*f),
            None => None,
        };
        let ghost before = self.recorded@;
        if let Some(f) = fields {
            let a = block_author_exec(f);
            assert(is_authored(Some(*f), self.target()) == (a@ == self.target()));
            if a == self.target {
                self.mined = self.mined + 1;
            }
        }
        self.pending = None;
        self.recorded = Ghost(before.push(b));
        assert(self.recorded@.drop_last() =~= before);
    }

    /// Blocks found authored by the address so far: those of the recorded
    /// blocks that it authored.
    pub fn mined_blocks(&self) -> (res: u64)
        requires
            self.wf(),
        ensures
            res == self.mined(),
            res == authored_count(self.target(), self.recorded()),
    {
        self.mined
    }
}

/// Progress of a scan over the whole chain.
#[derive(Debug, Clone, Copy, PartialEq, Eq, Structural)]
pub struct AccurateTotalsProgress {
    pub current_block: u64,
    pub total_blocks: u64,
    pub percentage: u8,
}

/// Direction of a transaction seen from an address.
#[derive(Debug, Clone, Copy, PartialEq, Eq, Structural)]
pub enum TxDirection {
    Sent,
    Received,
}

/// A transaction in an address's history.
#[derive(Debug)]
pub struct TransactionHistoryItem {
    pub hash: String,
    pub from: String,
    pub to: Option<String>,
    /// Wei, as the node wrote it.
    pub value: String,
    pub block_number: u64,
    pub timestamp: u64,
    /// `success`, `failed` or `unknown`.
    pub status: String,
    /// `sent` or `received`.
    pub tx_type: String,
    pub gas_used: Option<String>,
    pub gas_price: Option<String>,
}

/// How a transaction involves `address_lower`: sent when the lower-cased
/// sender is it, else received when the lower-cased recipient is it.
pub open spec fn tx_direction_spec(from: Option<Seq<char>>, to: Option<Seq<char>>, address_lower: Seq<char>) -> Option<TxDirection> {
    let f = lower_text(
        match from {
            Some(s) => s,
            None => Seq::empty(),
        },
    );
    if f == address_lower {
        Some(TxDirection::Sent)
    } else if to matches Some(t) && lower_text(t) == address_lower {
        Some(TxDirection::Received)
    } else {
        None
    }
}

pub fn tx_direction(from: &Option<String>, to: &Option<String>, address_lower: &str) -> (res: Option<TxDirection>)
    ensures
        res == tx_direction_spec(opt_text(*from), opt_text(*to), address_lower@),
{
    proof {
        reveal_strlit("");
    }
    assert(""@ =~= Seq::<char>::empty());
    let f = lower_or_empty(from);
    let a = address_lower.to_owned();
    if f == a {
        return Some(TxDirection::Sent);
    }
    match to {
        Some(t) => {
            let tl = lowercase(t.as_str());
            if tl == a {
                Some(TxDirection::Received)
            } else {
                None
            }
        },
        None => None,
    }
}

/// The status word of a receipt's `status` member.
pub open spec fn receipt_status_spec(status: Option<Seq<char>>) -> Seq<char> {
    match status {
        Some(s) => if s == "0x1"@ {
            "success"@
        } else {
            "failed"@
        },
        None => "unknown"@,
    }
}

pub fn receipt_status(status: Option<&str>) -> (res: String)
    ensures
        res@ == receipt_status_spec(match status {
            Some(s) => Some(s@),
            None => None,
        }),
{
    match status {
        Some(s) => {
            let sc = s.to_owned();
            let one = "0x1".to_owned();
            if sc == one {
                "success".to_owned()
            } else {
                "failed".to_owned()
            }
        },
        None => "unknown".to_owned(),
    }
}

/// Builds the history entry of a transaction that involves the address.
pub fn history_item(
    hash: Option<&str>,
    from: &Option<String>,
    to: &Option<String>,
    value: Option<&str>,
    gas_price: Option<String>,
    direction: TxDirection,
    block_number: u64,
    timestamp: u64,
    receipt_status_text: Option<&str>,
    gas_used: Option<String>,
) -> (res: TransactionHistoryItem)
    ensures
        res.hash@ == (match hash {
            Some(h) => h@,
            None => Seq::<char>::empty(),
        }),
        res.from@ == lower_text(
            match opt_text(*from) {
                Some(v) => v,
                None => Seq::empty(),
            },
        ),
        opt_text(res.to) == (match opt_text(*to) {
            Some(t) => Some(lower_text(t)),
            None => None,
        }),
        res.value@ == (match value {
            Some(v) => v@,
            None => "0x0"@,
        }),
        res.block_number == block_number,
        res.timestamp == timestamp,
        res.status@ == receipt_status_spec(match receipt_status_text {
            Some(s) => Some(s@),
            None => None,
        }),
        res.tx_type@ == (match direction {
            TxDirection::Sent => "sent"@,
            TxDirection::Received => "received"@,
        }),
        opt_text(res.gas_used) == opt_text(gas_used),
        opt_text(res.gas_price) == opt_text(gas_price),
{
    proof {
        reveal_strlit("");
    }
    assert(""@ =~= Seq::<char>::empty());
    let to_lower = match to {
        Some(t) => Some(lowercase(t.as_str())),
        None => None,
    };
    TransactionHistoryItem {
        hash: match hash {
            Some(h) => h.to_owned(),
            None => String::new(),
        },
        from: lower_or_empty(from),
        to: to_lower,
        value: match value {
            Some(v) => v.to_owned(),
            None => "0x0".to_owned(),
        },
        block_number,
        timestamp,
        status: receipt_status(receipt_status_text),
        tx_type: match direction {
            TxDirection::Sent => "sent".to_owned(),
            TxDirection::Received => "received".to_owned(),
        },
        gas_used,
        gas_price,
    }
}

// ---------------------------------------------------------------------------
// Network hash rate window
// ---------------------------------------------------------------------------

/// How many blocks back the block time is measured over, and from which block.
pub fn block_time_window(latest: u64) -> (res: (u64, u64))
    ensures
        res.0 == if latest >= 101 {
            100
        } else if latest >= 1 {
            (latest - 1) as u64
        } else {
            0
        },
        res.1 == latest - res.0,
{
    let below = if latest >= 1 {
        latest - 1
    } else {
        0
    };
    let lookback = if below < 100 {
        below
    } else {
        100
    };
    (lookback, latest - lookback)
}

/// A member of a block, written `0x…`, read as a number (`&s[2..]` as hex).
pub fn prefixed_hex_member(member: Option<&str>, invalid: &str, failed: &str, max: u128) -> (res: Result<u128, String>)
    requires
        member matches Some(m) ==> skip_two_bytes(m@) is Some,
    ensures
        match member {
            None => res matches Err(e) && e@ == invalid@,
            Some(m) => match parse_unsigned(skip_two_bytes(m@)->0, 16, max as nat) {
                Ok(n) => res matches Ok(v) && v as nat == n,
                Err(k) => res matches Err(e) && e@ == failed@ + int_error_message(k),
            },
        },
        res matches Ok(v) ==> v <= max,
{
    let m = match member {
        Some(m) => m,
        None => {
            return Err(invalid.to_owned());
        },
    };
    let mc = chars_of(m);
    let digits = crate::rpc::skip_two_bytes_chars(&mc);
    match parse_unsigned_exec(&digits, 16, max) {
        Ok(v) => Ok(v),
        Err(k) => {
            let mut e = lit(failed);
            push_int_error_message(&mut e, k);
            Err(string_from_chars(&e))
        },
    }
}

// ---------------------------------------------------------------------------
// Incremental count of mined blocks
// ---------------------------------------------------------------------------

/// A pass of the count: the blocks still to look at (`next` up to `end`),
/// the address's count when the pass began, and the blocks found so far.
pub struct CountPass {
    address: String,
    next: Option<u64>,
    end: u64,
    previous_total: u64,
    found: u64,
}

pub struct PassView {
    pub address: Seq<char>,
    pub next: Option<u64>,
    pub end: u64,
    pub previous_total: u64,
    pub found: u64,
}

impl View for CountPass {
    type V = PassView;

    closed spec fn view(&self) -> PassView {
        PassView {
            address: self.address@,
            next: self.next,
            end: self.end,
            previous_total: self.previous_total,
            found: self.found,
        }
    }
}

/// The first block a pass looks at: the one before the current block on a
/// first pass, otherwise the block after the last one scanned.
pub open spec fn pass_start(last_scanned: u64, current_block: u64) -> Option<u64> {
    if last_scanned == 0 {
        Some(if current_block >= 1 { (current_block - 1) as u64 } else { 0 })
    } else if last_scanned < current_block {
        Some((last_scanned + 1) as u64)
    } else {
        None
    }
}

/// Whether one more found block can be counted without overflow.
pub open spec fn room_for_one(c: CounterView, p: PassView) -> bool {
    count_of(c, p.address) < u64::MAX && p.previous_total + p.found < u64::MAX
}

/// One block of a pass looked at: a mined block raises the address's count
/// at once and the pass's tally; the pass moves to the next block.
pub open spec fn pass_step(c: CounterView, p: PassView, mined: bool) -> (CounterView, PassView) {
    let next = match p.next {
        Some(n) => if n < p.end { Some((n + 1) as u64) } else { None },
        None => None,
    };
    if mined {
        (
            CounterView { counts: c.counts.insert(p.address, (count_of(c, p.address) + 1) as u64), ..c },
            PassView { next, found: (p.found + 1) as u64, ..p },
        )
    } else {
        (c, PassView { next, ..p })
    }
}

/// The count a finished pass reports: the count it began with plus the
/// blocks it found.
pub open spec fn pass_total(p: PassView) -> nat {
    (p.previous_total + p.found) as nat
}

impl CountPass {
    /// The next block to look at, if any.
    pub fn next_block(&self) -> (res: Option<u64>)
        ensures
            res == self@.next,
    {
        self.next
    }

    /// The count this pass reports once it has looked at all its blocks.
    pub fn total(&self) -> (res: u64)
        requires
            self@.previous_total + self@.found <= u64::MAX,
        ensures
            res == pass_total(self@),
    {
        self.previous_total + self.found
    }
}

/// Where the last pass stopped, and the running count of mined blocks of
/// each address.
pub struct MinedBlockCounter {
    last_scanned: u64,
    counts: Registry<u64>,
}

pub struct CounterView {
    pub last_scanned: u64,
    pub counts: Map<Seq<char>, u64>,
}

impl View for MinedBlockCounter {
    type V = CounterView;

    closed spec fn view(&self) -> CounterView {
        CounterView { last_scanned: self.last_scanned, counts: self.counts@ }
    }
}

/// The running count of an address (0 when it has none).
pub open spec fn count_of(c: CounterView, address: Seq<char>) -> u64 {
    if c.counts.dom().contains(address) {
        c.counts[address]
    } else {
        0
    }
}

impl MinedBlockCounter {
    pub closed spec fn wf(&self) -> bool {
        self.counts.wf()
    }

    pub fn new() -> (res: Self)
        ensures
            res.wf(),
            res@.last_scanned == 0,
            res@.counts == Map::<Seq<char>, u64>::empty(),
    {
        MinedBlockCounter { last_scanned: 0, counts: Registry::new() }
    }

    /// The running count of an address.
    pub fn count(&self, address: &str) -> (res: u64)
        requires
            self.wf(),
        ensures
            res == count_of(self@, address@),
    {
        match self.counts.get(address) {
            Some(v) => *v,
            None => 0,
        }
    }

    /// Starts a pass up to `current_block` over the blocks not looked at by
    /// earlier passes (the last two blocks on a first pass), remembering the
    /// address's count.
    pub fn begin_pass(&mut self, current_block: u64, address: &str) -> (res: CountPass)
        requires
            old(self).wf(),
        ensures
            final(self).wf(),
            final(self)@.counts == old(self)@.counts,
            final(self)@.last_scanned == current_block,
            res@.address == address@,
            res@.next == pass_start(old(self)@.last_scanned, current_block),
            res@.end == current_block,
            res@.previous_total == count_of(old(self)@, address@),
            res@.found == 0,
    {
        let next = if self.last_scanned == 0 {
            Some(if current_block >= 1 { current_block - 1 } else { 0 })
        } else if self.last_scanned < current_block {
            Some(self.last_scanned + 1)
        } else {
            None
        };
        let previous_total = self.count(address);
        self.last_scanned = current_block;
        CountPass { address: address.to_owned(), next, end: current_block, previous_total, found: 0 }
    }

    /// Whether one more found block can be counted without overflow.
    pub fn has_room(&self, pass: &CountPass) -> (res: bool)
        requires
            self.wf(),
        ensures
            res == room_for_one(self@, pass@),
    {
        self.count(pass.address.as_str()) < u64::MAX && pass.previous_total < u64::MAX - pass.found
    }

    /// Looks at the pass's next block: `mined` tells whether the address
    /// mined it. The running count is returned when it went up.
    pub fn record_block(&mut self, pass: &mut CountPass, mined: bool) -> (res: Option<u64>)
        requires
            old(self).wf(),
            old(pass)@.next is Some,
            mined ==> room_for_one(old(self)@, old(pass)@),
        ensures
            final(self).wf(),
            (final(self)@, final(pass)@) == pass_step(old(self)@, old(pass)@, mined),
            res == if mined {
                Some((count_of(old(self)@, old(pass)@.address) + 1) as u64)
            } else {
                None
            },
    {
        let n = pass.next.unwrap();
        pass.next = if n < pass.end { Some(n + 1) } else { None };
        if mined {
            let total = self.count(pass.address.as_str()) + 1;
            self.counts.insert(pass.address.clone(), total);
            pass.found = pass.found + 1;
            Some(total)
        } else {
            None
        }
    }

    /// Forgets where scanning stopped and all counts.
    pub fn reset(&mut self)
        ensures
            final(self).wf(),
            final(self)@.last_scanned == 0,
            final(self)@.counts == Map::<Seq<char>, u64>::empty(),
    {
        self.last_scanned = 0;
        self.counts = Registry::new();
    }
}

// ---------------------------------------------------------------------------
// Laws
// ---------------------------------------------------------------------------

/// Law: the running counts of mined blocks never go down: storing a new
/// count that is at least the old one leaves every address's count at least
/// where it was.
pub proof fn law_counts_never_decrease(c: CounterView, address: Seq<char>, total: u64)
    requires
        total >= count_of(c, address),
    ensures
        forall|a: Seq<char>|
            count_of(CounterView { counts: c.counts.insert(address, total), ..c }, a) >= #[trigger] count_of(c, a),
{
}

/// The blocks of a pass looked at in turn, each mined or not.
pub open spec fn run_pass(c: CounterView, p: PassView, mined: Seq<bool>) -> (CounterView, PassView)
    decreases mined.len(),
{
    if mined.len() == 0 {
        (c, p)
    } else {
        let (c2, p2) = pass_step(c, p, mined[0]);
        run_pass(c2, p2, mined.drop_first())
    }
}

/// How many of the blocks looked at were mined.
pub open spec fn mined_count(mined: Seq<bool>) -> nat
    decreases mined.len(),
{
    if mined.len() == 0 {
        0
    } else {
        (if mined[0] { 1nat } else { 0nat }) + mined_count(mined.drop_first())
    }
}

/// Law: a pass adds each newly found block once. When the stored count is
/// the pass's starting count plus what it found so far, looking at further
/// blocks of which k were mined leaves the stored count, and the total the
/// pass reports, at that sum plus k; other addresses keep their counts.
pub proof fn law_pass_counts_each_block_once(c: CounterView, p: PassView, mined: Seq<bool>)
    requires
        count_of(c, p.address) == p.previous_total + p.found,
        count_of(c, p.address) + mined_count(mined) <= u64::MAX,
    ensures
        count_of(run_pass(c, p, mined).0, p.address) == p.previous_total + p.found + mined_count(mined),
        pass_total(run_pass(c, p, mined).1) == p.previous_total + p.found + mined_count(mined),
        run_pass(c, p, mined).1.address == p.address,
        forall|a: Seq<char>| a != p.address ==> #[trigger] count_of(run_pass(c, p, mined).0, a) == count_of(c, a),
    decreases mined.len(),
{
    if mined.len() > 0 {
        let (c2, p2) = pass_step(c, p, mined[0]);
        assert(count_of(c2, p.address) == p2.previous_total + p2.found);
        assert forall|a: Seq<char>| a != p.address implies #[trigger] count_of(c2, a) == count_of(c, a) by {}
        law_pass_counts_each_block_once(c2, p2, mined.drop_first());
    }
}

/// Law: two tallies for the same address that were given the same blocks
/// count the same, the number of those blocks the address authored; so the
/// mining-rewards scan and the whole-chain totals scan, walking `0..=current`
/// for the same address over the same chain, count the same blocks.
pub proof fn law_tallies_agree(a: &AuthorTally, b: &AuthorTally)
    requires
        a.wf(),
        b.wf(),
        a.target() == b.target(),
        a.recorded() == b.recorded(),
    ensures
        a.mined() == b.mined(),
        a.mined() == authored_count(a.target(), a.recorded()),
{
}

/// Law: a search never holds more blocks than its limit, and never has a
/// block below its bottom pending.
pub proof fn law_search_bounded(s: &MinedBlockSearch)
    requires
        s.wf(),
    ensures
        s.found().len() <= s.limit(),
        s.pending() matches Some(n) ==> s.bottom() <= n,
{
}

} // verus!
