//! The course of one ed2k transfer, as steps: which chunk to fetch next,
//! when to stop because the download was paused or cancelled, what a
//! received chunk changes, and when the file is complete. Fetching chunks
//! and writing the file are left to the caller.
use vstd::prelude::*;

use crate::ed2k_handler::{
    DownloadStatus, DownloadView, Ed2kProtocolHandler, HandlerView, ResumePlan, with_status,
};
use crate::ed2k_link::{calculate_chunks, chunk_count, chunk_of, concat_all, law_chunks_cover_file, sha256_chunk_hexes, normalized_sha256, verify_chunk_integrity, Ed2kFileInfo, ED2K_CHUNK_SIZE};
use crate::hashing::sha256_digest;
use crate::text::{
    hex_lower, hex_quantity, lemma_hex_lower_shape, lemma_lower_hex_fixed, push_hex_quantity, string_from_chars,
};

verus! {

/// What a transfer does next.
#[derive(Debug)]
pub enum TransferStep {
    /// Fetch this chunk; `expected_md4` is the chunk hash asked for.
    Fetch { chunk_index: usize, expected_md4: String },
    /// All chunks are in: write the file.
    Write,
    /// The download was paused or cancelled: stop here.
    Stop,
}

/// A transfer in progress.
pub struct Transfer {
    id: String,
    file_hash: String,
    file_size: u64,
    output_path: String,
    next_chunk: usize,
    total_chunks: usize,
    data: Vec<u8>,
    expected_hashes: Vec<String>,
    resumed: bool,
}

pub struct TransferView {
    pub id: Seq<char>,
    pub file_hash: Seq<char>,
    pub file_size: u64,
    pub output_path: Seq<char>,
    pub next_chunk: usize,
    pub total_chunks: usize,
    pub data: Seq<u8>,
    pub expected_hashes: Seq<Seq<char>>,
    pub resumed: bool,
}

impl View for Transfer {
    type V = TransferView;

    closed spec fn view(&self) -> TransferView {
        TransferView {
            id: self.id@,
            file_hash: self.file_hash@,
            file_size: self.file_size,
            output_path: self.output_path@,
            next_chunk: self.next_chunk,
            total_chunks: self.total_chunks,
            data: self.data@,
            expected_hashes: self.expected_hashes@.map_values(|s: String| s@),
            resumed: self.resumed,
        }
    }
}

/// The chunk hash a fetch asks for: the chunk's index in hex, padded with
/// zeros to 32 digits (`{:032x}`).
pub open spec fn chunk_md4_text(i: nat) -> Seq<char> {
    let h = hex_quantity(i);
    if h.len() < 32 {
        Seq::new((32 - h.len()) as nat, |k: int| '0') + h
    } else {
        h
    }
}

/// The SHA-256 digest a fresh transfer checks a chunk against ("" when the
/// link brought none).
pub open spec fn expected_chunk_hash(t: TransferView, i: int) -> Seq<char> {
    if 0 <= i < t.expected_hashes.len() {
        t.expected_hashes[i]
    } else {
        Seq::empty()
    }
}

/// Whether a received chunk is accepted: a resumed transfer takes it as it
/// comes, a fresh one when it matches its expected digest (or there is no
/// valid one to match).
pub open spec fn chunk_accepted(t: TransferView, chunk: Seq<u8>) -> bool {
    t.resumed || match normalized_sha256(expected_chunk_hash(t, t.next_chunk as int)) {
        None => true,
        Some(e) => hex_lower(sha256_digest(chunk)) == e,
    }
}

/// The handler after a chunk was accepted: a resumed transfer records the
/// chunk and all data so far with its download.
pub open spec fn after_chunk(h: HandlerView, t: TransferView, data: Seq<u8>) -> HandlerView {
    if t.resumed && h.downloads.dom().contains(t.id) {
        let d = h.downloads[t.id];
        HandlerView {
            downloads: h.downloads.insert(t.id, DownloadView {
                downloaded_chunks: if t.next_chunk < d.downloaded_chunks.len() {
                    d.downloaded_chunks.update(t.next_chunk as int, true)
                } else {
                    d.downloaded_chunks
                },
                partial_data: data,
                ..d
            }),
            ..h
        }
    } else {
        h
    }
}

/// A fresh transfer accepts a chunk whose SHA-256 hex digest is the one
/// listed for the chunk it is at.
proof fn lemma_listed_digest_accepted(t: TransferView, chunk: Seq<u8>)
    requires
        !t.resumed,
        t.next_chunk < t.expected_hashes.len(),
        t.expected_hashes[t.next_chunk as int] == hex_lower(sha256_digest(chunk)),
    ensures
        chunk_accepted(t, chunk),
{
    let h = hex_lower(sha256_digest(chunk));
    lemma_hex_lower_shape(sha256_digest(chunk));
    lemma_lower_hex_fixed(h);
}

/// The transfer after a chunk was accepted: the chunk joins the data and
/// the next chunk is due.
pub open spec fn received(t: TransferView, chunk: Seq<u8>) -> TransferView {
    TransferView { data: t.data + chunk, next_chunk: (t.next_chunk + 1) as usize, ..t }
}

/// The transfer after chunks were accepted in turn.
pub open spec fn run_transfer(t: TransferView, chunks: Seq<Seq<u8>>) -> TransferView
    decreases chunks.len(),
{
    if chunks.len() == 0 {
        t
    } else {
        received(run_transfer(t, chunks.drop_last()), chunks.last())
    }
}

/// The handler after chunks were accepted in turn.
pub open spec fn run_handler(h: HandlerView, t: TransferView, chunks: Seq<Seq<u8>>) -> HandlerView
    decreases chunks.len(),
{
    if chunks.len() == 0 {
        h
    } else {
        let t1 = run_transfer(t, chunks.drop_last());
        after_chunk(run_handler(h, t, chunks.drop_last()), t1, t1.data + chunks.last())
    }
}

/// Every chunk is accepted when it comes in turn.
pub open spec fn all_accepted(t: TransferView, chunks: Seq<Seq<u8>>) -> bool
    decreases chunks.len(),
{
    chunks.len() == 0 || (all_accepted(t, chunks.drop_last()) && chunk_accepted(
        run_transfer(t, chunks.drop_last()),
        chunks.last(),
    ))
}

/// The handler once the file was written: the download's progress says
/// `Completed` with all of its bytes.
pub open spec fn completed(h: HandlerView, t: TransferView) -> HandlerView {
    HandlerView {
        progress: if h.progress.dom().contains(t.id) {
            h.progress.insert(t.id, crate::ed2k_handler::DownloadProgress {
                downloaded_bytes: t.file_size,
                status: DownloadStatus::Completed,
                ..h.progress[t.id]
            })
        } else {
            h.progress
        },
        ..h
    }
}

fn chunk_md4(i: usize) -> (res: String)
    ensures
        res@ == chunk_md4_text(i as nat),
{
    let mut h: Vec<char> = Vec::new();
    push_hex_quantity(&mut h, i as u128);
    assert(h@ =~= hex_quantity(i as nat));
    if h.len() < 32 {
        let mut out: Vec<char> = Vec::new();
        let pad = 32 - h.len();
        let mut k: usize = 0;
        while k < pad
            invariant
                k <= pad,
                out@ == Seq::new(k as nat, |j: int| '0'),
            decreases pad - k,
        {
            out.push('0');
            k = k + 1;
            assert(out@ =~= Seq::new(k as nat, |j: int| '0'));
        }
        let mut j: usize = 0;
        let ghost zeros = out@;
        while j < h.len()
            invariant
                j <= h@.len(),
                out@ == zeros + h@.subrange(0, j as int),
            decreases h@.len() - j,
        {
            out.push(h[j]);
            j = j + 1;
            assert(h@.subrange(0, j as int) == h@.subrange(0, j - 1 as int).push(h@[j - 1]));
        }
        assert(h@.subrange(0, h@.len() as int) == h@);
        string_from_chars(&out)
    } else {
        string_from_chars(&h)
    }
}

impl Transfer {
    /// A fresh transfer of a download just started: all chunks to fetch,
    /// each checked against the link's chunk digests.
    pub fn fresh(id: String, info: Ed2kFileInfo, output_path: String) -> (res: Self)
        requires
            info.file_size + ED2K_CHUNK_SIZE - 1 <= usize::MAX,
        ensures
            res@.id == id@,
            res@.file_hash == info.file_hash@,
            res@.file_size == info.file_size,
            res@.output_path == output_path@,
            res@.next_chunk == 0,
            res@.total_chunks == if info.file_size == 0 {
                1
            } else {
                chunk_count(info.file_size as nat)
            },
            res@.data == Seq::<u8>::empty(),
            res@.expected_hashes == info.chunk_hashes@.map_values(|s: String| s@),
            !res@.resumed,
    {
        let total_chunks = calculate_chunks(info.file_size);
        Transfer {
            id,
            file_hash: info.file_hash,
            file_size: info.file_size,
            output_path,
            next_chunk: 0,
            total_chunks,
            data: Vec::new(),
            expected_hashes: info.chunk_hashes,
            resumed: false,
        }
    }

    /// A transfer picking a download up where its resume plan says.
    pub fn resumed(id: String, plan: ResumePlan) -> (res: Self)
        ensures
            res@.id == id@,
            res@.file_hash == plan.file_hash@,
            res@.file_size == plan.file_size,
            res@.output_path == plan.output_path@,
            res@.next_chunk == plan.start_chunk,
            res@.total_chunks == plan.total_chunks,
            res@.data == plan.partial_data@,
            res@.expected_hashes == Seq::<Seq<char>>::empty(),
            res@.resumed,
    {
        let t = Transfer {
            id,
            file_hash: plan.file_hash,
            file_size: plan.file_size,
            output_path: plan.output_path,
            next_chunk: plan.start_chunk,
            total_chunks: plan.total_chunks,
            data: plan.partial_data,
            expected_hashes: Vec::new(),
            resumed: true,
        };
        assert(t@.expected_hashes =~= Seq::<Seq<char>>::empty());
        t
    }

    pub fn id(&self) -> (res: &str)
        ensures
            res@ == self@.id,
    {
        self.id.as_str()
    }

    pub fn file_hash(&self) -> (res: &str)
        ensures
            res@ == self@.file_hash,
    {
        self.file_hash.as_str()
    }

    pub fn file_size(&self) -> (res: u64)
        ensures
            res == self@.file_size,
    {
        self.file_size
    }

    pub fn output_path(&self) -> (res: &str)
        ensures
            res@ == self@.output_path,
    {
        self.output_path.as_str()
    }

    /// The data received so far.
    pub fn data(&self) -> (res: &Vec<u8>)
        ensures
            res@ == self@.data,
    {
        &self.data
    }

    pub fn is_resumed(&self) -> (res: bool)
        ensures
            res == self@.resumed,
    {
        self.resumed
    }

    /// The next step: write once every chunk is in; otherwise stop when the
    /// download was cancelled or paused (a resumed transfer keeps its data
    /// with the download first), else fetch the next chunk.
    pub fn step(&self, handler: &mut Ed2kProtocolHandler) -> (res: TransferStep)
        requires
            old(handler).wf(),
        ensures
            final(handler).wf(),
            if self@.next_chunk >= self@.total_chunks {
                res is Write && final(handler)@ == old(handler)@
            } else if !old(handler)@.downloads.dom().contains(self@.id) {
                res is Stop && final(handler)@ == old(handler)@
            } else if old(handler)@.downloads[self@.id].is_paused {
                &&& res is Stop
                &&& final(handler)@ == if self@.resumed {
                    HandlerView {
                        downloads: old(handler)@.downloads.insert(
                            self@.id,
                            DownloadView { partial_data: self@.data, ..old(handler)@.downloads[self@.id] },
                        ),
                        ..old(handler)@
                    }
                } else {
                    old(handler)@
                }
            } else {
                &&& res matches TransferStep::Fetch { chunk_index, expected_md4 }
                    && chunk_index == self@.next_chunk && expected_md4@ == chunk_md4_text(self@.next_chunk as nat)
                &&& final(handler)@ == old(handler)@
            },
    {
        if self.next_chunk >= self.total_chunks {
            return TransferStep::Write;
        }
        match handler.check_transfer(self.id.as_str()) {
            crate::ed2k_handler::TaskCheck::Continue => TransferStep::Fetch {
                chunk_index: self.next_chunk,
                expected_md4: chunk_md4(self.next_chunk),
            },
            crate::ed2k_handler::TaskCheck::Paused => {
                if self.resumed {
                    handler.save_partial(self.id.as_str(), &self.data);
                }
                TransferStep::Stop
            },
            crate::ed2k_handler::TaskCheck::Cancelled => TransferStep::Stop,
        }
    }

    /// Takes in the chunk just fetched. A fresh transfer first checks it
    /// against its digest; a mismatch marks the download failed and gives
    /// back the expected and the actual digest. An accepted chunk is added
    /// to the data (and recorded with a resumed download), the transfer
    /// moves to the next chunk, and the bytes received so far come back.
    pub fn receive(&mut self, handler: &mut Ed2kProtocolHandler, chunk: Vec<u8>) -> (res: Result<u64, (String, String)>)
        requires
            old(handler).wf(),
            old(self)@.next_chunk < old(self)@.total_chunks,
        ensures
            final(handler).wf(),
            final(self)@.id == old(self)@.id,
            final(self)@.file_size == old(self)@.file_size,
            final(self)@.total_chunks == old(self)@.total_chunks,
            final(self)@.resumed == old(self)@.resumed,
            !old(self)@.resumed && old(self)@.next_chunk < old(self)@.expected_hashes.len()
                && old(self)@.expected_hashes[old(self)@.next_chunk as int] == hex_lower(sha256_digest(chunk@)) ==> res
                == Ok::<u64, (String, String)>((old(self)@.data.len() + chunk@.len()) as u64),
            if chunk_accepted(old(self)@, chunk@) {
                &&& final(self)@ == received(old(self)@, chunk@)
                &&& final(handler)@ == after_chunk(old(handler)@, old(self)@, old(self)@.data + chunk@)
                &&& res matches Ok(n) && n == old(self)@.data.len() + chunk@.len()
            } else {
                &&& final(self)@ == old(self)@
                &&& final(handler)@ == (HandlerView {
                    progress: with_status(old(handler)@.progress, old(self)@.id, DownloadStatus::Failed),
                    ..old(handler)@
                })
                &&& res matches Err(pair) && pair.0@ == expected_chunk_hash(old(self)@, old(self)@.next_chunk as int)
                    && pair.1@ == hex_lower(sha256_digest(chunk@))
            },
    {
        proof {
            if !self@.resumed && self@.next_chunk < self@.expected_hashes.len()
                && self@.expected_hashes[self@.next_chunk as int] == hex_lower(sha256_digest(chunk@)) {
                lemma_listed_digest_accepted(self@, chunk@);
            }
        }
        if !self.resumed {
            let expected: &str = if self.next_chunk < self.expected_hashes.len() {
                self.expected_hashes[self.next_chunk].as_str()
            } else {
                ""
            };
            proof {
                reveal_strlit("");
                assert(""@ =~= Seq::<char>::empty());
            }
            assert(expected@ == expected_chunk_hash(self@, self@.next_chunk as int));
            match verify_chunk_integrity(expected, chunk.as_slice()) {
                Ok(()) => {},
                Err(pair) => {
                    handler.set_progress_status(self.id.as_str(), DownloadStatus::Failed);
                    return Err(pair);
                },
            }
        }
        let ghost before = self@;
        let mut chunk = chunk;
        self.data.append(&mut chunk);
        if self.resumed {
            handler.record_chunk(self.id.as_str(), self.next_chunk, &self.data);
        }
        self.next_chunk = self.next_chunk + 1;
        assert(self@.expected_hashes == before.expected_hashes);
        Ok(self.data.len() as u64)
    }

    /// Marks the download failed (a chunk could not be fetched, or the file
    /// not written).
    pub fn fail(&self, handler: &mut Ed2kProtocolHandler)
        requires
            old(handler).wf(),
        ensures
            final(handler).wf(),
            final(handler)@ == (HandlerView {
                progress: with_status(old(handler)@.progress, self@.id, DownloadStatus::Failed),
                ..old(handler)@
            }),
    {
        handler.set_progress_status(self.id.as_str(), DownloadStatus::Failed);
    }

    /// Marks the download complete once its file was written.
    pub fn finish(&self, handler: &mut Ed2kProtocolHandler)
        requires
            old(handler).wf(),
        ensures
            final(handler).wf(),
            final(handler)@ == completed(old(handler)@, self@),
    {
        handler.complete_download(self.id.as_str(), self.file_size);
    }
}

/// Law: a transfer that has all its chunks is told to write the file, and
/// finishing it leaves its progress `Completed` with every byte of the file
/// counted, whatever it said before; nothing else in the handler changes.
pub proof fn law_transfer_completes(h: HandlerView, t: TransferView)
    requires
        t.next_chunk >= t.total_chunks,
        h.progress.dom().contains(t.id),
    ensures
        completed(h, t).progress[t.id].status == DownloadStatus::Completed,
        completed(h, t).progress[t.id].downloaded_bytes == t.file_size,
        completed(h, t).progress[t.id].total_bytes == h.progress[t.id].total_bytes,
        completed(h, t).downloads == h.downloads,
        completed(h, t).seeding == h.seeding,
        forall|k: Seq<char>| k != t.id ==> #[trigger] completed(h, t).progress.dom().contains(k) == h.progress.dom().contains(k),
{
}

/// Law: a transfer that is neither paused nor cancelled, whose chunks all
/// arrive and are accepted, is asked for each chunk in turn, ends with its
/// data followed by the chunks in order and no chunk left (so it is told to
/// write the file), and once finished its download reads `Completed` with
/// every byte of the file; the handler's progress is untouched before that.
pub proof fn law_transfer_runs_to_completion(h: HandlerView, t: TransferView, chunks: Seq<Seq<u8>>)
    requires
        h.downloads.dom().contains(t.id),
        !h.downloads[t.id].is_paused,
        h.progress.dom().contains(t.id),
        t.next_chunk + chunks.len() == t.total_chunks,
        all_accepted(t, chunks),
    ensures
        forall|k: int| 0 <= k < chunks.len() ==> {
            let hk = #[trigger] run_handler(h, t, chunks.take(k));
            &&& hk.downloads.dom().contains(t.id)
            &&& !hk.downloads[t.id].is_paused
            &&& run_transfer(t, chunks.take(k)).next_chunk == t.next_chunk + k
            &&& run_transfer(t, chunks.take(k)).next_chunk < t.total_chunks
        },
        run_transfer(t, chunks).data == t.data + concat_all(chunks),
        run_transfer(t, chunks).next_chunk == t.total_chunks,
        run_handler(h, t, chunks).progress == h.progress,
        completed(run_handler(h, t, chunks), run_transfer(t, chunks)).progress[t.id].status == DownloadStatus::Completed,
        completed(run_handler(h, t, chunks), run_transfer(t, chunks)).progress[t.id].downloaded_bytes == t.file_size,
{
    lemma_run(h, t, chunks);
    assert forall|k: int| 0 <= k < chunks.len() implies {
        let hk = #[trigger] run_handler(h, t, chunks.take(k));
        &&& hk.downloads.dom().contains(t.id)
        &&& !hk.downloads[t.id].is_paused
        &&& run_transfer(t, chunks.take(k)).next_chunk == t.next_chunk + k
        &&& run_transfer(t, chunks.take(k)).next_chunk < t.total_chunks
    } by {
        lemma_prefix_accepted(t, chunks, k);
        lemma_run(h, t, chunks.take(k));
    }
}

proof fn lemma_run_transfer(t: TransferView, chunks: Seq<Seq<u8>>)
    requires
        t.next_chunk + chunks.len() <= usize::MAX,
    ensures
        run_transfer(t, chunks).next_chunk == t.next_chunk + chunks.len(),
        run_transfer(t, chunks).expected_hashes == t.expected_hashes,
        run_transfer(t, chunks).resumed == t.resumed,
        run_transfer(t, chunks).data == t.data + concat_all(chunks),
    decreases chunks.len(),
{
    if chunks.len() > 0 {
        lemma_run_transfer(t, chunks.drop_last());
        assert(t.data + concat_all(chunks.drop_last()) + chunks.last() =~= t.data + concat_all(chunks));
    }
}

/// Law: a fresh transfer checks each chunk against the digest listed for
/// that same chunk: chunks that arrive in turn, each with the SHA-256 hex
/// digest listed at its own position, are all accepted.
pub proof fn law_listed_chunks_accepted(t: TransferView, chunks: Seq<Seq<u8>>)
    requires
        !t.resumed,
        t.next_chunk + chunks.len() <= t.expected_hashes.len(),
        t.next_chunk + chunks.len() <= usize::MAX,
        forall|i: int| 0 <= i < chunks.len() ==> t.expected_hashes[t.next_chunk + i] == hex_lower(
            sha256_digest(#[trigger] chunks[i]),
        ),
    ensures
        all_accepted(t, chunks),
    decreases chunks.len(),
{
    if chunks.len() > 0 {
        let p = chunks.drop_last();
        assert forall|i: int| 0 <= i < p.len() implies t.expected_hashes[t.next_chunk + i] == hex_lower(
            sha256_digest(#[trigger] p[i]),
        ) by {
            assert(p[i] == chunks[i]);
        }
        law_listed_chunks_accepted(t, p);
        lemma_run_transfer(t, p);
        let t1 = run_transfer(t, p);
        assert(chunks[chunks.len() - 1] == chunks.last());
        lemma_listed_digest_accepted(t1, chunks.last());
    }
}

/// Law: the chunks of a file, fetched in turn by a fresh transfer that
/// lists the digests `generate_ed2k_link` gives for that file, are all
/// accepted, and the transfer ends holding exactly the file.
pub proof fn law_file_chunks_download(t: TransferView, data: Seq<u8>)
    requires
        !t.resumed,
        t.next_chunk == 0,
        t.data == Seq::<u8>::empty(),
        t.expected_hashes == sha256_chunk_hexes(data),
        chunk_count(data.len()) <= usize::MAX,
    ensures
        all_accepted(t, Seq::new(chunk_count(data.len()), |i: int| chunk_of(data, i))),
        run_transfer(t, Seq::new(chunk_count(data.len()), |i: int| chunk_of(data, i))).data == data,
{
    let chunks = Seq::new(chunk_count(data.len()), |i: int| chunk_of(data, i));
    law_listed_chunks_accepted(t, chunks);
    lemma_run_transfer(t, chunks);
    law_chunks_cover_file(data);
    assert(Seq::<u8>::empty() + concat_all(chunks) =~= concat_all(chunks));
}

proof fn lemma_prefix_accepted(t: TransferView, chunks: Seq<Seq<u8>>, k: int)
    requires
        all_accepted(t, chunks),
        0 <= k <= chunks.len(),
    ensures
        all_accepted(t, chunks.take(k)),
    decreases chunks.len(),
{
    if k < chunks.len() {
        assert(chunks.drop_last().take(k) =~= chunks.take(k));
        lemma_prefix_accepted(t, chunks.drop_last(), k);
    } else {
        assert(chunks.take(k) =~= chunks);
    }
}

proof fn lemma_run(h: HandlerView, t: TransferView, chunks: Seq<Seq<u8>>)
    requires
        h.downloads.dom().contains(t.id),
        !h.downloads[t.id].is_paused,
        t.next_chunk + chunks.len() <= usize::MAX,
    ensures
        run_handler(h, t, chunks).downloads.dom().contains(t.id),
        !run_handler(h, t, chunks).downloads[t.id].is_paused,
        run_handler(h, t, chunks).progress == h.progress,
        run_transfer(t, chunks).data == t.data + concat_all(chunks),
        run_transfer(t, chunks).next_chunk == t.next_chunk + chunks.len(),
        run_transfer(t, chunks).id == t.id,
        run_transfer(t, chunks).file_size == t.file_size,
        run_transfer(t, chunks).resumed == t.resumed,
        run_transfer(t, chunks).total_chunks == t.total_chunks,
    decreases chunks.len(),
{
    if chunks.len() > 0 {
        lemma_run(h, t, chunks.drop_last());
        assert(t.data + concat_all(chunks.drop_last()) + chunks.last() =~= t.data + concat_all(chunks));
    }
}

} // verus!
