//! Bookkeeping of the ed2k protocol handler: active downloads, their
//! progress and the files being seeded. The network work (server
//! connection, chunk transfer, file writes) is done by the caller, which
//! reports each step back here.
use vstd::prelude::*;

use crate::ed2k_link::{
    calculate_chunks, chunk_count, is_ed2k_file_link, link_error, link_fields, parse_ed2k_link,
    Ed2kFileInfo, ProtocolError, ED2K_CHUNK_SIZE,
};
use crate::registry::Registry;
use crate::text::{lit, parse_unsigned, starts_with, IntErrorKind};

verus! {

/// Phase of a download.
#[derive(Debug, Clone, Copy, PartialEq, Eq, Structural)]
pub enum DownloadStatus {
    FetchingMetadata,
    Downloading,
    Paused,
    Completed,
    Failed,
    Cancelled,
}

/// Progress of a download as the handler tracks it.
#[derive(Debug, Clone, Copy, PartialEq, Eq, Structural)]
pub struct DownloadProgress {
    pub downloaded_bytes: u64,
    pub total_bytes: u64,
    pub eta_seconds: Option<u64>,
    pub active_peers: u32,
    pub status: DownloadStatus,
}

impl View for DownloadProgress {
    type V = DownloadProgress;

    open spec fn view(&self) -> DownloadProgress {
        *self
    }
}

/// What starting a download hands back.
#[derive(Debug)]
pub struct DownloadHandle {
    pub identifier: String,
    pub protocol: String,
    pub started_at: u64,
}

/// A file being seeded.
#[derive(Debug)]
pub struct SeedingInfo {
    pub identifier: String,
    pub file_path: String,
    pub protocol: String,
    pub active_peers: u32,
    pub bytes_uploaded: u64,
}

pub struct SeedingView {
    pub identifier: Seq<char>,
    pub file_path: Seq<char>,
    pub protocol: Seq<char>,
    pub active_peers: u32,
    pub bytes_uploaded: u64,
}

impl View for SeedingInfo {
    type V = SeedingView;

    open spec fn view(&self) -> SeedingView {
        SeedingView {
            identifier: self.identifier@,
            file_path: self.file_path@,
            protocol: self.protocol@,
            active_peers: self.active_peers,
            bytes_uploaded: self.bytes_uploaded,
        }
    }
}

impl SeedingInfo {
    /// A copy of the record.
    pub fn duplicate(&self) -> (res: SeedingInfo)
        ensures
            res@ == self@,
    {
        SeedingInfo {
            identifier: self.identifier.clone(),
            file_path: self.file_path.clone(),
            protocol: self.protocol.clone(),
            active_peers: self.active_peers,
            bytes_uploaded: self.bytes_uploaded,
        }
    }
}

/// What the protocol offers.
#[derive(Debug, Clone, Copy, PartialEq, Eq, Structural)]
pub struct ProtocolCapabilities {
    pub supports_seeding: bool,
    pub supports_pause_resume: bool,
    pub supports_multi_source: bool,
    pub supports_encryption: bool,
    pub supports_dht: bool,
}

/// Client settings.
pub struct Ed2kConfig {
    pub server_url: String,
}

/// State of one download.
pub struct Ed2kDownloadState {
    pub file_hash: String,
    pub file_size: u64,
    pub output_path: String,
    pub started_at: u64,
    pub status: DownloadStatus,
    pub is_paused: bool,
    /// Which chunks have been received, for resuming.
    pub downloaded_chunks: Vec<bool>,
    /// Data received so far.
    pub partial_data: Vec<u8>,
}

pub struct DownloadView {
    pub file_hash: Seq<char>,
    pub file_size: u64,
    pub output_path: Seq<char>,
    pub started_at: u64,
    pub status: DownloadStatus,
    pub is_paused: bool,
    pub downloaded_chunks: Seq<bool>,
    pub partial_data: Seq<u8>,
}

impl View for Ed2kDownloadState {
    type V = DownloadView;

    open spec fn view(&self) -> DownloadView {
        DownloadView {
            file_hash: self.file_hash@,
            file_size: self.file_size,
            output_path: self.output_path@,
            started_at: self.started_at,
            status: self.status,
            is_paused: self.is_paused,
            downloaded_chunks: self.downloaded_chunks@,
            partial_data: self.partial_data@,
        }
    }
}

/// Where a resumed download picks up.
#[derive(Debug)]
pub struct ResumePlan {
    pub file_hash: String,
    pub file_size: u64,
    pub output_path: String,
    pub start_chunk: usize,
    pub total_chunks: usize,
    pub partial_data: Vec<u8>,
}

/// What a running transfer finds when it looks at its download.
#[derive(Debug, Clone, Copy, PartialEq, Eq, Structural)]
pub enum TaskCheck {
    Continue,
    Paused,
    Cancelled,
}

/// The handler's state: downloads, their progress and seeded files, each
/// keyed by identifier.
pub struct HandlerView {
    pub downloads: Map<Seq<char>, DownloadView>,
    pub progress: Map<Seq<char>, DownloadProgress>,
    pub seeding: Map<Seq<char>, SeedingView>,
}

// ---------------------------------------------------------------------------
// Transitions
// ---------------------------------------------------------------------------

/// File size written in a well-formed link.
pub open spec fn link_size(link: Seq<char>) -> nat {
    match parse_unsigned(link_fields(link)[3], 10, u64::MAX as nat) {
        Ok(n) => n,
        Err(_) => 0,
    }
}

/// A download of the link can be tracked in memory: its chunk count fits.
pub open spec fn link_size_fits(link: Seq<char>) -> bool {
    link_error(link) is None ==> link_size(link) + ED2K_CHUNK_SIZE - 1 <= usize::MAX
}

/// Chunks a download of `size` bytes is tracked in.
pub open spec fn tracked_chunks(size: nat) -> nat {
    if size == 0 {
        1
    } else {
        chunk_count(size)
    }
}

/// Progress with its status replaced, when there is progress for `id`.
pub open spec fn with_status(p: Map<Seq<char>, DownloadProgress>, id: Seq<char>, st: DownloadStatus) -> Map<Seq<char>, DownloadProgress> {
    if p.dom().contains(id) {
        p.insert(id, DownloadProgress { status: st, ..p[id] })
    } else {
        p
    }
}

/// Starting a download of a file with the given hash and size.
pub open spec fn start_view(v: HandlerView, id: Seq<char>, size: u64, output_path: Seq<char>, started_at: u64) -> HandlerView {
    HandlerView {
        downloads: v.downloads.insert(
            id,
            DownloadView {
                file_hash: id,
                file_size: size,
                output_path,
                started_at,
                status: DownloadStatus::Downloading,
                is_paused: false,
                downloaded_chunks: Seq::new(tracked_chunks(size as nat), |i: int| false),
                partial_data: Seq::empty(),
            },
        ),
        progress: v.progress.insert(
            id,
            DownloadProgress {
                downloaded_bytes: 0,
                total_bytes: size,
                eta_seconds: None,
                active_peers: 0,
                status: DownloadStatus::FetchingMetadata,
            },
        ),
        seeding: v.seeding,
    }
}

/// Pausing a known download.
pub open spec fn pause_view(v: HandlerView, id: Seq<char>) -> HandlerView {
    HandlerView {
        downloads: v.downloads.insert(id, DownloadView { is_paused: true, status: DownloadStatus::Paused, ..v.downloads[id] }),
        progress: with_status(v.progress, id, DownloadStatus::Paused),
        seeding: v.seeding,
    }
}

/// Resuming a known download.
pub open spec fn resume_view(v: HandlerView, id: Seq<char>) -> HandlerView {
    HandlerView {
        downloads: v.downloads.insert(id, DownloadView { is_paused: false, status: DownloadStatus::Downloading, ..v.downloads[id] }),
        progress: with_status(v.progress, id, DownloadStatus::Downloading),
        seeding: v.seeding,
    }
}

/// Cancelling a known download.
pub open spec fn cancel_view(v: HandlerView, id: Seq<char>) -> HandlerView {
    HandlerView {
        downloads: v.downloads.remove(id),
        progress: with_status(v.progress, id, DownloadStatus::Cancelled),
        seeding: v.seeding,
    }
}

/// The seeding record of a link.
pub open spec fn seed_record(link: Seq<char>, file_path: Seq<char>) -> SeedingView {
    SeedingView { identifier: link, file_path, protocol: "ed2k"@, active_peers: 0, bytes_uploaded: 0 }
}

/// Index of the first chunk not yet received, or the chunk count.
pub open spec fn first_incomplete(c: Seq<bool>) -> nat
    decreases c.len(),
{
    if c.len() == 0 || !c[0] {
        0
    } else {
        1 + first_incomplete(c.drop_first())
    }
}

/// Every tracked download's size fits the chunk arithmetic.
pub open spec fn downloads_fit(m: Map<Seq<char>, DownloadView>) -> bool {
    forall|k: Seq<char>| #[trigger] m.dom().contains(k) ==> m[k].file_size + ED2K_CHUNK_SIZE - 1 <= usize::MAX
}

/// Every seeding record is stored under its own identifier.
pub open spec fn seeding_keyed(m: Map<Seq<char>, SeedingView>) -> bool {
    forall|k: Seq<char>| #[trigger] m.dom().contains(k) ==> m[k].identifier == k
}

proof fn lemma_fit_insert(m: Map<Seq<char>, DownloadView>, k: Seq<char>, d: DownloadView)
    requires
        downloads_fit(m),
        d.file_size + ED2K_CHUNK_SIZE - 1 <= usize::MAX,
    ensures
        downloads_fit(m.insert(k, d)),
{
    assert forall|j: Seq<char>| #[trigger] m.insert(k, d).dom().contains(j) implies m.insert(k, d)[j].file_size + ED2K_CHUNK_SIZE - 1 <= usize::MAX by {
        if j != k {
            assert(m.dom().contains(j));
        }
    }
}

proof fn lemma_fit_remove(m: Map<Seq<char>, DownloadView>, k: Seq<char>)
    requires
        downloads_fit(m),
    ensures
        downloads_fit(m.remove(k)),
{
    assert forall|j: Seq<char>| #[trigger] m.remove(k).dom().contains(j) implies m.remove(k)[j].file_size + ED2K_CHUNK_SIZE - 1 <= usize::MAX by {
        assert(m.dom().contains(j));
    }
}

/// Index of the first chunk not yet received, or the chunk count.
fn first_incomplete_index(chunks: &Vec<bool>) -> (res: usize)
    ensures
        res == first_incomplete(chunks@),
{
    assert(chunks@.subrange(0, chunks@.len() as int) =~= chunks@);
    let mut i: usize = 0;
    while i < chunks.len() && chunks[i]
        invariant
            0 <= i <= chunks@.len(),
            first_incomplete(chunks@) == i + first_incomplete(chunks@.subrange(i as int, chunks@.len() as int)),
        decreases chunks@.len() - i,
    {
        let ghost c = chunks@.subrange(i as int, chunks@.len() as int);
        assert(c.drop_first() =~= chunks@.subrange(i + 1, chunks@.len() as int));
        i = i + 1;
    }
    proof {
        let c = chunks@.subrange(i as int, chunks@.len() as int);
        if c.len() > 0 {
            assert(c[0] == chunks@[i as int]);
        }
    }
    i
}

// ---------------------------------------------------------------------------
// The handler
// ---------------------------------------------------------------------------

/// ED2K protocol handler state.
pub struct Ed2kProtocolHandler {
    server_url: String,
    uses_dht: bool,
    active_downloads: Registry<Ed2kDownloadState>,
    download_progress: Registry<DownloadProgress>,
    seeding_files: Registry<SeedingInfo>,
}

impl View for Ed2kProtocolHandler {
    type V = HandlerView;

    closed spec fn view(&self) -> HandlerView {
        HandlerView {
            downloads: self.active_downloads@,
            progress: self.download_progress@,
            seeding: self.seeding_files@,
        }
    }
}

impl Ed2kProtocolHandler {
    /// The registries are well formed, every download's size fits the chunk
    /// arithmetic, and every seeding record is keyed by its identifier.
    pub closed spec fn wf(&self) -> bool {
        &&& self.active_downloads.wf()
        &&& self.download_progress.wf()
        &&& self.seeding_files.wf()
        &&& downloads_fit(self@.downloads)
        &&& seeding_keyed(self@.seeding)
    }

    /// The server this handler talks to.
    pub closed spec fn server(&self) -> Seq<char> {
        self.server_url@
    }

    /// Whether peer discovery through the DHT is available.
    pub closed spec fn has_dht(&self) -> bool {
        self.uses_dht
    }

    /// A handler for the given server, with nothing tracked.
    pub fn new(server_url: String) -> (res: Self)
        ensures
            res.wf(),
            res.server() == server_url@,
            !res.has_dht(),
            res@.downloads == Map::<Seq<char>, DownloadView>::empty(),
            res@.progress == Map::<Seq<char>, DownloadProgress>::empty(),
            res@.seeding == Map::<Seq<char>, SeedingView>::empty(),
    {
        Ed2kProtocolHandler {
            server_url,
            uses_dht: false,
            active_downloads: Registry::new(),
            download_progress: Registry::new(),
            seeding_files: Registry::new(),
        }
    }

    /// A handler that also discovers peers through the DHT.
    pub fn with_dht_service(server_url: String) -> (res: Self)
        ensures
            res.wf(),
            res.server() == server_url@,
            res.has_dht(),
            res@.downloads == Map::<Seq<char>, DownloadView>::empty(),
            res@.progress == Map::<Seq<char>, DownloadProgress>::empty(),
            res@.seeding == Map::<Seq<char>, SeedingView>::empty(),
    {
        Ed2kProtocolHandler {
            server_url,
            uses_dht: true,
            active_downloads: Registry::new(),
            download_progress: Registry::new(),
            seeding_files: Registry::new(),
        }
    }

    /// A handler built from client settings.
    pub fn with_config(config: Ed2kConfig) -> (res: Self)
        ensures
            res.wf(),
            res.server() == config.server_url@,
            !res.has_dht(),
            res@.downloads == Map::<Seq<char>, DownloadView>::empty(),
            res@.progress == Map::<Seq<char>, DownloadProgress>::empty(),
            res@.seeding == Map::<Seq<char>, SeedingView>::empty(),
    {
        Ed2kProtocolHandler {
            server_url: config.server_url,
            uses_dht: false,
            active_downloads: Registry::new(),
            download_progress: Registry::new(),
            seeding_files: Registry::new(),
        }
    }

    pub fn name(&self) -> (res: &'static str)
        ensures
            res@ == "ed2k"@,
    {
        "ed2k"
    }

    /// Whether the identifier is an ed2k file link.
    pub fn supports(&self, identifier: &str) -> (res: bool)
        ensures
            res == starts_with(identifier@, "ed2k://|file|"@),
    {
        is_ed2k_file_link(identifier)
    }

    pub fn capabilities(&self) -> (res: ProtocolCapabilities)
        ensures
            res == (ProtocolCapabilities {
                supports_seeding: true,
                supports_pause_resume: true,
                supports_multi_source: true,
                supports_encryption: false,
                supports_dht: true,
            }),
    {
        ProtocolCapabilities {
            supports_seeding: true,
            supports_pause_resume: true,
            supports_multi_source: true,
            supports_encryption: false,
            supports_dht: true,
        }
    }

    fn set_status(&mut self, id: &str, st: DownloadStatus)
        requires
            old(self).wf(),
        ensures
            final(self).wf(),
            final(self)@ == (HandlerView { progress: with_status(old(self)@.progress, id@, st), ..old(self)@ }),
    {
        match self.download_progress.remove(id) {
            Some(p) => {
                let q = DownloadProgress { status: st, ..p };
                self.download_progress.insert(id.to_owned(), q);
                assert(self.download_progress@ =~= with_status(old(self)@.progress, id@, st));
            },
            None => {
                assert(self.download_progress@ =~= with_status(old(self)@.progress, id@, st));
            },
        }
    }

    /// Registers a download of an ed2k link (the bookkeeping part of
    /// starting one); the download is keyed by the link's hash field.
    pub fn start_download(&mut self, identifier: &str, output_path: String, started_at: u64) -> (res: Result<DownloadHandle, ProtocolError>)
        requires
            old(self).wf(),
            link_size_fits(identifier@),
        ensures
            final(self).wf(),
            match link_error(identifier@) {
                Some(m) => res matches Err(ProtocolError::InvalidIdentifier(msg)) && msg@ == m && final(self)@ == old(self)@,
                None => {
                    let id = link_fields(identifier@)[4];
                    if old(self)@.downloads.dom().contains(id) {
                        res matches Err(ProtocolError::AlreadyExists(x)) && x@ == id && final(self)@ == old(self)@
                    } else {
                        &&& res matches Ok(h) && h.identifier@ == id && h.protocol@ == "ed2k"@ && h.started_at == started_at
                        &&& final(self)@ == start_view(old(self)@, id, link_size(identifier@) as u64, output_path@, started_at)
                    }
                },
            },
    {
        let file_info = match parse_ed2k_link(identifier) {
            Ok(fi) => fi,
            Err(e) => {
                return Err(e);
            },
        };
        let download_id = file_info.file_hash;
        if self.active_downloads.contains_key(download_id.as_str()) {
            return Err(ProtocolError::AlreadyExists(download_id));
        }
        let total_chunks = calculate_chunks(file_info.file_size);
        let prog = DownloadProgress {
            downloaded_bytes: 0,
            total_bytes: file_info.file_size,
            eta_seconds: None,
            active_peers: 0,
            status: DownloadStatus::FetchingMetadata,
        };
        self.download_progress.insert(download_id.clone(), prog);
        let chunks = vec![false; total_chunks];
        let state = Ed2kDownloadState {
            file_hash: download_id.clone(),
            file_size: file_info.file_size,
            output_path,
            started_at,
            status: DownloadStatus::Downloading,
            is_paused: false,
            downloaded_chunks: chunks,
            partial_data: Vec::new(),
        };
        assert(state@.downloaded_chunks =~= Seq::new(tracked_chunks(file_info.file_size as nat), |i: int| false));
        assert(state@.partial_data =~= Seq::<u8>::empty());
        let ghost gs = state@;
        self.active_downloads.insert(download_id.clone(), state);
        proof {
            lemma_fit_insert(old(self)@.downloads, download_id@, gs);
        }
        let ghost newv = start_view(old(self)@, download_id@, file_info.file_size, output_path@, started_at);
        assert(self@.downloads =~= newv.downloads);
        assert(self@.progress =~= newv.progress);
        Ok(DownloadHandle { identifier: download_id, protocol: "ed2k".to_owned(), started_at })
    }

    /// Pauses a download.
    pub fn pause_download(&mut self, identifier: &str) -> (res: Result<(), ProtocolError>)
        requires
            old(self).wf(),
        ensures
            final(self).wf(),
            if old(self)@.downloads.dom().contains(identifier@) {
                res is Ok && final(self)@ == pause_view(old(self)@, identifier@)
            } else {
                res matches Err(ProtocolError::DownloadNotFound(x)) && x@ == identifier@ && final(self)@ == old(self)@
            },
    {
        match self.active_downloads.remove(identifier) {
            Some(st) => {
                let st2 = Ed2kDownloadState { is_paused: true, status: DownloadStatus::Paused, ..st };
                let ghost g2 = st2@;
                self.active_downloads.insert(identifier.to_owned(), st2);
                proof {
                    lemma_fit_remove(old(self)@.downloads, identifier@);
                    lemma_fit_insert(old(self)@.downloads.remove(identifier@), identifier@, g2);
                    assert(self@.downloads =~= old(self)@.downloads.remove(identifier@).insert(identifier@, g2));
                    assert(old(self)@.downloads.dom().contains(identifier@));
                    assert(self@.downloads =~= old(self)@.downloads.insert(identifier@, g2));
                }
                self.set_status(identifier, DownloadStatus::Paused);
                assert(self@.downloads =~= pause_view(old(self)@, identifier@).downloads);
                Ok(())
            },
            None => {
                assert(self.active_downloads@ =~= old(self)@.downloads);
                Err(ProtocolError::DownloadNotFound(identifier.to_owned()))
            },
        }
    }

    /// Resumes a download, telling the caller where to pick it up.
    pub fn resume_download(&mut self, identifier: &str) -> (res: Result<ResumePlan, ProtocolError>)
        requires
            old(self).wf(),
        ensures
            final(self).wf(),
            if old(self)@.downloads.dom().contains(identifier@) {
                let d = old(self)@.downloads[identifier@];
                &&& final(self)@ == resume_view(old(self)@, identifier@)
                &&& res matches Ok(plan) && plan.file_hash@ == d.file_hash && plan.file_size == d.file_size
                    && plan.output_path@ == d.output_path && plan.start_chunk == first_incomplete(d.downloaded_chunks)
                    && plan.total_chunks == tracked_chunks(d.file_size as nat) && plan.partial_data@ == d.partial_data
            } else {
                res matches Err(ProtocolError::DownloadNotFound(x)) && x@ == identifier@ && final(self)@ == old(self)@
            },
    {
        match self.active_downloads.remove(identifier) {
            Some(st) => {
                let i = first_incomplete_index(&st.downloaded_chunks);
                let total = calculate_chunks(st.file_size);
                let plan = ResumePlan {
                    file_hash: st.file_hash.clone(),
                    file_size: st.file_size,
                    output_path: st.output_path.clone(),
                    start_chunk: i,
                    total_chunks: total,
                    partial_data: st.partial_data.clone(),
                };
                assert(plan.partial_data@ =~= st.partial_data@);
                let st2 = Ed2kDownloadState { is_paused: false, status: DownloadStatus::Downloading, ..st };
                let ghost g2 = st2@;
                self.active_downloads.insert(identifier.to_owned(), st2);
                proof {
                    lemma_fit_remove(old(self)@.downloads, identifier@);
                    lemma_fit_insert(old(self)@.downloads.remove(identifier@), identifier@, g2);
                    assert(self@.downloads =~= old(self)@.downloads.remove(identifier@).insert(identifier@, g2));
                    assert(old(self)@.downloads.dom().contains(identifier@));
                    assert(self@.downloads =~= old(self)@.downloads.insert(identifier@, g2));
                }
                self.set_status(identifier, DownloadStatus::Downloading);
                assert(self@.downloads =~= resume_view(old(self)@, identifier@).downloads);
                Ok(plan)
            },
            None => {
                assert(self.active_downloads@ =~= old(self)@.downloads);
                Err(ProtocolError::DownloadNotFound(identifier.to_owned()))
            },
        }
    }

    /// Cancels a download: it is forgotten, and its progress says so.
    pub fn cancel_download(&mut self, identifier: &str) -> (res: Result<(), ProtocolError>)
        requires
            old(self).wf(),
        ensures
            final(self).wf(),
            if old(self)@.downloads.dom().contains(identifier@) {
                res is Ok && final(self)@ == cancel_view(old(self)@, identifier@)
            } else {
                res matches Err(ProtocolError::DownloadNotFound(x)) && x@ == identifier@ && final(self)@ == old(self)@
            },
    {
        match self.active_downloads.remove(identifier) {
            Some(_) => {
                proof {
                    lemma_fit_remove(old(self)@.downloads, identifier@);
                }
                self.set_status(identifier, DownloadStatus::Cancelled);
                Ok(())
            },
            None => {
                assert(self.active_downloads@ =~= old(self)@.downloads);
                Err(ProtocolError::DownloadNotFound(identifier.to_owned()))
            },
        }
    }

    /// The progress recorded for a download.
    pub fn get_download_progress(&self, identifier: &str) -> (res: Result<DownloadProgress, ProtocolError>)
        requires
            self.wf(),
        ensures
            if self@.progress.dom().contains(identifier@) {
                res == Ok::<DownloadProgress, ProtocolError>(self@.progress[identifier@])
            } else {
                res matches Err(ProtocolError::DownloadNotFound(x)) && x@ == identifier@
            },
    {
        match self.download_progress.get(identifier) {
            Some(p) => Ok(*p),
            None => Err(ProtocolError::DownloadNotFound(identifier.to_owned())),
        }
    }

    /// Records a seeded file under its link, then reads the link back into
    /// file information carrying the chunk digests.
    pub fn register_seed(&mut self, ed2k_link: String, file_path: String, sha256_chunk_hashes: Vec<String>) -> (res: Result<(SeedingInfo, Ed2kFileInfo), ProtocolError>)
        requires
            old(self).wf(),
        ensures
            final(self).wf(),
            final(self)@ == (HandlerView { seeding: old(self)@.seeding.insert(ed2k_link@, seed_record(ed2k_link@, file_path@)), ..old(self)@ }),
            match link_error(ed2k_link@) {
                Some(m) => res matches Err(ProtocolError::InvalidIdentifier(msg)) && msg@ == m,
                None => res matches Ok(pair) && pair.0@ == seed_record(ed2k_link@, file_path@)
                    && pair.1.file_hash@ == link_fields(ed2k_link@)[4] && pair.1.file_size as nat == link_size(ed2k_link@)
                    && pair.1.chunk_hashes@ == sha256_chunk_hashes@,
            },
    {
        let info = SeedingInfo {
            identifier: ed2k_link.clone(),
            file_path,
            protocol: "ed2k".to_owned(),
            active_peers: 0,
            bytes_uploaded: 0,
        };
        let kept = info.duplicate();
        self.seeding_files.insert(ed2k_link.clone(), kept);
        let mut file_info = match parse_ed2k_link(ed2k_link.as_str()) {
            Ok(fi) => fi,
            Err(e) => {
                return Err(e);
            },
        };
        file_info.chunk_hashes = sha256_chunk_hashes;
        Ok((info, file_info))
    }

    /// Stops seeding a link; the link's file information comes back so that
    /// the caller can withdraw the file from the server.
    pub fn stop_seeding(&mut self, identifier: &str) -> (res: Result<Ed2kFileInfo, ProtocolError>)
        requires
            old(self).wf(),
        ensures
            final(self).wf(),
            final(self)@ == (HandlerView { seeding: old(self)@.seeding.remove(identifier@), ..old(self)@ }),
            if !old(self)@.seeding.dom().contains(identifier@) {
                res matches Err(ProtocolError::DownloadNotFound(x)) && x@ == identifier@
            } else {
                match link_error(identifier@) {
                    Some(m) => res matches Err(ProtocolError::InvalidIdentifier(msg)) && msg@ == m,
                    None => res matches Ok(fi) && fi.file_hash@ == link_fields(identifier@)[4],
                }
            },
    {
        if self.seeding_files.remove(identifier).is_none() {
            return Err(ProtocolError::DownloadNotFound(identifier.to_owned()));
        }
        parse_ed2k_link(identifier)
    }

    /// All seeded files, in no particular order.
    pub fn list_seeding(&self) -> (res: Vec<SeedingInfo>)
        requires
            self.wf(),
        ensures
            forall|i: int| 0 <= i < res@.len() ==> self@.seeding.dom().contains(#[trigger] res@[i].identifier@)
                && self@.seeding[res@[i].identifier@] == res@[i]@,
            forall|k: Seq<char>| #[trigger] self@.seeding.dom().contains(k) ==> exists|i: int| 0 <= i < res@.len() && res@[i].identifier@ == k,
            forall|i: int, j: int| 0 <= i < res@.len() && 0 <= j < res@.len() && i != j ==> res@[i].identifier@ != res@[j].identifier@,
    {
        let n = self.seeding_files.len();
        let mut out: Vec<SeedingInfo> = Vec::new();
        let mut i: usize = 0;
        while i < n
            invariant
                self.wf(),
                n == self.seeding_files.values().len(),
                0 <= i <= n,
                out@.len() == i,
                forall|j: int| 0 <= j < i ==> #[trigger] out@[j]@ == self.seeding_files.values()[j]@,
            decreases n - i,
        {
            let v = self.seeding_files.value_at(i);
            out.push(v.duplicate());
            i = i + 1;
        }
        proof {
            self.seeding_files.lemma_values();
            let vals = self.seeding_files.values();
            assert forall|j: int| 0 <= j < out@.len() implies self@.seeding.dom().contains(#[trigger] out@[j].identifier@)
                && self@.seeding[out@[j].identifier@] == out@[j]@ by {
                let k = self.seeding_files.key_at(j);
                assert(self@.seeding.dom().contains(k));
                assert(self@.seeding[k] == vals[j]@);
                assert(self@.seeding[k].identifier == k);
                assert(out@[j]@ == vals[j]@);
                assert(out@[j].identifier@ == k);
            }
            assert forall|k: Seq<char>| #[trigger] self@.seeding.dom().contains(k) implies exists|j: int| 0 <= j < out@.len() && out@[j].identifier@ == k by {
                let j = choose|j: int| 0 <= j < vals.len() && vals[j]@ == self@.seeding[k];
                assert(out@[j].identifier@ == k);
            }
            assert forall|a: int, b: int| 0 <= a < out@.len() && 0 <= b < out@.len() && a != b implies out@[a].identifier@ != out@[b].identifier@ by {
                let ka = self.seeding_files.key_at(a);
                let kb = self.seeding_files.key_at(b);
                assert(self@.seeding[ka].identifier == ka);
                assert(self@.seeding[kb].identifier == kb);
            }
        }
        out
    }

    // -----------------------------------------------------------------------
    // Steps reported by a running transfer
    // -----------------------------------------------------------------------

    /// Whether a transfer should go on: its download may have been paused
    /// or cancelled meanwhile.
    pub fn check_transfer(&self, identifier: &str) -> (res: TaskCheck)
        requires
            self.wf(),
        ensures
            res == if !self@.downloads.dom().contains(identifier@) {
                TaskCheck::Cancelled
            } else if self@.downloads[identifier@].is_paused {
                TaskCheck::Paused
            } else {
                TaskCheck::Continue
            },
    {
        match self.active_downloads.get(identifier) {
            Some(st) => if st.is_paused {
                TaskCheck::Paused
            } else {
                TaskCheck::Continue
            },
            None => TaskCheck::Cancelled,
        }
    }

    /// Sets the status shown in a download's progress.
    pub fn set_progress_status(&mut self, identifier: &str, status: DownloadStatus)
        requires
            old(self).wf(),
        ensures
            final(self).wf(),
            final(self)@ == (HandlerView { progress: with_status(old(self)@.progress, identifier@, status), ..old(self)@ }),
    {
        self.set_status(identifier, status);
    }

    /// Records the bytes received so far and the estimated time left.
    pub fn record_progress(&mut self, identifier: &str, downloaded_bytes: u64, eta_seconds: Option<u64>)
        requires
            old(self).wf(),
        ensures
            final(self).wf(),
            final(self)@ == (HandlerView {
                progress: if old(self)@.progress.dom().contains(identifier@) {
                    old(self)@.progress.insert(identifier@, DownloadProgress { downloaded_bytes, eta_seconds, ..old(self)@.progress[identifier@] })
                } else {
                    old(self)@.progress
                },
                ..old(self)@
            }),
    {
        match self.download_progress.remove(identifier) {
            Some(p) => {
                let q = DownloadProgress { downloaded_bytes, eta_seconds, ..p };
                self.download_progress.insert(identifier.to_owned(), q);
                assert(self.download_progress@ =~= old(self)@.progress.insert(identifier@, q));
            },
            None => {
                assert(self.download_progress@ =~= old(self)@.progress);
            },
        }
    }

    /// Marks a download complete with all of its bytes.
    pub fn complete_download(&mut self, identifier: &str, file_size: u64)
        requires
            old(self).wf(),
        ensures
            final(self).wf(),
            final(self)@ == (HandlerView {
                progress: if old(self)@.progress.dom().contains(identifier@) {
                    old(self)@.progress.insert(identifier@, DownloadProgress { downloaded_bytes: file_size, status: DownloadStatus::Completed, ..old(self)@.progress[identifier@] })
                } else {
                    old(self)@.progress
                },
                ..old(self)@
            }),
    {
        match self.download_progress.remove(identifier) {
            Some(p) => {
                let q = DownloadProgress { downloaded_bytes: file_size, status: DownloadStatus::Completed, ..p };
                self.download_progress.insert(identifier.to_owned(), q);
                assert(self.download_progress@ =~= old(self)@.progress.insert(identifier@, q));
            },
            None => {
                assert(self.download_progress@ =~= old(self)@.progress);
            },
        }
    }

    /// Records a received chunk of a resumed download together with all
    /// data received so far.
    pub fn record_chunk(&mut self, identifier: &str, chunk_idx: usize, received: &Vec<u8>)
        requires
            old(self).wf(),
        ensures
            final(self).wf(),
            final(self)@ == (HandlerView {
                downloads: if old(self)@.downloads.dom().contains(identifier@) {
                    let d = old(self)@.downloads[identifier@];
                    old(self)@.downloads.insert(identifier@, DownloadView {
                        downloaded_chunks: if chunk_idx < d.downloaded_chunks.len() {
                            d.downloaded_chunks.update(chunk_idx as int, true)
                        } else {
                            d.downloaded_chunks
                        },
                        partial_data: received@,
                        ..d
                    })
                } else {
                    old(self)@.downloads
                },
                ..old(self)@
            }),
    {
        match self.active_downloads.remove(identifier) {
            Some(st) => {
                let ghost d0 = st@;
                assert(d0 == old(self)@.downloads[identifier@]);
                let mut chunks = st.downloaded_chunks;
                if chunk_idx < chunks.len() {
                    chunks.set(chunk_idx, true);
                }
                assert(chunks@ =~= (if chunk_idx < d0.downloaded_chunks.len() {
                    d0.downloaded_chunks.update(chunk_idx as int, true)
                } else {
                    d0.downloaded_chunks
                }));
                let data = received.clone();
                assert(data@ =~= received@);
                let st2 = Ed2kDownloadState { downloaded_chunks: chunks, partial_data: data, ..st };
                let ghost g2 = st2@;
                assert(g2 == DownloadView {
                    downloaded_chunks: if chunk_idx < d0.downloaded_chunks.len() {
                        d0.downloaded_chunks.update(chunk_idx as int, true)
                    } else {
                        d0.downloaded_chunks
                    },
                    partial_data: received@,
                    ..d0
                });
                self.active_downloads.insert(identifier.to_owned(), st2);
                proof {
                    lemma_fit_remove(old(self)@.downloads, identifier@);
                    lemma_fit_insert(old(self)@.downloads.remove(identifier@), identifier@, g2);
                    assert(self@.downloads =~= old(self)@.downloads.remove(identifier@).insert(identifier@, g2));
                    assert(old(self)@.downloads.dom().contains(identifier@));
                    assert(self@.downloads =~= old(self)@.downloads.insert(identifier@, g2));
                }
            },
            None => {
                assert(self.active_downloads@ =~= old(self)@.downloads);
            },
        }
    }

    /// Keeps the data received so far when a resumed transfer stops for a pause.
    pub fn save_partial(&mut self, identifier: &str, received: &Vec<u8>)
        requires
            old(self).wf(),
        ensures
            final(self).wf(),
            final(self)@ == (HandlerView {
                downloads: if old(self)@.downloads.dom().contains(identifier@) {
                    old(self)@.downloads.insert(identifier@, DownloadView { partial_data: received@, ..old(self)@.downloads[identifier@] })
                } else {
                    old(self)@.downloads
                },
                ..old(self)@
            }),
    {
        match self.active_downloads.remove(identifier) {
            Some(st) => {
                let ghost d0 = st@;
                assert(d0 == old(self)@.downloads[identifier@]);
                let data = received.clone();
                assert(data@ =~= received@);
                let st2 = Ed2kDownloadState { partial_data: data, ..st };
                let ghost g2 = st2@;
                assert(g2 == DownloadView { partial_data: received@, ..d0 });
                self.active_downloads.insert(identifier.to_owned(), st2);
                proof {
                    lemma_fit_remove(old(self)@.downloads, identifier@);
                    lemma_fit_insert(old(self)@.downloads.remove(identifier@), identifier@, g2);
                    assert(self@.downloads =~= old(self)@.downloads.remove(identifier@).insert(identifier@, g2));
                    assert(old(self)@.downloads.dom().contains(identifier@));
                    assert(self@.downloads =~= old(self)@.downloads.insert(identifier@, g2));
                }
            },
            None => {
                assert(self.active_downloads@ =~= old(self)@.downloads);
            },
        }
    }
}

// ---------------------------------------------------------------------------
// Laws
// ---------------------------------------------------------------------------

/// Law: pausing and then resuming a download gives it back unpaused and
/// downloading, with the chunks and data received so far untouched (so it
/// resumes at the same first missing chunk); other downloads are unaffected.
pub proof fn law_pause_then_resume(v: HandlerView, id: Seq<char>)
    requires
        v.downloads.dom().contains(id),
    ensures
        resume_view(pause_view(v, id), id).downloads == v.downloads.insert(
            id,
            DownloadView { is_paused: false, status: DownloadStatus::Downloading, ..v.downloads[id] },
        ),
        first_incomplete(resume_view(pause_view(v, id), id).downloads[id].downloaded_chunks) == first_incomplete(
            v.downloads[id].downloaded_chunks,
        ),
        v.progress.dom().contains(id) ==> resume_view(pause_view(v, id), id).progress[id] == (DownloadProgress {
            status: DownloadStatus::Downloading,
            ..v.progress[id]
        }),
        resume_view(pause_view(v, id), id).seeding == v.seeding,
{
    let w = resume_view(pause_view(v, id), id);
    assert(w.downloads =~= v.downloads.insert(
        id,
        DownloadView { is_paused: false, status: DownloadStatus::Downloading, ..v.downloads[id] },
    ));
}

/// Law: a cancelled download is forgotten (a later pause, resume or cancel
/// of it finds nothing), while its progress stays readable and says
/// `Cancelled`.
pub proof fn law_cancel_forgets(v: HandlerView, id: Seq<char>)
    requires
        v.downloads.dom().contains(id),
    ensures
        !cancel_view(v, id).downloads.dom().contains(id),
        forall|k: Seq<char>| k != id ==> (#[trigger] cancel_view(v, id).downloads.dom().contains(k) <==> v.downloads.dom().contains(k)),
        v.progress.dom().contains(id) ==> cancel_view(v, id).progress.dom().contains(id) && cancel_view(v, id).progress[id] == (DownloadProgress {
            status: DownloadStatus::Cancelled,
            ..v.progress[id]
        }),
{
}

/// Law: a freshly started download is tracked under its hash, unpaused,
/// with no chunk received (so a resume starts at chunk 0), one flag per
/// chunk, and progress at zero bytes of its size; starting it again is
/// refused as already existing.
pub proof fn law_started_download(v: HandlerView, id: Seq<char>, size: u64, path: Seq<char>, t: u64)
    ensures
        start_view(v, id, size, path, t).downloads.dom().contains(id),
        !start_view(v, id, size, path, t).downloads[id].is_paused,
        first_incomplete(start_view(v, id, size, path, t).downloads[id].downloaded_chunks) == 0,
        start_view(v, id, size, path, t).downloads[id].downloaded_chunks.len() == tracked_chunks(size as nat),
        start_view(v, id, size, path, t).progress[id].downloaded_bytes == 0,
        start_view(v, id, size, path, t).progress[id].total_bytes == size,
{
    let c = start_view(v, id, size, path, t).downloads[id].downloaded_chunks;
    if c.len() > 0 {
        assert(!c[0]);
    }
}

/// Law: a seeded link is listed until seeding stops, and stopping it a
/// second time finds nothing.
pub proof fn law_seed_then_stop(v: HandlerView, link: Seq<char>, path: Seq<char>)
    ensures
        v.seeding.insert(link, seed_record(link, path)).dom().contains(link),
        !v.seeding.insert(link, seed_record(link, path)).remove(link).dom().contains(link),
        seeding_keyed(v.seeding) ==> seeding_keyed(v.seeding.insert(link, seed_record(link, path))),
{
    let m = v.seeding.insert(link, seed_record(link, path));
    if seeding_keyed(v.seeding) {
        assert forall|k: Seq<char>| #[trigger] m.dom().contains(k) implies m[k].identifier == k by {
            if k != link {
                assert(v.seeding.dom().contains(k));
            }
        }
    }
}

} // verus!
