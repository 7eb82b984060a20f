//! ed2k:// links: parsing, generation from file contents, chunk arithmetic
//! and chunk integrity checks.
use vstd::prelude::*;

use crate::hashing::{hex_encode, md4, md4_digest, sha256, sha256_digest};
use crate::text::{
    is_lower_hex_digit, is_lower_hex_text, lemma_decimal_digits, lemma_hex_lower_shape, lemma_lower_hex_fixed,
    lemma_parse_decimal, lemma_split_concat, lemma_split_nonempty, lemma_split_single, trim_end, trim_start,
    upper_char, lower_char, is_dec_digit, is_hex_digit, IntErrorKind,
    all_hex, all_hex_exec, ascii_lower, ascii_upper, chars_eq, chars_of, decimal, hex_lower, lit,
    parse_unsigned, parse_unsigned_exec, push_all, push_decimal, split_chars, split_on, starts_with,
    starts_with_chars, string_from_chars, to_ascii_lower, to_ascii_upper, trim, trim_chars,
};

verus! {

/// Size of an ed2k chunk in bytes (9500 KiB).
pub const ED2K_CHUNK_SIZE: usize = 9728000;

/// Errors of the protocol handler.
#[derive(Debug)]
pub enum ProtocolError {
    InvalidIdentifier(String),
    FileNotFound(String),
    AlreadyExists(String),
    DownloadNotFound(String),
    Internal(String),
}

/// What an ed2k link describes.
#[derive(Debug)]
pub struct Ed2kFileInfo {
    /// MD4 root hash as written in the link (32 hex digits).
    pub file_hash: String,
    pub file_size: u64,
    pub file_name: Option<String>,
    pub sources: Vec<String>,
    /// SHA-256 hex digest of each chunk, when known.
    pub chunk_hashes: Vec<String>,
}

// ---------------------------------------------------------------------------
// Parsing
// ---------------------------------------------------------------------------

/// The `|`-separated fields of a link.
pub open spec fn link_fields(link: Seq<char>) -> Seq<Seq<char>> {
    split_on(link, '|')
}

/// The message of the error that a link is refused with, or `None` when it
/// is a well-formed file link: `ed2k://|file|NAME|SIZE|HASH|...`.
pub open spec fn link_error(link: Seq<char>) -> Option<Seq<char>> {
    let f = link_fields(link);
    if !starts_with(link, "ed2k://"@) {
        Some("Not a valid ed2k:// link"@)
    } else if f.len() < 5 || f[1] != "file"@ {
        Some("Invalid ed2k:// link format"@)
    } else if parse_unsigned(f[3], 10, u64::MAX as nat) is Err {
        Some("Invalid file size"@)
    } else if !(f[4].len() == 32 && all_hex(f[4])) {
        Some("Invalid MD4 hash format"@)
    } else {
        None
    }
}

/// Parses `ed2k://|file|FileName.ext|FileSize|MD4Hash|/`.
pub fn parse_ed2k_link(link: &str) -> (res: Result<Ed2kFileInfo, ProtocolError>)
    ensures
        match res {
            Ok(info) => {
                &&& link_error(link@) is None
                &&& info.file_name matches Some(n) && n@ == link_fields(link@)[2]
                &&& parse_unsigned(link_fields(link@)[3], 10, u64::MAX as nat) == Ok::<nat, crate::text::IntErrorKind>(info.file_size as nat)
                &&& info.file_hash@ == link_fields(link@)[4]
                &&& info.sources@.len() == 0
                &&& info.chunk_hashes@.len() == 0
            },
            Err(e) => link_error(link@) matches Some(m) && e matches ProtocolError::InvalidIdentifier(msg) && msg@ == m,
        },
{
    let s = chars_of(link);
    if !starts_with_chars(&s, &lit("ed2k://")) {
        return Err(ProtocolError::InvalidIdentifier("Not a valid ed2k:// link".to_owned()));
    }
    let parts = split_chars(&s, '|');
    if parts.len() < 5 || !chars_eq(parts[1].as_slice(), &lit("file")) {
        return Err(ProtocolError::InvalidIdentifier("Invalid ed2k:// link format".to_owned()));
    }
    let file_name = string_from_chars(parts[2].as_slice());
    let file_size = match parse_unsigned_exec(parts[3].as_slice(), 10, u64::MAX as u128) {
        Ok(v) => v as u64,
        Err(_) => {
            return Err(ProtocolError::InvalidIdentifier("Invalid file size".to_owned()));
        },
    };
    if parts[4].len() != 32 || !all_hex_exec(parts[4].as_slice()) {
        return Err(ProtocolError::InvalidIdentifier("Invalid MD4 hash format".to_owned()));
    }
    Ok(
        Ed2kFileInfo {
            file_hash: string_from_chars(parts[4].as_slice()),
            file_size,
            file_name: Some(file_name),
            sources: Vec::new(),
            chunk_hashes: Vec::new(),
        },
    )
}

/// Whether an identifier is an ed2k file link this handler takes.
pub fn is_ed2k_file_link(identifier: &str) -> (res: bool)
    ensures
        res == starts_with(identifier@, "ed2k://|file|"@),
{
    let s = chars_of(identifier);
    starts_with_chars(&s, &lit("ed2k://|file|"))
}

// ---------------------------------------------------------------------------
// Chunks
// ---------------------------------------------------------------------------

/// Number of chunks that reading a file of `len` bytes produces (none for
/// an empty file).
pub open spec fn chunk_count(len: nat) -> nat {
    len / (ED2K_CHUNK_SIZE as nat) + if len % (ED2K_CHUNK_SIZE as nat) == 0 {
        0nat
    } else {
        1nat
    }
}

/// The `i`-th chunk of `data`.
pub open spec fn chunk_of(data: Seq<u8>, i: int) -> Seq<u8> {
    let start = i * ED2K_CHUNK_SIZE;
    let end = if start + ED2K_CHUNK_SIZE <= data.len() {
        start + ED2K_CHUNK_SIZE
    } else {
        data.len() as int
    };
    data.subrange(start, end)
}

/// Concatenation of a sequence of byte strings.
pub open spec fn concat_all(s: Seq<Seq<u8>>) -> Seq<u8>
    decreases s.len(),
{
    if s.len() == 0 {
        Seq::empty()
    } else {
        concat_all(s.drop_last()) + s.last()
    }
}

/// MD4 digest of each chunk.
pub open spec fn md4_chunk_hashes(data: Seq<u8>) -> Seq<Seq<u8>> {
    Seq::new(chunk_count(data.len()), |i: int| md4_digest(chunk_of(data, i)))
}

/// Lowercase hex SHA-256 digest of each chunk.
pub open spec fn sha256_chunk_hexes(data: Seq<u8>) -> Seq<Seq<char>> {
    Seq::new(chunk_count(data.len()), |i: int| hex_lower(sha256_digest(chunk_of(data, i))))
}

/// The ed2k root hash: the MD4 of the concatenated chunk hashes when there
/// are several chunks, the one chunk's hash, or the MD4 of nothing.
pub open spec fn ed2k_root_hash(data: Seq<u8>) -> Seq<u8> {
    let hs = md4_chunk_hashes(data);
    if hs.len() > 1 {
        md4_digest(concat_all(hs))
    } else if hs.len() == 1 {
        hs[0]
    } else {
        md4_digest(Seq::empty())
    }
}

/// `ed2k://|file|NAME|SIZE|HASH|/` with the hash in uppercase hex.
pub open spec fn ed2k_link_text(name: Seq<char>, size: nat, root: Seq<u8>) -> Seq<char> {
    "ed2k://|file|"@ + name + "|"@ + decimal(size) + "|"@ + ascii_upper(hex_lower(root)) + "|/"@
}

/// Number of chunks a download of `file_size` bytes is tracked in: at least one.
pub fn calculate_chunks(file_size: u64) -> (res: usize)
    requires
        file_size + ED2K_CHUNK_SIZE - 1 <= usize::MAX,
    ensures
        res == if file_size == 0 {
            1
        } else {
            chunk_count(file_size as nat)
        },
{
    let fs = file_size as usize;
    assert(fs == file_size);
    let n = (fs + (ED2K_CHUNK_SIZE - 1)) / ED2K_CHUNK_SIZE;
    proof {
        let c = ED2K_CHUNK_SIZE as int;
        let f = file_size as int;
        assert(((f + c - 1) / c) == f / c + if f % c == 0 {
            0int
        } else {
            1int
        }) by (nonlinear_arith)
            requires
                c == 9728000,
                f >= 0,
        ;
    }
    if n > 1 {
        n
    } else {
        1
    }
}

/// Builds the ed2k link of a file from its name and contents, with the
/// SHA-256 hex digest of each chunk.
pub fn generate_ed2k_link(file_name: &str, contents: &[u8]) -> (res: (String, Vec<String>))
    ensures
        res.0@ == ed2k_link_text(file_name@, contents@.len(), ed2k_root_hash(contents@)) && ed2k_root_hash(contents@).len() == 16,
        contents@.len() > ED2K_CHUNK_SIZE ==> res.0@ == ed2k_link_text(
            file_name@,
            contents@.len(),
            md4_digest(concat_all(piece_md4s(contents@))),
        ),
        res.1@.len() == chunk_count(contents@.len()),
        forall|i: int| 0 <= i < res.1@.len() ==> #[trigger] res.1@[i]@ == sha256_chunk_hexes(contents@)[i],
        forall|i: int| 0 <= i < res.1@.len() ==> is_lower_hex_text(#[trigger] res.1@[i]@, 64),
{
    let len = contents.len();
    let c = ED2K_CHUNK_SIZE;
    let n = len / c + if len % c == 0 {
        0
    } else {
        1
    };
    let ghost hs = md4_chunk_hashes(contents@);
    let mut combined: Vec<u8> = Vec::new();
    let mut first: Vec<u8> = Vec::new();
    let mut shas: Vec<String> = Vec::new();
    let mut k: usize = 0;
    while k < n
        invariant
            len == contents@.len(),
            c == ED2K_CHUNK_SIZE,
            n == chunk_count(len as nat),
            hs == md4_chunk_hashes(contents@),
            0 <= k <= n,
            combined@ == concat_all(hs.take(k as int)),
            k >= 1 ==> first@ == hs[0],
            forall|j: int| 0 <= j < k ==> #[trigger] hs[j].len() == 16,
            shas@.len() == k,
            forall|j: int| 0 <= j < k ==> #[trigger] shas@[j]@ == sha256_chunk_hexes(contents@)[j],
            forall|j: int| 0 <= j < k ==> is_lower_hex_text(#[trigger] shas@[j]@, 64),
        decreases n - k,
    {
        proof {
            let ki = k as int;
            let li = len as int;
            assert(ki * 9728000 < li) by (nonlinear_arith)
                requires
                    ki < li / 9728000 + if li % 9728000 == 0 {
                        0int
                    } else {
                        1int
                    },
                    li >= 0,
                    ki >= 0,
            ;
        }
        assert(k * c < len);
        let start = k * c;
        assert(start as int == k as int * ED2K_CHUNK_SIZE);
        let end = if len - start > c {
            start + c
        } else {
            len
        };
        let chunk = &contents[start..end];
        assert(chunk@ == chunk_of(contents@, k as int));
        let h = md4(chunk);
        let sh = sha256(chunk);
        let hx = hex_encode(&sh);
        proof {
            lemma_hex_lower_shape(sh@);
        }
        assert(is_lower_hex_text(hx@, 64));
        assert(hs[k as int] == h@);
        proof {
            assert(hs.take(k + 1 as int).drop_last() =~= hs.take(k as int));
        }
        if k == 0 {
            first = h.clone();
            assert(first@ == h@);
        }
        let mut i: usize = 0;
        let ghost before = combined@;
        while i < h.len()
            invariant
                0 <= i <= h@.len(),
                combined@ == before + h@.subrange(0, i as int),
            decreases h@.len() - i,
        {
            combined.push(h[i]);
            i = i + 1;
            assert(h@.subrange(0, i as int) == h@.subrange(0, i - 1 as int).push(h@[i - 1]));
        }
        assert(h@.subrange(0, h@.len() as int) == h@);
        shas.push(hx);
        k = k + 1;
    }
    assert(hs.take(n as int) =~= hs);
    let root: Vec<u8> = if n > 1 {
        md4(&combined)
    } else if n == 1 {
        first
    } else {
        let empty: Vec<u8> = Vec::new();
        assert(empty@ =~= Seq::<u8>::empty());
        md4(&empty)
    };
    let root_hex = hex_encode(&root);
    let root_chars = chars_of(root_hex.as_str());
    let upper = to_ascii_upper(&root_chars);
    let mut out = lit("ed2k://|file|");
    let name = chars_of(file_name);
    push_all(&mut out, &name);
    out.push('|');
    push_decimal(&mut out, len as u128);
    out.push('|');
    push_all(&mut out, &upper);
    let tail = lit("|/");
    push_all(&mut out, &tail);
    proof {
        reveal_strlit("|");
        assert(out@ =~= ed2k_link_text(file_name@, len as nat, ed2k_root_hash(contents@)));
        if contents@.len() > ED2K_CHUNK_SIZE {
            law_root_hash_covers_every_chunk(contents@);
        }
    }
    (string_from_chars(&out), shas)
}

// ---------------------------------------------------------------------------
// Chunk integrity
// ---------------------------------------------------------------------------

/// The lowercase form of a SHA-256 hex digest after trimming whitespace,
/// when it is exactly 64 hex digits.
pub open spec fn normalized_sha256(hash: Seq<char>) -> Option<Seq<char>> {
    let t = trim(hash);
    if t.len() == 64 && all_hex(t) {
        Some(ascii_lower(t))
    } else {
        None
    }
}

/// Trims and lower-cases a SHA-256 hex digest; `None` unless it is exactly
/// 64 hex digits.
pub fn normalized_sha256_hex(hash: &str) -> (res: Option<String>)
    ensures
        match normalized_sha256(hash@) {
            Some(n) => res matches Some(r) && r@ == n,
            None => res is None,
        },
{
    let s = chars_of(hash);
    let t = trim_chars(&s);
    if t.len() != 64 {
        return None;
    }
    if all_hex_exec(&t) {
        let low = to_ascii_lower(&t);
        Some(string_from_chars(&low))
    } else {
        None
    }
}

/// Checks a chunk against its expected SHA-256 hex digest. A digest that is
/// not 64 hex digits is not checked; on a mismatch the expected text and the
/// actual digest come back.
pub fn verify_chunk_integrity(expected_hash: &str, data: &[u8]) -> (res: Result<(), (String, String)>)
    ensures
        match normalized_sha256(expected_hash@) {
            None => res is Ok,
            Some(e) => if hex_lower(sha256_digest(data@)) == e {
                res is Ok
            } else {
                res matches Err(pair) && pair.0@ == expected_hash@ && pair.1@ == hex_lower(sha256_digest(data@))
            },
        },
{
    let expected = match normalized_sha256_hex(expected_hash) {
        Some(v) => v,
        None => {
            return Ok(());
        },
    };
    let digest = sha256(data);
    let actual = hex_encode(&digest);
    if actual != expected {
        return Err((expected_hash.to_owned(), actual));
    }
    Ok(())
}

// ---------------------------------------------------------------------------
// Laws
// ---------------------------------------------------------------------------

proof fn lemma_upper_hex(h: Seq<char>)
    requires
        forall|i: int| 0 <= i < h.len() ==> is_lower_hex_digit(#[trigger] h[i]),
    ensures
        all_hex(ascii_upper(h)),
        forall|i: int| 0 <= i < h.len() ==> #[trigger] ascii_upper(h)[i] != '|',
        trim(ascii_upper(h)) == ascii_upper(h),
        ascii_lower(ascii_upper(h)) == h,
{
    let u = ascii_upper(h);
    assert forall|i: int| 0 <= i < u.len() implies is_hex_digit(#[trigger] u[i]) && u[i] != '|' && !crate::text::is_unicode_whitespace(u[i]) by {
        assert(is_lower_hex_digit(h[i]));
    }
    if u.len() > 0 {
        assert(!crate::text::is_unicode_whitespace(u[0]));
        assert(!crate::text::is_unicode_whitespace(u.last()));
    }
    assert(trim_start(u) == u);
    assert(trim_end(u) == u);
    assert forall|i: int| 0 <= i < h.len() implies #[trigger] ascii_lower(u)[i] == h[i] by {
        assert(is_lower_hex_digit(h[i]));
    }
    assert(ascii_lower(u) =~= h);
}

/// Law: the link generated for a file whose name holds no `|` is a
/// well-formed ed2k file link whose name, size and hash fields are the file's
/// name, its size and the uppercase hex of its root hash; so
/// `parse_ed2k_link` gives them back.
pub proof fn law_generated_link_parses(name: Seq<char>, size: nat, root: Seq<u8>)
    requires
        forall|i: int| 0 <= i < name.len() ==> name[i] != '|',
        size <= u64::MAX,
        root.len() == 16,
    ensures
        link_error(ed2k_link_text(name, size, root)) is None,
        link_fields(ed2k_link_text(name, size, root))[2] == name,
        parse_unsigned(link_fields(ed2k_link_text(name, size, root))[3], 10, u64::MAX as nat)
            == Ok::<nat, IntErrorKind>(size),
        link_fields(ed2k_link_text(name, size, root))[4] == ascii_upper(hex_lower(root)),
{
    reveal_strlit("ed2k://|file|");
    reveal_strlit("ed2k://");
    reveal_strlit("file");
    reveal_strlit("|");
    reveal_strlit("|/");
    reveal_strlit("/");
    let bar = seq!['|'];
    let a = "ed2k://"@;
    let b = "file"@;
    let d = decimal(size);
    let h = ascii_upper(hex_lower(root));
    let e = "/"@;
    let link = ed2k_link_text(name, size, root);
    let r4 = h + bar + e;
    let r3 = d + bar + r4;
    let r2 = name + bar + r3;
    let r1 = b + bar + r2;
    assert(link =~= a + bar + r1);
    lemma_hex_lower_shape(root);
    lemma_upper_hex(hex_lower(root));
    lemma_decimal_digits(size);
    assert forall|i: int| 0 <= i < d.len() implies #[trigger] d[i] != '|' by {
        assert(is_dec_digit(d[i]));
    }
    lemma_split_single(a, '|');
    lemma_split_single(b, '|');
    lemma_split_single(name, '|');
    lemma_split_single(d, '|');
    lemma_split_single(h, '|');
    lemma_split_single(e, '|');
    lemma_split_concat(a, r1, '|');
    lemma_split_concat(b, r2, '|');
    lemma_split_concat(name, r3, '|');
    lemma_split_concat(d, r4, '|');
    lemma_split_concat(h, e, '|');
    let f = link_fields(link);
    assert(f =~= seq![a, b, name, d, h, e]);
    assert(link.subrange(0, 7) =~= a);
    lemma_parse_decimal(size, u64::MAX as nat);
    assert(h.len() == 32);
}

/// Law: a 32-byte digest written as lowercase hex is its own normalized
/// form, and so is its uppercase spelling; `verify_chunk_integrity` with the
/// hex SHA-256 of the data as expected hash therefore accepts the data.
pub proof fn law_digest_hex_normalizes(d: Seq<u8>)
    requires
        d.len() == 32,
    ensures
        normalized_sha256(hex_lower(d)) == Some(hex_lower(d)),
        normalized_sha256(ascii_upper(hex_lower(d))) == Some(hex_lower(d)),
{
    lemma_hex_lower_shape(d);
    lemma_lower_hex_fixed(hex_lower(d));
    lemma_upper_hex(hex_lower(d));
}

/// Data before the `k`-th chunk.
proof fn lemma_chunks_prefix(data: Seq<u8>, k: nat)
    requires
        k <= chunk_count(data.len()),
    ensures
        concat_all(Seq::new(k, |i: int| chunk_of(data, i))) == data.subrange(
            0,
            if k * ED2K_CHUNK_SIZE <= data.len() {
                k * ED2K_CHUNK_SIZE
            } else {
                data.len() as int
            },
        ),
    decreases k,
{
    let c = ED2K_CHUNK_SIZE as int;
    if k == 0 {
        assert(Seq::new(0, |i: int| chunk_of(data, i)) =~= Seq::<Seq<u8>>::empty());
        assert(data.subrange(0, 0) =~= Seq::<u8>::empty());
    } else {
        let km = (k - 1) as nat;
        lemma_chunks_prefix(data, km);
        let s = Seq::new(k, |i: int| chunk_of(data, i));
        assert(s.drop_last() =~= Seq::new(km, |i: int| chunk_of(data, i)));
        let li = data.len() as int;
        let ki = k as int;
        assert((ki - 1) * c < li) by (nonlinear_arith)
            requires
                ki <= li / c + if li % c == 0 {
                    0int
                } else {
                    1int
                },
                ki >= 1,
                c == 9728000,
                li >= 0,
        ;
        assert(km * c == (ki - 1) * c);
        assert(s.last() == chunk_of(data, km as int));
        assert(data.subrange(0, km * c) + chunk_of(data, km as int) =~= data.subrange(
            0,
            if k * ED2K_CHUNK_SIZE <= data.len() {
                k * ED2K_CHUNK_SIZE
            } else {
                data.len() as int
            },
        ));
    }
}

/// A text with at least two fields is its first field, the separator, and
/// the rest.
proof fn lemma_first_field(s: Seq<char>, sep: char) -> (rest: Seq<char>)
    requires
        split_on(s, sep).len() >= 2,
    ensures
        s == split_on(s, sep)[0] + seq![sep] + rest,
    decreases s.len(),
{
    assert(s.len() > 0);
    if s[0] == sep {
        assert(split_on(s, sep)[0] == Seq::<char>::empty());
        assert(s =~= Seq::<char>::empty() + seq![sep] + s.drop_first());
        s.drop_first()
    } else {
        let t = s.drop_first();
        assert(split_on(t, sep).len() == split_on(s, sep).len());
        let r = lemma_first_field(t, sep);
        assert(split_on(s, sep)[0] == seq![s[0]] + split_on(t, sep)[0]);
        assert(s =~= seq![s[0]] + t);
        assert(s =~= split_on(s, sep)[0] + seq![sep] + r);
        r
    }
}

/// Whether a link starts with `ed2k://` is decided by its first field.
proof fn lemma_prefix_in_first_field(link: Seq<char>)
    requires
        link_fields(link).len() >= 2,
    ensures
        starts_with(link, "ed2k://"@) == (link_fields(link)[0].len() >= 7 && link_fields(link)[0].subrange(0, 7)
            == "ed2k://"@),
{
    reveal_strlit("ed2k://");
    let f0 = link_fields(link)[0];
    let rest = lemma_first_field(link, '|');
    if f0.len() >= 7 {
        assert(link.subrange(0, 7) =~= f0.subrange(0, 7));
    } else if starts_with(link, "ed2k://"@) {
        assert(link[f0.len() as int] == '|');
        assert(link.subrange(0, 7)[f0.len() as int] == "ed2k://"@[f0.len() as int]);
    }
}

/// Law: whether a link is accepted, and with which error, depends only on
/// its first five `|`-fields: two links that agree on them are judged
/// alike, whatever fields follow (so the name, size and hash fields that
/// `parse_ed2k_link` reads are the same too).
pub proof fn law_link_judged_by_first_five_fields(l1: Seq<char>, l2: Seq<char>)
    requires
        link_fields(l1).len() >= 5,
        link_fields(l2).len() >= 5,
        forall|i: int| 0 <= i < 5 ==> #[trigger] link_fields(l1)[i] == link_fields(l2)[i],
    ensures
        link_error(l1) == link_error(l2),
{
    lemma_prefix_in_first_field(l1);
    lemma_prefix_in_first_field(l2);
    assert(link_fields(l1)[0] == link_fields(l2)[0]);
    assert(link_fields(l1)[1] == link_fields(l2)[1]);
    assert(link_fields(l1)[3] == link_fields(l2)[3]);
    assert(link_fields(l1)[4] == link_fields(l2)[4]);
}

/// Law: an accepted link followed by further `|`-separated fields (an AICH
/// hash, sources, ...) is still accepted, with the same name, size and hash
/// fields.
pub proof fn law_extra_fields_ignored(link: Seq<char>, more: Seq<char>)
    requires
        link_error(link) is None,
    ensures
        link_error(link + seq!['|'] + more) is None,
        link_fields(link + seq!['|'] + more)[2] == link_fields(link)[2],
        link_fields(link + seq!['|'] + more)[3] == link_fields(link)[3],
        link_fields(link + seq!['|'] + more)[4] == link_fields(link)[4],
{
    reveal_strlit("ed2k://");
    let l2 = link + seq!['|'] + more;
    lemma_split_concat(link, more, '|');
    lemma_split_nonempty(more, '|');
    assert(link_fields(link).len() >= 5) by {
        if link_fields(link).len() < 5 {
            assert(starts_with(link, "ed2k://"@));
        }
    }
    assert forall|i: int| 0 <= i < 5 implies #[trigger] link_fields(link)[i] == link_fields(l2)[i] by {
        assert(link_fields(l2) == link_fields(link) + split_on(more, '|'));
    }
    law_link_judged_by_first_five_fields(link, l2);
}

/// The MD4 digests of a file's pieces of `ED2K_CHUNK_SIZE` bytes, in order,
/// the last piece being what is left.
pub open spec fn piece_md4s(data: Seq<u8>) -> Seq<Seq<u8>> {
    Seq::new(
        data.len() / 9728000 + if data.len() % 9728000 == 0 { 0nat } else { 1nat },
        |i: int|
            md4_digest(data.subrange(i * 9728000, if (i + 1) * 9728000 <= data.len() {
                (i + 1) * 9728000
            } else {
                data.len() as int
            })),
    )
}

/// Law: the root hash of a file longer than one chunk is the MD4 of the MD4
/// digests of all of its pieces of `ED2K_CHUNK_SIZE` bytes, concatenated in
/// order; there are at least two such digests, so the root depends on every
/// piece, the last one included.
pub proof fn law_root_hash_covers_every_chunk(data: Seq<u8>)
    requires
        data.len() > ED2K_CHUNK_SIZE,
    ensures
        piece_md4s(data).len() >= 2,
        ed2k_root_hash(data) == md4_digest(concat_all(piece_md4s(data))),
{
    assert(md4_chunk_hashes(data) =~= piece_md4s(data));
}

/// Law: the chunks of a file, in order, make up the whole file.
pub proof fn law_chunks_cover_file(data: Seq<u8>)
    ensures
        concat_all(Seq::new(chunk_count(data.len()), |i: int| chunk_of(data, i))) == data,
{
    let n = chunk_count(data.len());
    lemma_chunks_prefix(data, n);
    let li = data.len() as int;
    let ni = n as int;
    assert(ni * 9728000 >= li) by (nonlinear_arith)
        requires
            ni == li / 9728000 + if li % 9728000 == 0 {
                0int
            } else {
                1int
            },
            li >= 0,
    ;
    assert(data.subrange(0, li) =~= data);
}

/// Law: a download of a non-empty file is tracked in as many chunks as the
/// file has, and each chunk is at most `ED2K_CHUNK_SIZE` bytes long; an empty
/// file is still tracked as one chunk.
pub proof fn law_chunk_count_bounds(size: nat)
    ensures
        size > 0 ==> (chunk_count(size) - 1) * ED2K_CHUNK_SIZE < size <= chunk_count(size) * ED2K_CHUNK_SIZE,
        size == 0 ==> chunk_count(size) == 0,
{
    let si = size as int;
    let n = chunk_count(size) as int;
    assert(si > 0 ==> (n - 1) * 9728000 < si <= n * 9728000) by (nonlinear_arith)
        requires
            n == si / 9728000 + if si % 9728000 == 0 {
                0int
            } else {
                1int
            },
            si >= 0,
    ;
}

} // verus!
