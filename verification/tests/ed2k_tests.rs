use chiral_network::ed2k_handler::{DownloadStatus, Ed2kConfig, Ed2kProtocolHandler, TaskCheck};
use chiral_network::ed2k_transfer::{Transfer, TransferStep};
use chiral_network::ed2k_link::{
    calculate_chunks, generate_ed2k_link, normalized_sha256_hex, parse_ed2k_link,
    verify_chunk_integrity, ProtocolError, ED2K_CHUNK_SIZE,
};
use md4::{Digest, Md4};
use sha2::Sha256;

#[test]
fn test_supports_ed2k() {
    let link = "ed2k://|file|test.txt|1024|ABC123DEF456789012345678ABCDEF01|/";
    assert!(link.starts_with("ed2k://|file|"));
    let handler = Ed2kProtocolHandler::new("server:4661".to_string());
    assert!(handler.supports(link));
    assert!(!handler.supports("ed2k://|server|1.2.3.4|4661|/"));
    assert!(!handler.supports("magnet:?xt=urn:btih:abc"));
}

#[test]
fn test_parse_ed2k_link() {
    let link = "ed2k://|file|Ubuntu.iso|3654957056|31D6CFE0D16AE931B73C59D7E0C089C0|/";
    let info = parse_ed2k_link(link).unwrap();

    assert_eq!(info.file_name, Some("Ubuntu.iso".to_string()));
    assert_eq!(info.file_size, 3654957056);
    assert_eq!(info.file_hash, "31D6CFE0D16AE931B73C59D7E0C089C0");
}

#[test]
fn test_parse_ed2k_link_invalid() {
    let result = parse_ed2k_link("http://example.com");
    assert!(result.is_err());

    let result = parse_ed2k_link("ed2k://|server|");
    assert!(result.is_err());
}

#[test]
fn test_calculate_chunks() {
    assert_eq!(calculate_chunks(1000), 1);
    assert_eq!(calculate_chunks(ED2K_CHUNK_SIZE as u64), 1);
    assert_eq!(calculate_chunks(ED2K_CHUNK_SIZE as u64 + 1), 2);
    assert_eq!(calculate_chunks(ED2K_CHUNK_SIZE as u64 * 3), 3);
}

fn md4_hex(data: &[u8]) -> String {
    let mut h = Md4::new();
    h.update(data);
    hex::encode(h.finalize())
}

fn sha256_hex(data: &[u8]) -> String {
    let mut h = Sha256::new();
    h.update(data);
    hex::encode(h.finalize())
}

#[test]
fn test_generate_ed2k_link_with_chunks() {
    let content_single_chunk = vec![b'a'; ED2K_CHUNK_SIZE / 2];
    let content_multiple_chunks = vec![b'b'; ED2K_CHUNK_SIZE * 2 + 100];

    let (link, sha256_hashes) = generate_ed2k_link("test_file_chunks.txt", &content_single_chunk);
    let expected_md4_single = md4_hex(&content_single_chunk);
    assert_eq!(
        link,
        format!(
            "ed2k://|file|test_file_chunks.txt|{}|{}|/",
            content_single_chunk.len(),
            expected_md4_single.to_uppercase()
        )
    );
    assert_eq!(sha256_hashes.len(), 1);
    assert!(!sha256_hashes[0].is_empty());

    let (link_multi, sha256_hashes_multi) =
        generate_ed2k_link("test_file_chunks.txt", &content_multiple_chunks);

    let mut md4_chunk_hashes_expected = Vec::new();
    let mut sha256_chunk_hashes_expected = Vec::new();
    let total_size = content_multiple_chunks.len();
    let mut offset = 0;
    while offset < total_size {
        let end = (offset + ED2K_CHUNK_SIZE).min(total_size);
        let chunk_data = &content_multiple_chunks[offset..end];
        let mut md4_hasher = Md4::new();
        md4_hasher.update(chunk_data);
        md4_chunk_hashes_expected.push(md4_hasher.finalize());
        sha256_chunk_hashes_expected.push(sha256_hex(chunk_data));
        offset = end;
    }
    let expected_root_md4_multi = {
        let mut combined_hashes = Vec::new();
        for hash in &md4_chunk_hashes_expected {
            combined_hashes.extend_from_slice(hash);
        }
        md4_hex(&combined_hashes)
    };

    assert_eq!(
        link_multi,
        format!(
            "ed2k://|file|test_file_chunks.txt|{}|{}|/",
            content_multiple_chunks.len(),
            expected_root_md4_multi.to_uppercase()
        )
    );
    assert_eq!(sha256_hashes_multi.len(), md4_chunk_hashes_expected.len());
    assert_eq!(sha256_hashes_multi, sha256_chunk_hashes_expected);
}

#[test]
fn test_verify_chunk_integrity_function() {
    let data = b"some test data for hashing";
    let correct_hash = sha256_hex(data);

    let wrong_data = b"some other data";
    let wrong_hash = sha256_hex(wrong_data);

    assert!(verify_chunk_integrity(&correct_hash, data).is_ok());

    let result_wrong_data = verify_chunk_integrity(&correct_hash, wrong_data);
    assert!(result_wrong_data.is_err());
    assert_eq!(result_wrong_data.unwrap_err().0, correct_hash);

    let invalid_hash_format = "not_a_valid_hash";
    assert!(verify_chunk_integrity(invalid_hash_format, data).is_ok());

    let empty_hash = "";
    assert!(verify_chunk_integrity(empty_hash, data).is_ok());

    let short_hash = "abcdef12345";
    assert!(verify_chunk_integrity(short_hash, data).is_ok());

    let result_wrong_expected_hash = verify_chunk_integrity(&wrong_hash, data);
    assert!(result_wrong_expected_hash.is_err());
    assert_eq!(result_wrong_expected_hash.unwrap_err().0, wrong_hash);
}

#[test]
fn empty_file_link_uses_md4_of_nothing() {
    let (link, hashes) = generate_ed2k_link("empty.bin", &[]);
    assert_eq!(link, "ed2k://|file|empty.bin|0|31D6CFE0D16AE931B73C59D7E0C089C0|/");
    assert!(hashes.is_empty());
}

#[test]
fn generated_link_parses_back() {
    let data = b"hello ed2k";
    let (link, hashes) = generate_ed2k_link("greeting.txt", data);
    let info = parse_ed2k_link(&link).unwrap();
    assert_eq!(info.file_name, Some("greeting.txt".to_string()));
    assert_eq!(info.file_size, data.len() as u64);
    assert_eq!(info.file_hash, md4_hex(data).to_uppercase());
    assert_eq!(hashes, vec![sha256_hex(data)]);
    assert!(verify_chunk_integrity(&hashes[0], data).is_ok());
    assert_eq!(calculate_chunks(info.file_size), hashes.len());
}

#[test]
fn parse_errors_name_the_problem() {
    let msg = |r: Result<_, ProtocolError>| match r {
        Err(ProtocolError::InvalidIdentifier(m)) => m,
        _ => panic!("expected an invalid identifier"),
    };
    assert_eq!(msg(parse_ed2k_link("http://example.com")), "Not a valid ed2k:// link");
    assert_eq!(msg(parse_ed2k_link("ed2k://|server|a|b|c|/")), "Invalid ed2k:// link format");
    assert_eq!(
        msg(parse_ed2k_link("ed2k://|file|a|12x|31D6CFE0D16AE931B73C59D7E0C089C0|/")),
        "Invalid file size"
    );
    assert_eq!(
        msg(parse_ed2k_link("ed2k://|file|a|18446744073709551616|31D6CFE0D16AE931B73C59D7E0C089C0|/")),
        "Invalid file size"
    );
    assert_eq!(msg(parse_ed2k_link("ed2k://|file|a|12|31D6CFE0|/")), "Invalid MD4 hash format");
    assert_eq!(
        msg(parse_ed2k_link("ed2k://|file|a|12|31D6CFE0D16AE931B73C59D7E0C089CZ|/")),
        "Invalid MD4 hash format"
    );
    // A leading '+' is accepted in the size, as `u64::from_str` does.
    assert_eq!(
        parse_ed2k_link("ed2k://|file|a|+12|31D6CFE0D16AE931B73C59D7E0C089C0|/").unwrap().file_size,
        12
    );
}

#[test]
fn normalized_digest_is_trimmed_and_lowercase() {
    let upper = "  BA7816BF8F01CFEA414140DE5DAE2223B00361A396177A9CB410FF61F20015AD\n";
    assert_eq!(
        normalized_sha256_hex(upper),
        Some("ba7816bf8f01cfea414140de5dae2223b00361a396177a9cb410ff61f20015ad".to_string())
    );
    assert_eq!(normalized_sha256_hex("abc"), None);
    assert!(verify_chunk_integrity(upper, b"abc").is_ok());
    let err = verify_chunk_integrity(upper, b"abd").unwrap_err();
    assert_eq!(err.0, upper);
    assert_ne!(err.1, "ba7816bf8f01cfea414140de5dae2223b00361a396177a9cb410ff61f20015ad");
}

#[test]
fn calculate_chunks_of_empty_file_is_one() {
    assert_eq!(calculate_chunks(0), 1);
    assert_eq!(calculate_chunks(1), 1);
}

const LINK: &str = "ed2k://|file|movie.avi|20000000|31D6CFE0D16AE931B73C59D7E0C089C0|/";
const ID: &str = "31D6CFE0D16AE931B73C59D7E0C089C0";

#[test]
fn download_lifecycle() {
    let mut h = Ed2kProtocolHandler::with_dht_service("server:4661".to_string());
    let handle = h.start_download(LINK, "/tmp/movie.avi".to_string(), 77).unwrap();
    assert_eq!(handle.identifier, ID);
    assert_eq!(handle.protocol, "ed2k");
    assert_eq!(handle.started_at, 77);
    let p = h.get_download_progress(ID).unwrap();
    assert_eq!(p.status, DownloadStatus::FetchingMetadata);
    assert_eq!(p.total_bytes, 20000000);
    assert_eq!(p.downloaded_bytes, 0);

    match h.start_download(LINK, "/tmp/other".to_string(), 78) {
        Err(ProtocolError::AlreadyExists(id)) => assert_eq!(id, ID),
        _ => panic!("a second start must be refused"),
    }

    assert_eq!(h.check_transfer(ID), TaskCheck::Continue);
    h.record_chunk(ID, 0, &vec![1u8, 2, 3]);
    h.pause_download(ID).unwrap();
    assert_eq!(h.check_transfer(ID), TaskCheck::Paused);
    assert_eq!(h.get_download_progress(ID).unwrap().status, DownloadStatus::Paused);

    let plan = h.resume_download(ID).unwrap();
    assert_eq!(plan.start_chunk, 1);
    assert_eq!(plan.total_chunks, 3);
    assert_eq!(plan.partial_data, vec![1u8, 2, 3]);
    assert_eq!(plan.file_size, 20000000);
    assert_eq!(plan.output_path, "/tmp/movie.avi");
    assert_eq!(h.get_download_progress(ID).unwrap().status, DownloadStatus::Downloading);

    h.record_progress(ID, 3, Some(10));
    assert_eq!(h.get_download_progress(ID).unwrap().downloaded_bytes, 3);
    assert_eq!(h.get_download_progress(ID).unwrap().eta_seconds, Some(10));

    h.cancel_download(ID).unwrap();
    assert_eq!(h.check_transfer(ID), TaskCheck::Cancelled);
    assert_eq!(h.get_download_progress(ID).unwrap().status, DownloadStatus::Cancelled);
    assert!(matches!(h.pause_download(ID), Err(ProtocolError::DownloadNotFound(_))));
    assert!(matches!(h.resume_download(ID), Err(ProtocolError::DownloadNotFound(_))));
    assert!(matches!(h.cancel_download(ID), Err(ProtocolError::DownloadNotFound(_))));

    // Once cancelled it may be started again.
    assert!(h.start_download(LINK, "/tmp/movie.avi".to_string(), 80).is_ok());
    h.complete_download(ID, 20000000);
    let done = h.get_download_progress(ID).unwrap();
    assert_eq!(done.status, DownloadStatus::Completed);
    assert_eq!(done.downloaded_bytes, 20000000);
}

#[test]
fn download_of_bad_link_or_unknown_id_fails() {
    let mut h = Ed2kProtocolHandler::with_config(Ed2kConfig { server_url: "s:1".to_string() });
    assert!(matches!(
        h.start_download("ed2k://|server|x|/", "/tmp/x".to_string(), 0),
        Err(ProtocolError::InvalidIdentifier(_))
    ));
    assert!(matches!(h.get_download_progress("nope"), Err(ProtocolError::DownloadNotFound(_))));
    assert_eq!(h.name(), "ed2k");
    let caps = h.capabilities();
    assert!(caps.supports_seeding && caps.supports_pause_resume && caps.supports_multi_source);
    assert!(!caps.supports_encryption);
    assert!(caps.supports_dht);
}

#[test]
fn seeding_lifecycle() {
    let mut h = Ed2kProtocolHandler::new("server:4661".to_string());
    let (link, hashes) = generate_ed2k_link("song.mp3", b"la la la");
    let (info, file_info) = h
        .register_seed(link.clone(), "/music/song.mp3".to_string(), hashes.clone())
        .unwrap();
    assert_eq!(info.identifier, link);
    assert_eq!(info.protocol, "ed2k");
    assert_eq!(info.file_path, "/music/song.mp3");
    assert_eq!(file_info.chunk_hashes, hashes);
    assert_eq!(file_info.file_size, 8);
    let listed = h.list_seeding();
    assert_eq!(listed.len(), 1);
    assert_eq!(listed[0].identifier, link);

    let fi = h.stop_seeding(&link).unwrap();
    assert_eq!(fi.file_hash, file_info.file_hash);
    assert!(h.list_seeding().is_empty());
    assert!(matches!(h.stop_seeding(&link), Err(ProtocolError::DownloadNotFound(_))));
}

#[test]
fn chunk_digests_are_lowercase_hex() {
    let (_, hashes) = generate_ed2k_link("f", &vec![7u8; ED2K_CHUNK_SIZE + 1]);
    assert_eq!(hashes.len(), 2);
    for h in &hashes {
        assert_eq!(h.len(), 64);
        assert!(h.chars().all(|c| c.is_ascii_digit() || ('a'..='f').contains(&c)));
    }
}

const SMALL: &str = "ed2k://|file|small.bin|3|31D6CFE0D16AE931B73C59D7E0C089C0|/";
const SMALL_ID: &str = "31D6CFE0D16AE931B73C59D7E0C089C0";

#[test]
fn fresh_transfer_runs_to_completion() {
    let mut h = Ed2kProtocolHandler::new("server:4661".to_string());
    h.start_download(SMALL, "/tmp/small.bin".to_string(), 1).unwrap();
    let info = parse_ed2k_link(SMALL).unwrap();
    let mut t = Transfer::fresh(SMALL_ID.to_string(), info, "/tmp/small.bin".to_string());
    match t.step(&mut h) {
        TransferStep::Fetch { chunk_index, expected_md4 } => {
            assert_eq!(chunk_index, 0);
            assert_eq!(expected_md4, "00000000000000000000000000000000");
        }
        other => panic!("expected a fetch, got {:?}", other),
    }
    assert_eq!(t.receive(&mut h, vec![1, 2, 3]), Ok(3));
    assert!(matches!(t.step(&mut h), TransferStep::Write));
    assert_eq!(t.data(), &vec![1u8, 2, 3]);
    t.finish(&mut h);
    let p = h.get_download_progress(SMALL_ID).unwrap();
    assert_eq!(p.status, DownloadStatus::Completed);
    assert_eq!(p.downloaded_bytes, 3);
}

#[test]
fn paused_and_cancelled_transfers_stop() {
    let mut h = Ed2kProtocolHandler::new("server:4661".to_string());
    h.start_download(LINK, "/tmp/movie.avi".to_string(), 1).unwrap();
    h.record_chunk(ID, 0, &vec![9u8]);
    h.pause_download(ID).unwrap();
    let plan = h.resume_download(ID).unwrap();
    let mut t = Transfer::resumed(ID.to_string(), plan);
    match t.step(&mut h) {
        TransferStep::Fetch { chunk_index, expected_md4 } => {
            assert_eq!(chunk_index, 1);
            assert_eq!(expected_md4, "00000000000000000000000000000001");
        }
        other => panic!("expected a fetch, got {:?}", other),
    }
    assert_eq!(t.receive(&mut h, vec![8u8, 7]), Ok(3));
    h.pause_download(ID).unwrap();
    assert!(matches!(t.step(&mut h), TransferStep::Stop));
    let again = h.resume_download(ID).unwrap();
    assert_eq!(again.start_chunk, 2);
    assert_eq!(again.partial_data, vec![9u8, 8, 7]);
    h.cancel_download(ID).unwrap();
    assert!(matches!(t.step(&mut h), TransferStep::Stop));
}

#[test]
fn corrupt_chunk_fails_the_download() {
    let mut h = Ed2kProtocolHandler::new("server:4661".to_string());
    h.start_download(SMALL, "/tmp/small.bin".to_string(), 1).unwrap();
    let mut info = parse_ed2k_link(SMALL).unwrap();
    let good = sha256_hex(&[1, 2, 3]);
    info.chunk_hashes = vec![good.clone()];
    let mut t = Transfer::fresh(SMALL_ID.to_string(), info, "/tmp/small.bin".to_string());
    assert!(matches!(t.step(&mut h), TransferStep::Fetch { .. }));
    assert_eq!(t.receive(&mut h, vec![3, 2, 1]), Err((good, sha256_hex(&[3, 2, 1]))));
    assert_eq!(h.get_download_progress(SMALL_ID).unwrap().status, DownloadStatus::Failed);
}
