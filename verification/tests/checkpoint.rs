//! Checkpoints and flow control.

use filecopier::checkpoint::{
    validate_file, wants_digest, CheckpointEntry, CheckpointState, CheckpointV1, DiskFile,
    FlowControl, ResumePolicy, Timestamp, ValidationResult, FORMAT_VERSION,
};
use filecopier::error::CoreError;
use filecopier::hash::{new_hasher, Algorithm};
use filecopier::path::PathStyle;
use filecopier::path_map::{PathMap, PathSet};

const UNIX: PathStyle = PathStyle::Unix;

fn make_state(files: &[&str]) -> CheckpointState {
    CheckpointState::new(
        UNIX,
        "test-job-001",
        "/origen".to_string(),
        "/destino".to_string(),
        files.iter().map(|f| f.to_string()).collect(),
    )
}

fn blake3_hex(data: &[u8]) -> String {
    let mut h = new_hasher(Algorithm::Blake3);
    h.update(data);
    h.finalize()
}

/// The disk with the given files in the destination.
fn disk(files: &[(&str, &[u8])]) -> PathMap<DiskFile> {
    let mut disk = PathMap::new(UNIX);
    for (path, data) in files {
        disk.insert(
            format!("/destino/{path}"),
            DiskFile { len: Ok(data.len() as u64), digest: Ok(blake3_hex(data)) },
        );
    }
    disk
}

#[test]
fn mark_completed_stores_entry() {
    let mut state = make_state(&["a.txt", "b.txt"]);
    state.mark_completed("a.txt".to_string(), Some("abc123".into()), 1024);
    let entry = state.completed.get("a.txt").unwrap();
    assert_eq!(entry.hash.as_deref(), Some("abc123"));
    assert_eq!(entry.size_bytes, 1024);
    assert!(!state.pending.contains("a.txt"));
}

#[test]
fn mark_completed_stores_entry_with_size() {
    let mut state = make_state(&["a.txt", "b.txt"]);
    state.mark_completed("a.txt".to_string(), Some("abc123".into()), 1024);
    let entry = state.completed.get("a.txt").unwrap();
    assert_eq!(entry.hash.as_deref(), Some("abc123"));
    assert_eq!(entry.size_bytes, 1024);
    assert!(!state.pending.contains("a.txt"));
    assert!(state.pending.contains("b.txt"));
}

#[test]
fn mark_completed_without_hash() {
    let mut state = make_state(&["file.bin"]);
    state.mark_completed("file.bin".to_string(), None, 512);
    let entry = state.completed.get("file.bin").unwrap();
    assert!(entry.hash.is_none());
    assert_eq!(entry.size_bytes, 512);
}

#[test]
fn checkpoint_mark_completed_without_hash() {
    let mut state = make_state(&["file.bin"]);
    state.mark_completed("file.bin".to_string(), None, 512);
    let entry = state.completed.get("file.bin").unwrap();
    assert!(entry.hash.is_none());
    assert_eq!(entry.size_bytes, 512);
    assert!(state.is_complete());
}

#[test]
fn mark_failed_moves_to_failed() {
    let mut state = make_state(&["good.txt", "bad.txt"]);
    state.mark_failed("bad.txt".to_string(), "permiso denegado".into());
    assert_eq!(state.pending.len(), 1);
    assert_eq!(state.failed.len(), 1);
}

#[test]
fn is_complete_when_all_processed() {
    let mut state = make_state(&["a.txt", "b.txt"]);
    state.mark_completed("a.txt".to_string(), None, 10);
    state.mark_failed("b.txt".to_string(), "error".into());
    assert!(state.is_complete());
}

#[test]
fn checkpoint_is_complete_when_all_processed() {
    let mut state = make_state(&["a.txt", "b.txt"]);
    assert!(!state.is_complete());
    state.mark_completed("a.txt".to_string(), None, 10);
    assert!(!state.is_complete());
    state.mark_failed("b.txt".to_string(), "error".into());
    assert!(state.is_complete());
}

#[test]
fn empty_job_is_complete() {
    assert!(make_state(&[]).is_complete());
}

#[test]
fn trust_checkpoint_skips_all_validation() {
    let mut state = make_state(&[]);
    state.mark_completed("ghost.txt".to_string(), None, 999);
    let reverted = state.validate_completed("/destino", &disk(&[]), ResumePolicy::TrustCheckpoint);
    assert_eq!(reverted, 0);
    assert!(state.completed.contains_key("ghost.txt"));
}

#[test]
fn trust_checkpoint_never_reverts() {
    let mut s = make_state(&[]);
    s.mark_completed("ghost.txt".to_string(), None, 999);
    let reverted = s.validate_completed("/destino", &disk(&[]), ResumePolicy::TrustCheckpoint);
    assert_eq!(reverted, 0);
    assert!(s.completed.contains_key("ghost.txt"));
}

#[test]
fn verify_size_detects_missing_file() {
    let mut state = make_state(&[]);
    state.mark_completed("missing.txt".to_string(), None, 100);
    let reverted = state.validate_completed("/destino", &disk(&[]), ResumePolicy::VerifySize);
    assert_eq!(reverted, 1);
    assert!(!state.completed.contains_key("missing.txt"));
    assert!(state.pending.contains("missing.txt"));
}

#[test]
fn verify_size_reverts_missing_file() {
    let mut s = make_state(&[]);
    s.mark_completed("missing.txt".to_string(), None, 100);
    let reverted = s.validate_completed("/destino", &disk(&[]), ResumePolicy::VerifySize);
    assert_eq!(reverted, 1);
    assert!(!s.completed.contains_key("missing.txt"));
    assert!(s.pending.contains("missing.txt"));
}

#[test]
fn verify_size_detects_truncated_file() {
    let mut state = make_state(&[]);
    state.mark_completed("partial.txt".to_string(), None, 1000);
    let reverted =
        state.validate_completed("/destino", &disk(&[("partial.txt", b"truncated")]), ResumePolicy::VerifySize);
    assert_eq!(reverted, 1);
    assert!(state.pending.contains("partial.txt"));
}

#[test]
fn verify_size_reverts_truncated_file() {
    let mut s = make_state(&[]);
    s.mark_completed("truncated.txt".to_string(), None, 9999);
    let reverted =
        s.validate_completed("/destino", &disk(&[("truncated.txt", b"short")]), ResumePolicy::VerifySize);
    assert_eq!(reverted, 1);
    assert!(s.pending.contains("truncated.txt"));
}

#[test]
fn verify_size_accepts_correct_file() {
    let data = b"hello world";
    let mut state = make_state(&[]);
    state.mark_completed("ok.txt".to_string(), None, data.len() as u64);
    let reverted = state.validate_completed("/destino", &disk(&[("ok.txt", data)]), ResumePolicy::VerifySize);
    assert_eq!(reverted, 0);
    assert!(state.completed.contains_key("ok.txt"));
}

#[test]
fn checkpoint_verify_size_accepts_correct_file() {
    let data = b"hello world";
    let mut s = make_state(&[]);
    s.mark_completed("ok.txt".to_string(), None, data.len() as u64);
    let reverted = s.validate_completed("/destino", &disk(&[("ok.txt", data)]), ResumePolicy::VerifySize);
    assert_eq!(reverted, 0);
}

#[test]
fn verify_size_with_migrated_v1_entry_accepts_existing_file() {
    let mut s = make_state(&[]);
    s.mark_completed("migrated.txt".to_string(), None, 0);
    let reverted =
        s.validate_completed("/destino", &disk(&[("migrated.txt", b"any content")]), ResumePolicy::VerifySize);
    assert_eq!(reverted, 0);
}

#[test]
fn verify_hash_detects_corrupted_file() {
    let data = b"original content";
    let mut state = make_state(&[]);
    state.mark_completed(
        "corrupted.bin".to_string(),
        Some(blake3_hex(data)),
        data.len() as u64,
    );
    let reverted = state.validate_completed(
        "/destino",
        &disk(&[("corrupted.bin", b"corrupted!!!!!!!")]),
        ResumePolicy::VerifyHash,
    );
    assert_eq!(reverted, 1);
    assert!(state.pending.contains("corrupted.bin"));
}

#[test]
fn verify_hash_detects_corrupted_file_same_size() {
    let original = b"original content";
    let mut s = make_state(&[]);
    s.mark_completed(
        "corrupt.bin".to_string(),
        Some(blake3_hex(original)),
        original.len() as u64,
    );
    let reverted =
        s.validate_completed("/destino", &disk(&[("corrupt.bin", b"corrupted!!!!!!")]), ResumePolicy::VerifyHash);
    assert_eq!(reverted, 1);
    assert!(s.pending.contains("corrupt.bin"));
}

#[test]
fn verify_hash_accepts_intact_file() {
    let data = b"intact content here";
    let mut state = make_state(&[]);
    state.mark_completed("intact.txt".to_string(), Some(blake3_hex(data)), data.len() as u64);
    let reverted =
        state.validate_completed("/destino", &disk(&[("intact.txt", data)]), ResumePolicy::VerifyHash);
    assert_eq!(reverted, 0);
}

#[test]
fn checkpoint_verify_hash_accepts_intact_file() {
    let data = b"intact data";
    let mut s = make_state(&[]);
    s.mark_completed("intact.bin".to_string(), Some(blake3_hex(data)), data.len() as u64);
    let reverted = s.validate_completed("/destino", &disk(&[("intact.bin", data)]), ResumePolicy::VerifyHash);
    assert_eq!(reverted, 0);
}

#[test]
fn verify_hash_without_stored_hash_falls_back_to_size() {
    let data = b"some data";
    let mut state = make_state(&[]);
    state.mark_completed("nohash.bin".to_string(), None, data.len() as u64);
    let reverted =
        state.validate_completed("/destino", &disk(&[("nohash.bin", data)]), ResumePolicy::VerifyHash);
    assert_eq!(reverted, 0);
}

#[test]
fn checkpoint_verify_hash_without_stored_hash_falls_back_to_size() {
    let data = b"data without hash";
    let mut s = make_state(&[]);
    s.mark_completed("nohash.bin".to_string(), None, data.len() as u64);
    let reverted = s.validate_completed("/destino", &disk(&[("nohash.bin", data)]), ResumePolicy::VerifyHash);
    assert_eq!(reverted, 0);
}

#[test]
fn validate_multiple_files_mixed_results() {
    let mut state = make_state(&[]);
    state.mark_completed("ok.txt".to_string(), None, 7);
    state.mark_completed("bad.txt".to_string(), None, 100);
    state.mark_completed("small.txt".to_string(), None, 500);
    let on_disk = disk(&[("ok.txt", b"correct"), ("small.txt", b"x")]);
    let reverted = state.validate_completed("/destino", &on_disk, ResumePolicy::VerifySize);
    assert_eq!(reverted, 2);
    assert!(state.completed.contains_key("ok.txt"));
    assert!(state.pending.contains("bad.txt"));
    assert!(state.pending.contains("small.txt"));
}

#[test]
fn checkpoint_validate_multiple_files_mixed_results() {
    let mut s = make_state(&[]);
    s.mark_completed("ok.txt".to_string(), None, 7);
    s.mark_completed("bad.txt".to_string(), None, 100);
    s.mark_completed("small.txt".to_string(), None, 500);
    let on_disk = disk(&[("ok.txt", b"correct"), ("small.txt", b"x")]);
    assert_eq!(s.validate_completed("/destino", &on_disk, ResumePolicy::VerifySize), 2);
    assert!(s.completed.contains_key("ok.txt"));
    assert!(s.pending.contains("bad.txt"));
    assert!(s.pending.contains("small.txt"));
    // What was returned to the pending files is not returned twice.
    assert_eq!(s.validate_completed("/destino", &on_disk, ResumePolicy::VerifySize), 0);
}

#[test]
fn default_path_is_reproducible() {
    assert_eq!(
        CheckpointState::default_path(UNIX, "/destino", "job-abc"),
        CheckpointState::default_path(UNIX, "/destino", "job-abc")
    );
}

#[test]
fn default_path_is_inside_dest() {
    let path = CheckpointState::default_path(UNIX, "/mi/destino", "job-x");
    assert!(std::path::Path::new(&path).starts_with("/mi/destino"));
    assert_eq!(path, "/mi/destino/.filecopier_job-x.checkpoint");
}

#[test]
fn checkpoint_is_written_under_a_temporary_name() {
    let path = CheckpointState::default_path(UNIX, "/mi/destino", "job-x");
    assert_eq!(UNIX.with_extension(&path, "tmp"), "/mi/destino/.filecopier_job-x.tmp");
}

#[test]
fn flow_control_starts_unpaused_uncancelled() {
    let fc = FlowControl::new();
    assert!(!fc.is_paused());
    assert!(!fc.is_cancelled());
    assert!(fc.check().is_ok());
}

#[test]
fn flow_control_starts_clean() {
    let fc = FlowControl::default();
    assert!(!fc.is_paused());
    assert!(!fc.is_cancelled());
    assert!(fc.check().is_ok());
}

#[test]
fn flow_control_pause_resume() {
    let mut fc = FlowControl::new();
    fc.pause();
    assert!(matches!(fc.check(), Err(CoreError::Paused)));
    fc.resume();
    assert!(fc.check().is_ok());
}

#[test]
fn flow_control_cancel_overrides_pause() {
    let mut fc = FlowControl::new();
    fc.pause();
    fc.cancel();
    match fc.check() {
        Err(CoreError::PipelineDisconnected) => {}
        other => panic!("esperaba PipelineDisconnected: {other:?}"),
    }
}

#[test]
fn checkpoint_flow_control_cancel_overrides_pause() {
    let mut fc = FlowControl::new();
    fc.pause();
    fc.cancel();
    assert!(matches!(fc.check(), Err(CoreError::PipelineDisconnected)));
    fc.resume();
    assert!(matches!(fc.check(), Err(CoreError::PipelineDisconnected)));
}

#[test]
fn waiting_ends_with_resume_or_cancel() {
    let mut fc = FlowControl::new();
    fc.pause();
    assert!(fc.wait_for_resume().is_none());
    fc.resume();
    assert!(matches!(fc.wait_for_resume(), Some(Ok(()))));
    fc.pause();
    fc.cancel();
    assert!(matches!(fc.wait_for_resume(), Some(Err(CoreError::PipelineDisconnected))));
}

#[test]
fn observed_flags_are_judged_like_set_ones() {
    assert!(FlowControl::observed(false, false).check().is_ok());
    assert!(matches!(FlowControl::observed(true, false).check(), Err(CoreError::Paused)));
    assert!(matches!(
        FlowControl::observed(true, true).check(),
        Err(CoreError::PipelineDisconnected)
    ));
}

fn entry(hash: Option<&str>, size_bytes: u64) -> CheckpointEntry {
    CheckpointEntry {
        hash: hash.map(|h| h.to_string()),
        size_bytes,
        completed_at: Timestamp { secs: 0, nanos: 0 },
    }
}

#[test]
fn every_validation_outcome() {
    let policy = ResumePolicy::VerifyHash;
    let file = |len: Result<u64, &str>, digest: Result<&str, &str>| DiskFile {
        len: len.map_err(|e| e.to_string()),
        digest: digest.map(|d| d.to_string()).map_err(|e| e.to_string()),
    };
    assert!(matches!(validate_file(None, &entry(None, 5), policy), ValidationResult::Missing));
    match validate_file(Some(&file(Err("denied"), Err("-"))), &entry(None, 5), policy) {
        ValidationResult::VerifyError(message) => assert_eq!(message, "denied"),
        other => panic!("{other:?}"),
    }
    match validate_file(Some(&file(Ok(4), Ok("aa"))), &entry(Some("aa"), 5), policy) {
        ValidationResult::SizeMismatch { expected, found } => assert_eq!((expected, found), (5, 4)),
        other => panic!("{other:?}"),
    }
    match validate_file(Some(&file(Ok(5), Ok("bb"))), &entry(Some("aa"), 5), policy) {
        ValidationResult::HashMismatch { expected, found } => {
            assert_eq!(expected, "aa");
            assert_eq!(found, "bb");
        }
        other => panic!("{other:?}"),
    }
    match validate_file(Some(&file(Ok(5), Err("lost"))), &entry(Some("aa"), 5), policy) {
        ValidationResult::VerifyError(message) => assert_eq!(message, "lost"),
        other => panic!("{other:?}"),
    }
    let fine = validate_file(Some(&file(Ok(5), Ok("aa"))), &entry(Some("aa"), 5), policy);
    assert!(fine.is_valid());
    let by_size =
        validate_file(Some(&file(Ok(5), Ok("bb"))), &entry(Some("aa"), 5), ResumePolicy::VerifySize);
    assert!(by_size.is_valid());
    assert!(!ValidationResult::Missing.is_valid());
}

#[test]
fn digests_are_wanted_only_where_they_decide() {
    assert!(wants_digest(&entry(Some("aa"), 5), ResumePolicy::VerifyHash, 5));
    assert!(wants_digest(&entry(Some("aa"), 0), ResumePolicy::VerifyHash, 5));
    assert!(!wants_digest(&entry(Some("aa"), 5), ResumePolicy::VerifyHash, 4));
    assert!(!wants_digest(&entry(None, 5), ResumePolicy::VerifyHash, 5));
    assert!(!wants_digest(&entry(Some("aa"), 5), ResumePolicy::VerifySize, 5));
}

fn first_format() -> CheckpointV1 {
    let mut completed = PathMap::new(UNIX);
    completed.insert("a".to_string(), Some("h".to_string()));
    completed.insert("b".to_string(), None);
    completed.insert("gone".to_string(), Some("g".to_string()));
    CheckpointV1 {
        job_id: "j".to_string(),
        created_at: Timestamp { secs: 1, nanos: 2 },
        updated_at: Timestamp { secs: 1_700_000_000, nanos: 5 },
        source_root: "/s".to_string(),
        dest_root: "/d".to_string(),
        completed,
        failed: PathMap::new(UNIX),
        pending: PathSet::from_list(UNIX, vec!["c".to_string(), "c".to_string()]),
    }
}

#[test]
fn first_format_is_migrated() {
    let present = PathSet::from_list(UNIX, vec!["/d/a".to_string(), "/d/b".to_string()]);
    let state =
        CheckpointState::load("/d/x".to_string(), None, Ok(first_format()), &present).unwrap();
    assert_eq!(state.format_version, FORMAT_VERSION);
    assert_eq!(state.format_version, 2);
    assert_eq!(state.job_id, "j");
    assert_eq!(state.created_at, Timestamp { secs: 1, nanos: 2 });
    assert_eq!(state.updated_at, Timestamp { secs: 1_700_000_000, nanos: 5 });
    assert_eq!(state.completed.len(), 3);
    assert_eq!(state.pending.len(), 1);
    let a = state.completed.get("a").unwrap();
    assert_eq!(a.hash.as_deref(), Some("h"));
    assert_eq!(a.size_bytes, 0);
    assert_eq!(a.completed_at, Timestamp { secs: 1_700_000_000, nanos: 5 });
    assert!(state.completed.get("b").unwrap().hash.is_none());
}

#[test]
fn a_migrated_file_that_is_gone_has_no_digest() {
    let state = CheckpointState::migrate(first_format(), &PathSet::new(UNIX));
    for path in ["a", "b", "gone"] {
        let entry = state.completed.get(path).unwrap();
        assert!(entry.hash.is_none());
        assert_eq!(entry.size_bytes, 0);
    }
    let present = PathSet::from_list(UNIX, vec!["/d/a".to_string()]);
    let state = CheckpointState::migrate(first_format(), &present);
    assert_eq!(state.completed.get("a").unwrap().hash.as_deref(), Some("h"));
    assert!(state.completed.get("gone").unwrap().hash.is_none());
}

#[test]
fn a_checkpoint_that_fits_no_format_is_an_error() {
    let loaded = CheckpointState::load(
        "/d/x".to_string(),
        None,
        Err("bad json".to_string()),
        &PathSet::new(UNIX),
    );
    match loaded {
        Err(CoreError::CheckpointLoad { path, source }) => {
            assert_eq!(path, "/d/x");
            assert_eq!(source, "bad json");
        }
        _ => panic!("expected a load error"),
    }
}

#[test]
fn current_format_is_taken_as_it_is() {
    let state = make_state(&["a"]);
    let created = state.created_at;
    let unused = Err("unused".to_string());
    let loaded =
        CheckpointState::load("p".to_string(), Some(state), unused, &PathSet::new(UNIX)).unwrap();
    assert_eq!(loaded.created_at, created);
    assert_eq!(loaded.pending.list(), vec!["a".to_string()]);
}

#[test]
fn new_checkpoints_carry_the_time() {
    let state = make_state(&[]);
    assert_eq!(state.created_at, state.updated_at);
    assert!(state.created_at.secs > 1_600_000_000);
    let entry = CheckpointEntry::new(None, 3);
    assert!(entry.completed_at.secs >= state.created_at.secs);
    assert!(entry.completed_at.nanos < 1_000_000_000);
}

#[test]
fn a_job_is_complete_however_its_paths_are_written() {
    let mut state = make_state(&["a/b", "./c", "d"]);
    assert_eq!(state.pending.len(), 3);
    state.mark_completed("a//b".to_string(), None, 1);
    state.mark_failed("./c/".to_string(), "why".to_string());
    assert!(!state.is_complete());
    state.mark_completed("d/.".to_string(), None, 1);
    assert!(state.is_complete());
    assert!(state.completed.contains_key("a/./b"));
    assert!(!state.completed.contains_key("/a/b"));
    assert!(!state.failed.contains_key("c"));
    assert_eq!(state.failed.get("./c").unwrap(), "why");
    let mut names = state.completed.keys();
    names.sort();
    assert_eq!(names, vec!["a/b".to_string(), "d".to_string()]);

    let files = vec!["a\\b".to_string(), "a/b".to_string(), "C:x".to_string()];
    let mut state = CheckpointState::new(
        PathStyle::Windows,
        "j",
        "C:\\s".to_string(),
        "D:\\d".to_string(),
        files,
    );
    assert!(state.is_in_style(PathStyle::Windows));
    assert!(!state.is_in_style(UNIX));
    assert_eq!(state.pending.len(), 2);
    state.mark_completed("a\\/b".to_string(), None, 1);
    state.mark_completed("c:x".to_string(), None, 1);
    assert!(state.is_complete());
}

#[test]
fn copies_are_found_however_their_paths_are_written() {
    let mut state = make_state(&[]);
    state.mark_completed("a//b.txt".to_string(), None, 3);
    let on_disk = disk(&[("a/./b.txt", b"abc")]);
    let reverted = state.validate_completed("/destino/", &on_disk, ResumePolicy::VerifySize);
    assert_eq!(reverted, 0);
    let reverted = state.validate_completed("/otro", &on_disk, ResumePolicy::VerifySize);
    assert_eq!(reverted, 1);
    assert!(state.pending.contains("a/b.txt"));
}

#[test]
fn maps_survive_many_insertions_and_removals() {
    let mut map: PathMap<u64> = PathMap::new(UNIX);
    for i in 0..200u64 {
        map.insert(format!("k{i}"), i);
    }
    map.insert("k7".to_string(), 700);
    assert_eq!(map.len(), 200);
    for i in (0..200u64).step_by(3) {
        let expected = if i == 7 { 700 } else { i };
        assert_eq!(map.remove(&format!("k{i}")), Some(expected));
        assert_eq!(map.remove(&format!("k{i}")), None);
    }
    for i in 0..200u64 {
        let value = if i == 7 { 700 } else { i };
        let expected = if i % 3 == 0 { None } else { Some(&value) };
        assert_eq!(map.get(&format!("k{i}")), expected);
        assert_eq!(map.contains_key(&format!("k{i}")), i % 3 != 0);
    }
    let mut keys = map.keys();
    assert_eq!(keys.len(), map.len());
    keys.sort();
    keys.dedup();
    assert_eq!(keys.len(), map.len());
    assert!(!map.is_empty());
}
