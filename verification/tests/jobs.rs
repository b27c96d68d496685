//! Whole jobs, run against a disk in memory.

use std::collections::BTreeMap;

use filecopier::buffer_pool::BufferPool;
use filecopier::checkpoint::{CheckpointState, DiskFile, FlowControl, ResumePolicy};
use filecopier::config::{EngineConfig, OperationMode};
use filecopier::engine::agenda::JobTask;
use filecopier::engine::block::{configured_throttle, BlockEngine};
use filecopier::engine::dry_run::{DryRunner, PlannedAction, ProblemKind, ScannedFile, SkipReason};
use filecopier::engine::move_op::{
    delete_source_after_copy, removal_order, same_filesystem, try_atomic_move, CleanupResult,
    FoundFile, Transfer,
};
use filecopier::engine::orchestrator::{
    generate_job_id, CopiedFile, CopyResult, CopyRun, FileEntry, NextStep,
};
use filecopier::engine::swarm::{
    CopyCheck, Dispatch, SmallAction, SmallCopy, SwarmEngine, SwarmFileResult, TaskGate,
};
use filecopier::engine::Orchestrator;
use filecopier::error::{CoreError, Result};
use filecopier::hash::{new_hasher, Algorithm};
use filecopier::path::PathStyle;
use filecopier::path_map::{PathMap, PathSet};
use filecopier::pipeline::reader::{Gate, ReadStep};
use filecopier::pipeline::writer::{WriteFinish, WriterStep};
use filecopier::pipeline::{BlockReader, BlockWriter};
use filecopier::telemetry::TelemetrySink;

const UNIX: PathStyle = PathStyle::Unix;

/// Files by path. `/fast`, `/dst` and everything else lie on three devices.
#[derive(Default)]
struct Disk {
    files: BTreeMap<String, Vec<u8>>,
    dirs: Vec<String>,
    /// Every path that was ever written, in order.
    written: Vec<String>,
    /// Flips a bit of every block that is written here.
    damaged: Option<String>,
    /// How often a checkpoint was saved.
    saves: usize,
    /// Whether the checkpoint was deleted in the end.
    checkpoint_deleted: bool,
    /// Files that vanish as soon as they have their final name.
    vanishing: Option<String>,
    /// Cannot be deleted.
    undeletable: Option<String>,
}

impl Disk {
    fn with(files: &[(&str, &[u8])]) -> Disk {
        let mut disk = Disk::default();
        for (path, data) in files {
            disk.files.insert(path.to_string(), data.to_vec());
        }
        disk
    }

    fn device(path: &str) -> Option<u64> {
        Some(if path.starts_with("/fast") {
            1
        } else if path.starts_with("/dst") {
            3
        } else {
            2
        })
    }

    fn write(&mut self, path: &str, data: &[u8]) {
        let mut data = data.to_vec();
        if self.damaged.as_deref() == Some(path) && !data.is_empty() {
            data[0] ^= 1;
        }
        self.files.insert(path.to_string(), data);
        self.written.push(path.to_string());
    }

    fn rename(&mut self, from: &str, to: &str) -> bool {
        match self.files.remove(from) {
            Some(data) => {
                if self.vanishing.as_deref() != Some(to) {
                    self.files.insert(to.to_string(), data);
                }
                true
            }
            None => false,
        }
    }

    fn delete(&mut self, path: &str) -> std::result::Result<(), String> {
        if self.undeletable.as_deref() == Some(path) {
            return Err("busy".to_string());
        }
        self.files.remove(path).map(|_| ()).ok_or("gone".to_string())
    }

    fn size(&self, path: &str) -> Option<u64> {
        self.files.get(path).map(|data| data.len() as u64)
    }

    fn is_empty_dir(&self, dir: &str) -> bool {
        let below = format!("{dir}/");
        !self.files.keys().any(|f| f.starts_with(&below))
            && !self.dirs.iter().any(|d| d.starts_with(&below))
    }
}

fn blake3(data: &[u8]) -> String {
    let mut hasher = new_hasher(Algorithm::Blake3);
    hasher.update(data);
    hasher.finalize()
}

/// The files below `root`, with their relative paths and sizes.
fn scan(disk: &Disk, root: &str) -> Vec<(String, String, u64)> {
    let below = format!("{root}/");
    disk.files
        .iter()
        .filter(|(path, _)| path.starts_with(&below))
        .map(|(path, data)| (path.clone(), path[below.len()..].to_string(), data.len() as u64))
        .collect()
}

fn copy_small(
    disk: &mut Disk,
    config: EngineConfig,
    entry: &FileEntry,
    telemetry: &mut TelemetrySink,
) -> Result<Transfer> {
    let mut copy = SmallCopy::new(entry.source.clone(), entry.dest.clone(), UNIX, config);
    assert_eq!(copy.start(false, entry.size), vec![SmallAction::Read]);
    let data = match disk.files.get(&entry.source) {
        Some(data) => data.clone(),
        None => {
            let error = copy.fault(SmallAction::Read, "not found".to_string());
            return Err(error.unwrap());
        }
    };
    for action in copy.on_data(&data, false) {
        match action {
            SmallAction::Write => {
                let target = copy.target_path().clone();
                disk.write(&target, &data);
            }
            SmallAction::ReadBack => {
                let written = disk.files[copy.target_path()].clone();
                if let CopyCheck::Discard { remove, error } = copy.on_read_back(&written) {
                    disk.files.remove(&remove);
                    return Err(error);
                }
            }
            SmallAction::Rename => {
                let target = copy.target_path().clone();
                assert!(disk.rename(&target, &entry.dest));
            }
            SmallAction::CreateParent => assert!(UNIX.parent(&entry.dest).is_some()),
            SmallAction::Create => {
                disk.files.insert(copy.target_path().clone(), Vec::new());
            }
            SmallAction::Preallocate { bytes } => {
                assert_eq!(bytes, data.len() as u64);
                assert_eq!(disk.size(copy.target_path()), Some(0));
            }
            SmallAction::CopyMetadata => {
                let vanished = disk.vanishing.as_deref() == Some(entry.dest.as_str());
                assert!(vanished || disk.files.contains_key(&entry.dest));
            }
            other => panic!("unexpected step {other:?}"),
        }
    }
    Ok(copy.finish(telemetry))
}

fn copy_large(
    disk: &mut Disk,
    config: EngineConfig,
    entry: &FileEntry,
    flow: &FlowControl,
    telemetry: &mut TelemetrySink,
) -> Result<Transfer> {
    let engine = BlockEngine::new(config);
    let mut pool = BufferPool::new(config.block_size_bytes, engine.pool_size());
    let mut reader = BlockReader::new(&config);
    let mut writer = BlockWriter::new(&config, UNIX, entry.dest.clone());
    let target = writer.target_path().clone();
    let source = match disk.files.get(&entry.source) {
        Some(data) => data.clone(),
        None => return Err(CoreError::read(entry.source.clone(), "not found".to_string())),
    };
    let mut copy: Vec<u8> = Vec::new();
    let mut sequence = 0u64;
    let ended = loop {
        match reader.gate(flow) {
            Ok(Gate::Proceed) => {}
            Ok(Gate::Wait) => panic!("the job is never paused here"),
            Err(error) => break Err(error),
        }
        let mut buffer = pool.acquire();
        let at = reader.position() as usize;
        let n = (source.len() - at).min(buffer.len());
        buffer.as_mut_slice()[..n].copy_from_slice(&source[at..at + n]);
        match reader.on_read(telemetry, buffer, n) {
            ReadStep::EndOfFile(buffer) => {
                pool.release(buffer);
                break Ok(());
            }
            ReadStep::Send(block) => {
                assert_eq!(block.offset, at as u64);
                assert_eq!(block.sequence, sequence);
                assert!(!block.is_empty());
                if disk.damaged.as_deref() == Some(target.as_str()) {
                    let mut block = block;
                    block.buf.as_mut_slice()[0] ^= 1;
                    writer.on_block(&block);
                    copy.extend_from_slice(block.as_slice());
                    pool.release(block.buf);
                } else {
                    writer.on_block(&block);
                    copy.extend_from_slice(block.as_slice());
                    pool.release(block.buf);
                }
                sequence += 1;
            }
        }
    };
    assert_eq!(pool.available(), engine.pool_size());
    disk.files.insert(target.clone(), copy);
    disk.written.push(target);
    let source_end = match ended {
        Ok(()) => Ok(reader.finish()),
        Err(error) => Err(error),
    };
    let hash = match &source_end {
        Ok(hash) => hash.clone(),
        Err(_) => None,
    };
    match engine.copy_file(Some(source_end), Ok(()), writer)? {
        WriteFinish::Publish { rename, result } => {
            if let Some(from) = rename {
                assert!(disk.rename(&from, &result.final_path));
            }
            if disk.vanishing.as_deref() != Some(result.final_path.as_str()) {
                assert_eq!(disk.size(&result.final_path), Some(result.bytes_written));
            }
            Ok(Transfer { bytes: result.bytes_written, hash, dest_hash: result.dest_hash })
        }
        WriteFinish::Discard { remove, error } => {
            disk.files.remove(&remove);
            Err(error)
        }
    }
}

fn delete_source(disk: &mut Disk, run: &mut CopyRun, entry: &FileEntry, copied: CopiedFile) {
    let moved = delete_source_after_copy(
        entry.source.clone(),
        entry.dest.clone(),
        copied.hash.clone(),
        copied.size,
        run.verify,
        &copied.found,
        |source: String| disk.delete(&source),
    );
    run.on_source_deleted(copied, moved.delete_failed);
}

fn rename_whole(disk: &mut Disk, entry: &FileEntry) -> Option<filecopier::engine::move_op::MoveResult> {
    let renamed = if disk.rename(&entry.source, &entry.dest) { disk.size(&entry.dest) } else { None };
    try_atomic_move(entry.source.clone(), entry.dest.clone(), true, renamed)
}

fn same_fs(entry: &FileEntry) -> bool {
    let dir = UNIX.parent(&entry.dest).unwrap_or(entry.dest.clone());
    same_filesystem(Disk::device(&entry.source), Disk::device(&dir))
}

/// Runs a job and returns its result and the checkpoint that it leaves.
fn run_with(
    disk: &mut Disk,
    config: EngineConfig,
    source_root: &str,
    dest_root: &str,
    saved: Option<CheckpointState>,
    flow: &FlowControl,
) -> (CopyResult, CheckpointState) {
    let orchestrator = Orchestrator::new(config, UNIX);
    let files: Vec<FileEntry> = scan(disk, source_root)
        .into_iter()
        .map(|(source, relative, size)| orchestrator.tree_file(source, dest_root, relative, size))
        .collect();
    let job_id = generate_job_id(source_root, dest_root);
    let mut checkpoint = match saved {
        Some(state) if orchestrator.resumes(true) => state,
        _ => orchestrator.fresh_checkpoint(
            &job_id,
            source_root.to_string(),
            dest_root.to_string(),
            &files,
        ),
    };
    let mut seen = PathMap::new(UNIX);
    for relative in checkpoint.completed.keys() {
        let path = UNIX.join(dest_root, &relative);
        if let Some(data) = disk.files.get(&path) {
            seen.insert(
                path,
                DiskFile { len: Ok(data.len() as u64), digest: Ok(blake3(data)) },
            );
        }
    }
    let revalidated = orchestrator.revalidate(&mut checkpoint, dest_root, &seen);
    let plan = orchestrator.plan(&files, &checkpoint);
    let mut telemetry =
        TelemetrySink::new(plan.total_bytes, plan.large.len() + plan.small.len());
    let mut run = CopyRun::new(&config, checkpoint);

    let on_one_fs: Vec<bool> = plan.small.iter().map(same_fs).collect();
    let mut cleanup = CleanupResult::new();
    for task in orchestrator.agenda(&plan, &on_one_fs) {
        match task {
            JobTask::Rename(entry) => {
                let moved = rename_whole(disk, &entry);
                run.on_small_renamed(&mut telemetry, entry.relative, moved);
            }
            JobTask::Swarm(files) => run_swarm(disk, config, &mut run, &mut telemetry, files, flow),
            JobTask::Large(entry) => {
                run_large(disk, config, &mut run, &mut telemetry, &entry, flow);
            }
            JobTask::Save => disk.saves += 1,
            JobTask::Cleanup => {
                if run.wants_cleanup(flow) {
                    for dir in removal_order(UNIX, &disk.dirs.clone()) {
                        let removed = disk.is_empty_dir(&dir);
                        if removed {
                            disk.dirs.retain(|d| *d != dir);
                        }
                        cleanup.record(removed);
                    }
                }
            }
            JobTask::DeleteCheckpoint => {
                disk.checkpoint_deleted = run.wants_checkpoint_deleted(&files);
            }
        }
    }
    let checkpoint_after = copy_of_checkpoint(&run.checkpoint);
    let counts = telemetry.snapshot();
    (run.finish(counts, revalidated, cleanup.removed), checkpoint_after)
}

fn run_swarm(
    disk: &mut Disk,
    config: EngineConfig,
    run: &mut CopyRun,
    telemetry: &mut TelemetrySink,
    files: Vec<FileEntry>,
    flow: &FlowControl,
) {
    let swarm = SwarmEngine::new(config);
    let mut outcomes = Vec::new();
    let mut entries: BTreeMap<String, FileEntry> = BTreeMap::new();
    for entry in files {
        if swarm.dispatch(flow) == Dispatch::Stop {
            break;
        }
        let result = match swarm.task_gate(flow) {
            TaskGate::Copy => copy_small(disk, config, &entry, telemetry),
            _ => Err(CoreError::PipelineDisconnected),
        };
        outcomes.push(Some(SwarmFileResult { relative: entry.relative.clone(), result }));
        entries.insert(entry.relative.clone(), entry);
    }
    for outcome in swarm.collect(outcomes) {
        let entry = entries.remove(&outcome.relative).unwrap();
        let size = disk.size(&entry.dest);
        if let NextStep::DeleteSource(copied) =
            run.on_swarm_result(outcome.relative, outcome.result, size)
        {
            delete_source(disk, run, &entry, copied);
        }
    }
}

fn run_large(
    disk: &mut Disk,
    config: EngineConfig,
    run: &mut CopyRun,
    telemetry: &mut TelemetrySink,
    entry: &FileEntry,
    flow: &FlowControl,
) {
    let mut next = run.begin_large(telemetry, &entry.relative, flow.is_cancelled(), same_fs(entry));
    if let NextStep::TryRename = next {
        let moved = rename_whole(disk, entry);
        next = run.on_large_renamed(telemetry, &entry.relative, moved);
    }
    if let NextStep::Copy = next {
        let result = copy_large(disk, config, entry, flow, telemetry);
        let size = disk.size(&entry.dest);
        next = run.on_large_copied(telemetry, entry.relative.clone(), entry.size, result, size);
    }
    if let NextStep::DeleteSource(copied) = next {
        delete_source(disk, run, entry, copied);
    }
}

fn copy_of_checkpoint(state: &CheckpointState) -> CheckpointState {
    let mut copy = CheckpointState::new(
        UNIX,
        &state.job_id,
        state.source_root.clone(),
        state.dest_root.clone(),
        state.pending.list(),
    );
    for path in state.completed.keys() {
        let entry = state.completed.get(&path).unwrap();
        copy.mark_completed(path, entry.hash.clone(), entry.size_bytes);
    }
    for path in state.failed.keys() {
        let error = state.failed.get(&path).unwrap().clone();
        copy.mark_failed(path, error);
    }
    copy
}

fn run(disk: &mut Disk, config: EngineConfig) -> CopyResult {
    run_with(disk, config, "/src", "/dst", None, &FlowControl::new()).0
}

fn small_config() -> EngineConfig {
    EngineConfig {
        triage_threshold_bytes: 1024 * 1024,
        block_size_bytes: 64 * 1024,
        channel_capacity: 4,
        swarm_concurrency: 4,
        ..EngineConfig::default()
    }
}

fn test_config() -> EngineConfig {
    EngineConfig {
        triage_threshold_bytes: 1024 * 1024,
        block_size_bytes: 64 * 1024,
        channel_capacity: 4,
        swarm_concurrency: 4,
        verify: false,
        hash_algorithm: Algorithm::Blake3,
        resume: false,
        use_partial_files: true,
        bandwidth_limit_bytes_per_sec: 0,
        bandwidth_burst_bytes: 1024 * 1024,
        ..EngineConfig::default()
    }
}

fn test_config_verify() -> EngineConfig {
    EngineConfig { verify: true, ..test_config() }
}

fn cycle(n: usize) -> Vec<u8> {
    (0u8..=255).cycle().take(n).collect()
}

#[test]
fn copy_single_small_file() {
    let content = b"Hola FileCopier-Rust!";
    let mut disk = Disk::with(&[("/src/hello.txt", content)]);
    let result = run(&mut disk, test_config());
    assert_eq!(result.completed_files, 1);
    assert_eq!(result.failed_files, 0);
    assert_eq!(disk.files["/dst/hello.txt"], content);
}

#[test]
fn copy_binary_file_preserves_content() {
    let content = cycle(8192);
    let mut disk = Disk::with(&[("/src/binary.bin", &content)]);
    run(&mut disk, test_config());
    assert_eq!(disk.files["/dst/binary.bin"], content);
}

#[test]
fn copy_preserves_directory_structure() {
    let mut disk = Disk::with(&[
        ("/src/raiz.txt", b"raiz"),
        ("/src/sub/a.txt", b"a"),
        ("/src/sub/b.txt", b"b"),
        ("/src/sub/deep/c.txt", b"c"),
    ]);
    let result = run(&mut disk, test_config());
    assert_eq!(result.completed_files, 4);
    assert_eq!(result.failed_files, 0);
    assert_eq!(disk.files["/dst/raiz.txt"], b"raiz");
    assert_eq!(disk.files["/dst/sub/a.txt"], b"a");
    assert_eq!(disk.files["/dst/sub/b.txt"], b"b");
    assert_eq!(disk.files["/dst/sub/deep/c.txt"], b"c");
}

#[test]
fn copy_with_verify_succeeds_on_intact_file() {
    let mut disk = Disk::with(&[("/src/data.bin", &[0xAB; 4096])]);
    let result = run(&mut disk, test_config_verify());
    assert_eq!(result.completed_files, 1);
    assert_eq!(result.failed_files, 0);
}

#[test]
fn copy_empty_file() {
    let mut disk = Disk::with(&[("/src/empty.txt", b"")]);
    let result = run(&mut disk, test_config());
    assert_eq!(result.completed_files, 1);
    assert!(disk.files["/dst/empty.txt"].is_empty());
}

#[test]
fn copy_file_without_extension() {
    let mut disk = Disk::with(&[("/src/Makefile", b"all:\n\techo hello\n")]);
    let result = run(&mut disk, test_config());
    assert_eq!(result.completed_files, 1);
    assert!(disk.files.contains_key("/dst/Makefile"));
    assert!(!disk.files.contains_key("/dst/Makefile.partial"));
    assert_eq!(disk.written, vec!["/dst/Makefile.partial".to_string()]);
}

#[test]
fn copy_large_file_via_block_engine_with_raii_pool() {
    let content = cycle(4 * 1024 * 1024);
    let mut disk = Disk::with(&[("/src/large.bin", &content)]);
    let result = run(&mut disk, test_config());
    assert_eq!(result.completed_files, 1);
    assert_eq!(result.failed_files, 0);
    assert_eq!(disk.files["/dst/large.bin"], content);
}

#[test]
fn copy_large_file_with_verify() {
    let content = cycle(2 * 1024 * 1024);
    let mut disk = Disk::with(&[("/src/large_verify.bin", &content)]);
    let result = run(&mut disk, test_config_verify());
    assert_eq!(result.completed_files, 1);
    assert_eq!(result.failed_files, 0);
    assert_eq!(disk.files["/dst/large_verify.bin"], content);
}

#[test]
fn copy_mixed_size_files() {
    let mut disk = Disk::default();
    for i in 0u8..10 {
        disk.files.insert(format!("/src/small_{i}.txt"), vec![i; 100]);
    }
    let large = cycle(2 * 1024 * 1024);
    disk.files.insert("/src/large.bin".to_string(), large.clone());
    let result = run(&mut disk, test_config());
    assert_eq!(result.completed_files, 11);
    assert_eq!(result.failed_files, 0);
    assert_eq!(disk.saves, 2);
    for i in 0u8..10 {
        assert_eq!(disk.files[&format!("/dst/small_{i}.txt")], vec![i; 100]);
    }
    assert_eq!(disk.files["/dst/large.bin"], large);
}

#[test]
fn result_bytes_matches_actual_size() {
    let mut disk = Disk::with(&[("/src/a.bin", &[1u8; 1234]), ("/src/b.bin", &[2u8; 5678])]);
    let result = run(&mut disk, test_config());
    assert_eq!(result.copied_bytes, 1234 + 5678);
    assert_eq!(result.total_bytes, 1234 + 5678);
}

/// Simulates a job: what `run_with` is for real ones.
fn run_dry(disk: &Disk, config: EngineConfig) -> CopyResult {
    let files: Vec<ScannedFile> = scan(disk, "/src")
        .into_iter()
        .map(|(source, relative, size)| {
            let existing_size = disk.size(&format!("/dst/{relative}"));
            ScannedFile { source, relative, size, exists: true, readable: Ok(()), existing_size }
        })
        .collect();
    let is_move = config.operation_mode == OperationMode::Move;
    let runner = DryRunner::new(&config, is_move, PathSet::new(UNIX));
    Orchestrator::run_dry(runner.run("/dst", &files, None, Some(1 << 40)))
}

#[test]
fn dry_run_does_not_write_files() {
    let disk = Disk::with(&[("/src/file.txt", b"hello"), ("/src/other.bin", b"world world")]);
    let config = EngineConfig { dry_run: true, ..small_config() };
    let result = run_dry(&disk, config);
    assert!(!disk.files.contains_key("/dst/file.txt"));
    assert!(!disk.files.contains_key("/dst/other.bin"));
    assert!(result.dry_run_report.is_some());
    assert_eq!(result.completed_files, 0);
    assert_eq!(result.copied_bytes, 0);
}

#[test]
fn dry_run_counts_files_and_bytes() {
    let disk = Disk::with(&[("/src/a.txt", b"1234567890"), ("/src/b.txt", b"12345")]);
    let result = run_dry(&disk, EngineConfig { dry_run: true, ..small_config() });
    let report = result.dry_run_report.unwrap();
    assert_eq!(report.total_files, 2);
    assert_eq!(report.total_bytes, 15);
    assert!(report.is_safe);
}

#[test]
fn dry_run_move_shows_move_actions() {
    let disk = Disk::with(&[("/src/data.bin", b"move me")]);
    let config = EngineConfig {
        dry_run: true,
        operation_mode: OperationMode::Move,
        ..small_config()
    };
    let report = run_dry(&disk, config).dry_run_report.unwrap();
    assert_eq!(report.total_files, 1);
    assert!(matches!(&report.actions[0], PlannedAction::Move { .. }));
    assert!(disk.files.contains_key("/src/data.bin"));
}

#[test]
fn dry_run_detects_already_existing_file() {
    let data = b"same content";
    let disk = Disk::with(&[("/src/existing.txt", data), ("/dst/existing.txt", data)]);
    let report =
        run_dry(&disk, EngineConfig { dry_run: true, ..small_config() }).dry_run_report.unwrap();
    assert_eq!(report.total_files, 0);
    assert_eq!(report.skipped_files, 1);
}

#[test]
fn dry_run_is_idempotent() {
    let disk = Disk::with(&[("/src/data.txt", b"idempotent")]);
    let config = EngineConfig { dry_run: true, ..small_config() };
    let rep1 = run_dry(&disk, config).dry_run_report.unwrap();
    let rep2 = run_dry(&disk, config).dry_run_report.unwrap();
    assert_eq!(rep1.total_files, rep2.total_files);
    assert_eq!(rep1.total_bytes, rep2.total_bytes);
    assert_eq!(rep1.is_safe, rep2.is_safe);
    assert!(!disk.files.contains_key("/dst/data.txt"));
}

#[test]
fn dry_run_lists_every_kind_of_problem() {
    let config = small_config();
    let done = PathSet::from_list(PathStyle::Windows, vec!["done.txt".to_string()]);
    let runner = DryRunner::new(&config, false, done);
    let long_name = format!("{}.txt", "n".repeat(260));
    let long_dest = format!("D:\\dst\\{long_name}");
    let file = |relative: &str, size: u64| ScannedFile {
        source: format!("C:\\src\\{relative}"),
        relative: relative.to_string(),
        size,
        exists: true,
        readable: Ok(()),
        existing_size: None,
    };
    let files = vec![
        file("done.txt", 7),
        ScannedFile { exists: false, ..file("gone.txt", 1) },
        ScannedFile { readable: Err("denied".to_string()), ..file("locked.txt", 2) },
        ScannedFile { existing_size: Some(9), ..file("other.txt", 1500) },
        file(&long_name, 3 * 1024 * 1024),
    ];
    let report = runner.run("D:\\dst", &files, Some("read only".to_string()), Some(1024));
    let kinds: Vec<ProblemKind> = report.problems.iter().map(|p| p.kind).collect();
    assert_eq!(
        kinds,
        vec![
            ProblemKind::NoWritePermission,
            ProblemKind::SourceGone,
            ProblemKind::NoReadPermission,
            ProblemKind::PathTooLong,
            ProblemKind::InsufficientSpace,
        ]
    );
    assert_eq!(report.problems[0].path, "D:\\dst");
    assert_eq!(report.problems[0].message, "read only");
    assert_eq!(report.problems[1].message, "el archivo desapareció durante el escaneo");
    assert_eq!(report.problems[2].message, "denied");
    assert_eq!(
        report.problems[3].message,
        "path destino tiene 271 chars (máx 260 en Windows sin LFN)"
    );
    assert_eq!(report.problems[3].path, long_dest);
    assert_eq!(report.problems[4].message, "necesario: 3.0 MB, disponible: 1 KB");
    assert_eq!(report.problem_files, 5);
    assert!(!report.is_safe);
    assert_eq!(report.total_files, 2);
    assert_eq!(report.total_bytes, 1500 + 3 * 1024 * 1024);
    assert_eq!(report.skipped_files, 1);
    assert_eq!(report.actions.len(), 3);
    assert!(matches!(
        &report.actions[0],
        PlannedAction::Skip { reason: SkipReason::Checkpoint, .. }
    ));
    assert!(matches!(&report.actions[1], PlannedAction::Overwrite { existing_size: 9, .. }));
    assert!(matches!(&report.actions[2], PlannedAction::Copy { .. }));

    let quiet = report.print(false);
    assert!(quiet.contains(&"  Archivos a procesar: 2".to_string()));
    assert!(quiet.contains(&"  ⚠  Problemas detectados: 5".to_string()));
    assert!(quiet.contains(&"    [SIN LECTURA] C:\\src\\locked.txt — denied".to_string()));
    assert!(!quiet.contains(&"  Acciones planificadas:".to_string()));
    let verbose = report.print(true);
    assert!(verbose.contains(&"    SALTAR  C:\\src\\done.txt [checkpoint]".to_string()));
    assert!(verbose
        .contains(&"    SOBRE   C:\\src\\other.txt → D:\\dst\\other.txt (9 B → 1 KB)".to_string()));
    assert!(verbose.contains(
        &format!("    COPIAR  C:\\src\\{long_name} → {long_dest} (3.0 MB)")
    ));
    let unlimited = DryRunner::new(&config, false, PathSet::new(UNIX));
    let report = unlimited.run("/dst", &vec![file(&long_name, 1)], None, None);
    assert!(report.is_safe);
    assert_eq!(
        verbose[verbose.len() - 2],
        "  ✗ HAY PROBLEMAS — revisa los errores antes de ejecutar"
    );
}

#[test]
fn dry_run_report_of_a_safe_job() {
    let disk = Disk::with(&[("/src/a.txt", b"12345")]);
    let report =
        run_dry(&disk, EngineConfig { dry_run: true, ..small_config() }).dry_run_report.unwrap();
    let frame = "━━━━━━━━━━━━━━━━━━━━━━━━━━━━━━━━━━━━━━━━━━━━━━━━━━━━";
    assert_eq!(
        report.print(false),
        vec![
            frame,
            "  Dry-run — simulación (sin cambios en disco)",
            frame,
            "  Archivos a procesar: 1",
            "  Datos a transferir:  5 B",
            "  Archivos a saltar:   0",
            "",
            frame,
            "  ✓ Sin problemas detectados — la operación puede ejecutarse",
            frame,
        ]
    );
    assert_eq!(
        report.print(true)[6..10].to_vec(),
        vec!["", "", "  Acciones planificadas:", "    COPIAR  /src/a.txt → /dst/a.txt (5 B)"]
    );
}

#[test]
fn move_deletes_source_after_successful_copy() {
    let data = b"content to move";
    let mut disk = Disk::with(&[("/src/moveme.txt", data)]);
    let config = EngineConfig { operation_mode: OperationMode::Move, ..small_config() };
    let result = run(&mut disk, config);
    assert_eq!(disk.files["/dst/moveme.txt"], data);
    assert!(!disk.files.contains_key("/src/moveme.txt"));
    assert_eq!(result.failed_files, 0);
    assert_eq!(result.moved_files, 1);
}

#[test]
fn move_preserves_directory_structure() {
    let mut disk = Disk::with(&[("/src/root.txt", b"root"), ("/src/sub/deep.txt", b"deep")]);
    disk.dirs = vec!["/src".to_string(), "/src/sub".to_string()];
    let config = EngineConfig { operation_mode: OperationMode::Move, ..small_config() };
    let result = run(&mut disk, config);
    assert_eq!(result.completed_files, 2);
    assert_eq!(result.failed_files, 0);
    assert!(disk.files.contains_key("/dst/root.txt"));
    assert!(disk.files.contains_key("/dst/sub/deep.txt"));
    assert!(!disk.files.contains_key("/src/root.txt"));
    assert!(!disk.files.contains_key("/src/sub/deep.txt"));
    assert_eq!(result.dirs_removed, 2);
}

#[test]
fn move_with_verify_checks_integrity_before_delete() {
    let data = cycle(512);
    let mut disk = Disk::with(&[("/src/verified.bin", &data)]);
    let config = EngineConfig {
        operation_mode: OperationMode::Move,
        verify: true,
        ..small_config()
    };
    let result = run(&mut disk, config);
    assert_eq!(result.failed_files, 0);
    assert_eq!(disk.files["/dst/verified.bin"], data);
    assert!(!disk.files.contains_key("/src/verified.bin"));
}

#[test]
fn copy_mode_never_deletes_source() {
    let mut disk = Disk::with(&[("/src/keep.txt", b"keep me")]);
    let result = run(&mut disk, small_config());
    assert!(disk.files.contains_key("/src/keep.txt"));
    assert!(disk.files.contains_key("/dst/keep.txt"));
    assert_eq!(result.failed_files, 0);
}

#[test]
fn remove_empty_dirs_removes_all_empty() {
    let mut disk = Disk::default();
    disk.dirs = ["/r", "/r/a", "/r/a/b", "/r/a/b/c", "/r/a/d"].map(String::from).to_vec();
    let mut result = CleanupResult::new();
    for dir in removal_order(UNIX, &disk.dirs.clone()) {
        let removed = disk.is_empty_dir(&dir);
        if removed {
            disk.dirs.retain(|d| *d != dir);
        }
        result.record(removed);
    }
    assert!(disk.dirs.is_empty());
    assert!(result.removed >= 4);
    assert_eq!(result.skipped, 0);
}

#[test]
fn remove_empty_dirs_skips_non_empty() {
    let mut disk = Disk::with(&[("/r/sub/remaining.txt", b"I stay")]);
    disk.dirs = ["/r", "/r/sub", "/r/empty"].map(String::from).to_vec();
    let mut result = CleanupResult::new();
    for dir in removal_order(UNIX, &disk.dirs.clone()) {
        let removed = disk.is_empty_dir(&dir);
        if removed {
            disk.dirs.retain(|d| *d != dir);
        }
        result.record(removed);
    }
    assert!(!disk.dirs.contains(&"/r/empty".to_string()));
    assert!(disk.dirs.contains(&"/r/sub".to_string()));
    assert_eq!(result.removed, 1);
    assert!(result.skipped >= 1);
}

#[test]
fn removal_goes_from_the_leaves_to_the_root() {
    let dirs: Vec<String> =
        ["/r", "/r/b", "/r/b/x", "/r/a", "/r/a/y", "/r/a/y/z"].map(String::from).to_vec();
    assert_eq!(
        removal_order(UNIX, &dirs),
        ["/r/a/y/z", "/r/b/x", "/r/a/y", "/r/b", "/r/a", "/r"].map(String::from).to_vec()
    );
    assert!(removal_order(UNIX, &Vec::new()).is_empty());
}

#[test]
fn same_filesystem_same_dir() {
    assert!(same_filesystem(Disk::device("/fast/a.txt"), Disk::device("/fast")));
    assert!(!same_filesystem(Disk::device("/fast/a.txt"), Disk::device("/slow")));
    assert!(!same_filesystem(None, Some(1)));
    assert!(!same_filesystem(None, None));
}

#[test]
fn try_atomic_move_within_same_dir() {
    let mut disk = Disk::with(&[("/d/src.txt", b"data")]);
    let entry = FileEntry {
        source: "/d/src.txt".to_string(),
        dest: "/d/dst.txt".to_string(),
        size: 4,
        relative: "src.txt".to_string(),
    };
    let result = rename_whole(&mut disk, &entry);
    assert!(result.is_some());
    assert_eq!(result.unwrap().bytes_moved, 4);
    assert!(!disk.files.contains_key("/d/src.txt"));
    assert!(disk.files.contains_key("/d/dst.txt"));
    let source = "/d/x".to_string();
    assert!(try_atomic_move(source.clone(), source.clone(), false, Some(1)).is_none());
    assert!(try_atomic_move(source.clone(), source, true, None).is_none());
}

#[test]
fn move_within_one_file_system_renames() {
    let large = cycle(2 * 1024 * 1024);
    let mut disk = Disk::with(&[("/fast/in/s.txt", b"small"), ("/fast/in/l.bin", &large)]);
    let config = EngineConfig { operation_mode: OperationMode::Move, ..small_config() };
    let (result, checkpoint) =
        run_with(&mut disk, config, "/fast/in", "/fast/out", None, &FlowControl::new());
    assert!(disk.written.is_empty());
    assert_eq!(disk.files["/fast/out/s.txt"], b"small");
    assert_eq!(disk.files["/fast/out/l.bin"], large);
    assert_eq!(result.moved_files, 2);
    assert_eq!(result.completed_files, 2);
    assert_eq!(result.copied_bytes, 5 + large.len() as u64);
    assert_eq!(checkpoint.completed.get("l.bin").unwrap().size_bytes, large.len() as u64);
    assert!(checkpoint.completed.get("s.txt").unwrap().hash.is_none());
}

#[test]
fn a_small_file_that_cannot_be_renamed_fails() {
    let config = EngineConfig { operation_mode: OperationMode::Move, ..small_config() };
    let state = CheckpointState::new(
        UNIX,
        "j",
        "/src".to_string(),
        "/dst".to_string(),
        vec!["a".to_string(), "b".to_string()],
    );
    let mut run = CopyRun::new(&config, state);
    let mut telemetry = TelemetrySink::new(10, 2);
    run.on_small_renamed(&mut telemetry, "a".to_string(), None);
    assert_eq!(run.checkpoint.failed.get("a").unwrap(), "rename atómico falló");
    let next = run.on_large_renamed(&mut telemetry, &"b".to_string(), None);
    assert!(matches!(next, NextStep::Copy));
    assert!(run.checkpoint.pending.contains("b"));
    assert_eq!(run.moved_files, 0);
    assert_eq!(telemetry.snapshot().failed_files, 1);
}

#[test]
fn a_source_that_cannot_be_deleted_is_counted() {
    let mut disk = Disk::with(&[("/src/a.txt", b"aa"), ("/src/b.txt", b"b")]);
    disk.undeletable = Some("/src/a.txt".to_string());
    let config = EngineConfig { operation_mode: OperationMode::Move, ..small_config() };
    let (result, checkpoint) =
        run_with(&mut disk, config, "/src", "/dst", None, &FlowControl::new());
    assert_eq!(result.moved_files, 1);
    assert_eq!(result.move_delete_failed, 1);
    assert_eq!(result.completed_files, 2);
    assert!(checkpoint.completed.contains_key("a.txt"));
    assert!(disk.files.contains_key("/src/a.txt"));
}

#[test]
fn a_damaged_copy_is_discarded_and_its_source_kept() {
    let large = cycle(1024 * 1024);
    let mut disk = Disk::with(&[("/src/l.bin", &large)]);
    disk.damaged = Some("/dst/l.bin.partial".to_string());
    let config = EngineConfig {
        operation_mode: OperationMode::Move,
        verify: true,
        ..small_config()
    };
    let (result, checkpoint) =
        run_with(&mut disk, config, "/src", "/dst", None, &FlowControl::new());
    assert_eq!(result.failed_files, 1);
    assert_eq!(result.completed_files, 0);
    assert_eq!(disk.files.len(), 1);
    assert_eq!(disk.files["/src/l.bin"], large);
    let message = checkpoint.failed.get("l.bin").unwrap();
    assert!(message.starts_with("Verificación fallida para '/dst/l.bin': esperado="));
    assert!(message.contains(&blake3(&large)));
}

#[test]
fn without_verification_nothing_is_compared() {
    let large = cycle(1024 * 1024);
    let mut disk = Disk::with(&[("/src/l.bin", &large)]);
    disk.damaged = Some("/dst/l.bin.partial".to_string());
    let result = run(&mut disk, small_config());
    assert_eq!(result.completed_files, 1);
    assert!(disk.files["/dst/l.bin"] != large);
}

#[test]
fn files_are_written_in_place_without_partial_names() {
    let large = cycle(1024 * 1024);
    let mut disk = Disk::with(&[("/src/l.bin", &large), ("/src/s.txt", b"s")]);
    run(&mut disk, EngineConfig { use_partial_files: false, ..small_config() });
    assert_eq!(disk.written, vec!["/dst/s.txt".to_string(), "/dst/l.bin".to_string()]);
}

#[test]
fn a_resumed_job_copies_only_what_is_left_or_damaged() {
    let files: [(&str, &[u8]); 4] = [
        ("/src/kept.txt", b"kept"),
        ("/src/lost.txt", b"lost"),
        ("/src/cut.txt", b"whole"),
        ("/src/new.txt", b"new"),
    ];
    let mut disk = Disk::with(&files[..3]);
    let config = EngineConfig { resume: true, verify: true, ..test_config() };
    let (first, saved) =
        run_with(&mut disk, config, "/src", "/dst", None, &FlowControl::new());
    assert_eq!(first.completed_files, 3);
    assert_eq!(first.revalidated_files, 0);
    assert!(saved.is_complete());
    disk.files.remove("/dst/lost.txt");
    disk.files.insert("/dst/cut.txt".to_string(), b"who".to_vec());
    disk.files.insert("/src/new.txt".to_string(), b"new".to_vec());
    disk.written.clear();
    let (second, saved) =
        run_with(&mut disk, config, "/src", "/dst", Some(saved), &FlowControl::new());
    assert_eq!(second.revalidated_files, 2);
    assert_eq!(second.completed_files, 3);
    assert_eq!(
        disk.written,
        ["/dst/cut.txt.partial", "/dst/lost.txt.partial", "/dst/new.txt.partial"]
            .map(String::from)
            .to_vec()
    );
    assert_eq!(disk.files["/dst/cut.txt"], b"whole");
    assert_eq!(saved.completed.len(), 4);
}

#[test]
fn a_checkpoint_counts_only_for_a_job_that_resumes() {
    let mut disk = Disk::with(&[("/src/a.txt", b"a")]);
    let (_, saved) =
        run_with(&mut disk, test_config(), "/src", "/dst", None, &FlowControl::new());
    let (again, _) =
        run_with(&mut disk, test_config(), "/src", "/dst", Some(saved), &FlowControl::new());
    assert_eq!(again.completed_files, 1);
    assert_eq!(again.revalidated_files, 0);
}

#[test]
fn verify_hash_finds_what_verify_size_does_not() {
    for (policy, expected) in [
        (ResumePolicy::TrustCheckpoint, 0),
        (ResumePolicy::VerifySize, 0),
        (ResumePolicy::VerifyHash, 1),
    ] {
        let mut disk = Disk::with(&[("/src/a.txt", b"aaaa")]);
        let config =
            EngineConfig { resume: true, resume_policy: policy, verify: true, ..test_config() };
        let (_, saved) =
            run_with(&mut disk, config, "/src", "/dst", None, &FlowControl::new());
        disk.files.insert("/dst/a.txt".to_string(), b"aaab".to_vec());
        let (again, _) =
            run_with(&mut disk, config, "/src", "/dst", Some(saved), &FlowControl::new());
        assert_eq!(again.revalidated_files, expected);
        assert_eq!(disk.files["/dst/a.txt"] == b"aaaa", expected == 1);
    }
}

#[test]
fn a_cancelled_job_fails_large_files_and_leaves_small_ones_pending() {
    let large = cycle(1024 * 1024);
    let mut disk = Disk::with(&[("/src/l.bin", &large), ("/src/s.txt", b"s")]);
    let mut flow = FlowControl::new();
    flow.cancel();
    let config = EngineConfig { operation_mode: OperationMode::Move, ..small_config() };
    let (result, checkpoint) = run_with(&mut disk, config, "/src", "/dst", None, &flow);
    assert_eq!(result.completed_files, 0);
    assert_eq!(result.failed_files, 1);
    assert_eq!(checkpoint.failed.get("l.bin").unwrap(), "Cancelado");
    assert!(checkpoint.pending.contains("s.txt"));
    assert_eq!(disk.files.len(), 2);
    assert_eq!(result.dirs_removed, 0);
}

#[test]
fn a_reader_that_is_stopped_publishes_nothing() {
    let config = small_config();
    let mut flow = FlowControl::new();
    let reader = BlockReader::new(&config);
    assert!(matches!(reader.gate(&flow), Ok(Gate::Proceed)));
    flow.pause();
    assert!(matches!(reader.gate(&flow), Ok(Gate::Wait)));
    flow.cancel();
    let stopped = reader.gate(&flow);
    assert!(matches!(stopped, Err(CoreError::PipelineDisconnected)));
    let engine = BlockEngine::new(config);
    let finish = engine.copy_file(
        Some(Err(CoreError::PipelineDisconnected)),
        Ok(()),
        BlockWriter::new(&config, UNIX, "/dst/x".to_string()),
    );
    assert!(matches!(finish, Err(CoreError::PipelineDisconnected)));
    let finish =
        engine.copy_file(None, Ok(()), BlockWriter::new(&config, UNIX, "/dst/x".to_string()));
    assert!(matches!(finish, Err(CoreError::PipelineDisconnected)));
    let finish = engine.copy_file(
        Some(Ok(None)),
        Err(CoreError::write("/dst/x.partial".to_string(), "full".to_string())),
        BlockWriter::new(&config, UNIX, "/dst/x".to_string()),
    );
    assert!(matches!(finish, Err(CoreError::WriteDestination { .. })));
}

#[test]
fn the_block_engine_reserves_buffers() {
    let engine = BlockEngine::new(small_config());
    assert_eq!(engine.pool_size(), 6);
    assert!(configured_throttle(&small_config()).is_none());
    let limited = EngineConfig {
        bandwidth_limit_bytes_per_sec: 500,
        bandwidth_burst_bytes: 20,
        ..small_config()
    };
    let mut throttle = configured_throttle(&limited).unwrap();
    assert_eq!(throttle.get_limit(), 500);
    assert!(throttle.try_consume(20, 0));
    assert!(!throttle.try_consume(1, 0));
}

#[test]
fn opening_steps_and_faults_of_a_writer() {
    let writer = BlockWriter::new(&small_config(), UNIX, "/d/x".to_string());
    assert_eq!(
        writer.opening(7),
        vec![
            WriterStep::CreateParent,
            WriterStep::Create,
            WriterStep::Preallocate { bytes: 7 },
        ]
    );
    assert_eq!(writer.opening(0), vec![WriterStep::CreateParent, WriterStep::Create]);
    let text = |step: WriterStep| writer.fault(step, "why".to_string()).map(|e| e.to_string());
    assert_eq!(text(WriterStep::CreateParent).unwrap(), "Error de I/O en '/d': why");
    for step in [WriterStep::Create, WriterStep::Write, WriterStep::Flush] {
        assert_eq!(
            text(step).unwrap(),
            "No se puede escribir en destino '/d/x.partial': why"
        );
    }
    assert!(text(WriterStep::Preallocate { bytes: 7 }).is_none());
    assert!(text(WriterStep::Throttle { bytes: 7 }).is_none());
}

#[test]
fn a_block_passes_the_limit_before_it_is_written() {
    let writer = BlockWriter::new(&small_config(), UNIX, "/d/x".to_string());
    assert_eq!(
        writer.block_steps(true, 9),
        vec![WriterStep::Throttle { bytes: 9 }, WriterStep::Write]
    );
    assert_eq!(writer.block_steps(false, 9), vec![WriterStep::Write]);
    assert_eq!(writer.closing_steps(), vec![WriterStep::Flush]);
}

#[test]
fn a_pause_stops_between_blocks() {
    let mut telemetry = TelemetrySink::new(8, 1);
    let mut flow = FlowControl::new();
    let mut reader = BlockReader::new(&small_config());
    let mut writer = BlockWriter::new(&small_config(), UNIX, "/d/x".to_string());
    let mut pool = BufferPool::new(4, 2);
    let mut sent = Vec::new();
    for part in [b"abcd", b"efgh"] {
        assert!(matches!(reader.gate(&flow), Ok(Gate::Proceed)));
        let mut buffer = pool.acquire();
        buffer.as_mut_slice().copy_from_slice(part);
        match reader.on_read(&mut telemetry, buffer, 4) {
            ReadStep::Send(block) => sent.push(block),
            ReadStep::EndOfFile(_) => panic!("the file goes on"),
        }
    }
    flow.pause();
    assert!(matches!(reader.gate(&flow), Ok(Gate::Wait)));
    for block in &sent {
        writer.on_block(block);
    }
    match writer.finish(reader.finish()) {
        WriteFinish::Publish { result, .. } => assert_eq!(result.bytes_written, 8),
        WriteFinish::Discard { .. } => panic!("the copy is whole"),
    }
}

#[test]
fn files_are_done_however_their_paths_are_written() {
    let orchestrator = Orchestrator::new(small_config(), PathStyle::Windows);
    let files = vec![
        orchestrator.tree_file("C:\\s\\a\\b".to_string(), "D:\\d", "a\\b".to_string(), 1),
        orchestrator.tree_file("C:\\s\\c".to_string(), "D:\\d", "c".to_string(), 1),
    ];
    let mut state = orchestrator.fresh_checkpoint(
        "j",
        "C:\\s".to_string(),
        "D:\\d".to_string(),
        &files,
    );
    state.mark_completed("a//b/.".to_string(), None, 1);
    let plan = orchestrator.plan(&files, &state);
    assert_eq!(plan.large.len() + plan.small.len(), 1);
    let config = small_config();
    let done = orchestrator.completed_for_dry_run(Some(Ok(state)));
    let runner = DryRunner::new(&config, false, done);
    let scanned = vec![ScannedFile {
        source: "C:\\s\\a\\b".to_string(),
        relative: "a/b".to_string(),
        size: 1,
        exists: true,
        readable: Ok(()),
        existing_size: None,
    }];
    let report = runner.run("D:\\d", &scanned, None, None);
    assert_eq!(report.skipped_files, 1);
    assert_eq!(report.total_files, 0);
}

#[test]
fn steps_of_a_throttled_small_copy() {
    let config = EngineConfig { use_partial_files: false, verify: true, ..small_config() };
    let mut copy = SmallCopy::new("/s/a".to_string(), "/d/a".to_string(), UNIX, config);
    assert_eq!(
        copy.start(true, 9),
        vec![SmallAction::Throttle { bytes: 9 }, SmallAction::Read]
    );
    assert_eq!(
        copy.on_data(b"abc", true),
        vec![
            SmallAction::CreateParent,
            SmallAction::Create,
            SmallAction::Preallocate { bytes: 3 },
            SmallAction::Throttle { bytes: 3 },
            SmallAction::Write,
            SmallAction::ReadBack,
            SmallAction::CopyMetadata,
        ]
    );
    assert!(matches!(copy.on_read_back(b"abc"), CopyCheck::Pass));
    let mut telemetry = TelemetrySink::new(3, 1);
    let transfer = copy.finish(&mut telemetry);
    assert_eq!(transfer.bytes, 3);
    assert_eq!(transfer.hash, Some(blake3(b"abc")));
    assert_eq!(transfer.dest_hash, Some(blake3(b"abc")));
    let counts = telemetry.snapshot();
    assert_eq!((counts.copied_bytes, counts.completed_files), (3, 1));
    let mut bare = SmallCopy::new("/s/a".to_string(), "/".to_string(), UNIX, config);
    assert_eq!(
        bare.on_data(b"", false),
        vec![
            SmallAction::Create,
            SmallAction::Write,
            SmallAction::ReadBack,
            SmallAction::CopyMetadata,
        ]
    );
}

#[test]
fn faults_of_a_small_copy() {
    let copy = SmallCopy::new("/s/a".to_string(), "/d/a".to_string(), UNIX, small_config());
    let text = |step: SmallAction| copy.fault(step, "why".to_string()).map(|e| e.to_string());
    assert_eq!(text(SmallAction::Read).unwrap(), "No se puede leer el origen '/s/a': why");
    assert_eq!(text(SmallAction::CreateParent).unwrap(), "Error de I/O en '/d': why");
    assert_eq!(
        text(SmallAction::Write).unwrap(),
        "No se puede escribir en destino '/d/a.partial': why"
    );
    assert_eq!(
        text(SmallAction::Rename).unwrap(),
        "Rename atómico fallido de '/d/a.partial' a '/d/a': why"
    );
    assert_eq!(text(SmallAction::ReadBack).unwrap(), "Error de I/O en '/d/a.partial': why");
    assert!(text(SmallAction::CopyMetadata).is_none());
    assert!(text(SmallAction::Preallocate { bytes: 1 }).is_none());
}

#[test]
fn the_swarm_looks_at_the_flags() {
    let swarm = SwarmEngine::new(small_config());
    assert_eq!(swarm.slots(), 4);
    let mut flow = FlowControl::new();
    assert_eq!(swarm.dispatch(&flow), Dispatch::Spawn);
    assert_eq!(swarm.task_gate(&flow), TaskGate::Copy);
    flow.pause();
    assert_eq!(swarm.dispatch(&flow), Dispatch::Wait);
    assert_eq!(swarm.task_gate(&flow), TaskGate::Wait);
    assert!(matches!(swarm.dispatch_after_pause(Some(Ok(()))), Ok(Dispatch::Spawn)));
    let stop = Some(Err(CoreError::PipelineDisconnected));
    assert!(matches!(swarm.dispatch_after_pause(stop), Ok(Dispatch::Stop)));
    assert!(matches!(
        swarm.dispatch_after_pause(None),
        Err(CoreError::PipelineDisconnected)
    ));
    assert!(swarm.task_after_pause(Some(Ok(())), &flow).is_ok());
    assert!(swarm.task_after_pause(None, &flow).is_err());
    assert!(matches!(
        swarm.task_after_pause(Some(Err(CoreError::SwarmTimeout)), &flow),
        Err(CoreError::SwarmTimeout)
    ));
    flow.cancel();
    assert_eq!(swarm.dispatch(&flow), Dispatch::Stop);
    assert_eq!(swarm.task_gate(&flow), TaskGate::Refuse);
    assert!(swarm.task_after_pause(Some(Ok(())), &flow).is_err());
}

#[test]
fn tasks_that_broke_down_give_no_result() {
    let result = |name: &str| SwarmFileResult {
        relative: name.to_string(),
        result: Ok(Transfer { bytes: 0, hash: None, dest_hash: None }),
    };
    let swarm = SwarmEngine::new(small_config());
    let collected = swarm.collect(vec![None, Some(result("a")), None, Some(result("b"))]);
    let names: Vec<String> = collected.into_iter().map(|r| r.relative).collect();
    assert_eq!(names, vec!["a".to_string(), "b".to_string()]);
    assert!(swarm.collect(vec![None]).is_empty());
}

#[test]
fn a_failed_small_file_does_not_stop_the_others() {
    let mut disk = Disk::with(&[("/src/a.txt", b"a"), ("/src/b.txt", b"b")]);
    let config = test_config();
    let ghost = Orchestrator::new(config, UNIX)
        .tree_file("/src/z".to_string(), "/dst", "z".to_string(), 1);
    let mut telemetry = TelemetrySink::new(2, 3);
    let error = copy_small(&mut disk, config, &ghost, &mut telemetry);
    let mut run = CopyRun::new(
        &config,
        CheckpointState::new(UNIX, "j", "/src".to_string(), "/dst".to_string(), vec!["z".to_string()]),
    );
    assert!(matches!(run.on_swarm_result("z".to_string(), error, None), NextStep::Settled));
    assert_eq!(
        run.checkpoint.failed.get("z").unwrap(),
        "No se puede leer el origen '/src/z': not found"
    );
    assert!(run.checkpoint.is_complete());
    let result = run_with(&mut disk, config, "/src", "/dst", None, &FlowControl::new()).0;
    assert_eq!(result.completed_files, 2);
}

#[test]
fn a_single_file_goes_into_the_destination() {
    let orchestrator = Orchestrator::new(small_config(), UNIX);
    let entry = orchestrator.single_file("/s/a.txt".to_string(), "/d", 5);
    assert_eq!(entry.source, "/s/a.txt");
    assert_eq!(entry.dest, "/d/a.txt");
    assert_eq!(entry.relative, "a.txt");
    assert_eq!(entry.size, 5);
    let orchestrator = Orchestrator::new(small_config(), PathStyle::Windows);
    let entry = orchestrator.single_file("C:\\s\\a.txt".to_string(), "D:\\d", 5);
    assert_eq!(entry.dest, "D:\\d\\a.txt");
    assert_eq!(entry.relative, "a.txt");
}

#[test]
fn directories_on_windows_are_removed_from_the_leaves_to_the_root() {
    let dirs: Vec<String> =
        ["C:\\r", "C:\\r\\b", "C:\\r\\b\\x", "C:\\r\\a"].map(String::from).to_vec();
    assert_eq!(
        removal_order(PathStyle::Windows, &dirs),
        ["C:\\r\\b\\x", "C:\\r\\b", "C:\\r\\a", "C:\\r"].map(String::from).to_vec()
    );
}

#[test]
fn files_on_windows_get_their_directories() {
    let orchestrator = Orchestrator::new(small_config(), PathStyle::Windows);
    let entry =
        orchestrator.tree_file("C:\\s\\sub\\a".to_string(), "D:\\d", "sub\\a".to_string(), 1);
    assert_eq!(entry.dest, "D:\\d\\sub\\a");
    let copy =
        SmallCopy::new(entry.source.clone(), entry.dest.clone(), PathStyle::Windows, small_config());
    assert_eq!(copy.target_path(), "D:\\d\\sub\\a.partial");
    let error = copy.fault(SmallAction::CreateParent, "why".to_string()).unwrap();
    assert_eq!(error.to_string(), "Error de I/O en 'D:\\d\\sub': why");
    let writer = BlockWriter::new(&small_config(), PathStyle::Windows, entry.dest);
    assert_eq!(writer.target_path(), "D:\\d\\sub\\a.partial");
    assert_eq!(writer.opening(0), vec![WriterStep::CreateParent, WriterStep::Create]);
}

#[test]
fn a_damaged_small_copy_is_discarded() {
    let mut disk = Disk::with(&[("/src/s.txt", b"small")]);
    disk.damaged = Some("/dst/s.txt.partial".to_string());
    let config =
        EngineConfig { operation_mode: OperationMode::Move, verify: true, ..small_config() };
    let (result, checkpoint) =
        run_with(&mut disk, config, "/src", "/dst", None, &FlowControl::new());
    assert_eq!(result.completed_files, 0);
    assert_eq!(result.moved_files, 0);
    assert_eq!(disk.files.len(), 1);
    assert_eq!(disk.files["/src/s.txt"], b"small");
    let message = checkpoint.failed.get("s.txt").unwrap();
    assert!(message.starts_with("Verificación fallida para '/dst/s.txt': esperado="));
    assert!(message.contains(&blake3(b"small")));
    assert!(!disk.checkpoint_deleted);

    let mut copy = SmallCopy::new("/s/a".to_string(), "/d/a".to_string(), UNIX, config);
    copy.on_data(b"abc", false);
    match copy.on_read_back(b"abd") {
        CopyCheck::Discard { remove, error: CoreError::HashMismatch { path, expected, actual } } => {
            assert_eq!(remove, "/d/a.partial");
            assert_eq!(path, "/d/a");
            assert_eq!(expected, blake3(b"abc"));
            assert_eq!(actual, blake3(b"abd"));
        }
        _ => panic!("expected a mismatch"),
    }
}

#[test]
fn a_source_is_kept_while_its_copy_is_not_found_right() {
    for large in [false, true] {
        let data = if large { cycle(1024 * 1024) } else { b"small".to_vec() };
        let mut disk = Disk::with(&[("/src/f", &data)]);
        disk.vanishing = Some("/dst/f".to_string());
        let config = EngineConfig { operation_mode: OperationMode::Move, ..small_config() };
        let (result, checkpoint) =
            run_with(&mut disk, config, "/src", "/dst", None, &FlowControl::new());
        assert_eq!(disk.files["/src/f"], data);
        assert_eq!(result.moved_files, 0);
        assert_eq!(result.move_delete_failed, 1);
        assert_eq!(result.completed_files, 1);
        assert_eq!(result.failed_files, 0);
        assert_eq!(
            checkpoint.failed.get("f").unwrap(),
            "el destino no coincide con lo copiado"
        );
        assert!(!disk.checkpoint_deleted);
    }
}

#[test]
fn a_source_is_deleted_only_where_its_copy_was_found() {
    let delete = |verify: bool, size: Option<u64>, digest: Option<&str>| {
        let mut asked = false;
        let moved = delete_source_after_copy(
            "/s/a".to_string(),
            "/d/a".to_string(),
            Some("h".to_string()),
            7,
            verify,
            &FoundFile { size, digest: digest.map(String::from) },
            |path: String| {
                asked = true;
                assert_eq!(path, "/s/a");
                Ok(())
            },
        );
        assert_eq!(moved.source, "/s/a");
        assert_eq!(moved.dest, "/d/a");
        assert_eq!(moved.bytes_moved, 7);
        assert_eq!(moved.hash.as_deref(), Some("h"));
        assert_eq!(moved.delete_failed, moved.delete_error.is_some());
        assert_eq!(moved.delete_failed, !asked);
        asked
    };
    assert!(delete(false, Some(7), None));
    assert!(delete(true, Some(7), Some("h")));
    assert!(!delete(false, None, None));
    assert!(!delete(false, Some(6), None));
    assert!(!delete(true, Some(7), Some("x")));
    assert!(!delete(true, Some(7), None));
}

#[test]
fn the_checkpoint_goes_once_every_file_is_completed() {
    let large = cycle(1024 * 1024);
    let mut disk = Disk::with(&[("/src/l.bin", &large), ("/src/s.txt", b"s")]);
    run(&mut disk, small_config());
    assert!(disk.checkpoint_deleted);
    let mut disk = Disk::with(&[("/src/l.bin", &large), ("/src/s.txt", b"s")]);
    let mut flow = FlowControl::new();
    flow.cancel();
    run_with(&mut disk, small_config(), "/src", "/dst", None, &flow);
    assert!(!disk.checkpoint_deleted);
}

#[test]
fn a_failure_of_an_earlier_run_does_not_keep_the_checkpoint() {
    let mut disk = Disk::with(&[("/src/a.txt", b"a")]);
    let config = EngineConfig { resume: true, ..small_config() };
    let mut saved = CheckpointState::new(UNIX, "j", "/src".to_string(), "/dst".to_string(), vec![]);
    saved.mark_failed("a.txt".to_string(), "busy".to_string());
    let (result, _) =
        run_with(&mut disk, config, "/src", "/dst", Some(saved), &FlowControl::new());
    assert_eq!(result.completed_files, 1);
    assert!(disk.checkpoint_deleted);
}

#[test]
fn a_cancelled_move_cleans_nothing() {
    let config = EngineConfig { operation_mode: OperationMode::Move, ..small_config() };
    let state = || {
        CheckpointState::new(UNIX, "j", "/s".to_string(), "/d".to_string(), vec!["a".to_string()])
    };
    let mut flow = FlowControl::new();
    let mut telemetry = TelemetrySink::new(1, 1);
    let mut run = CopyRun::new(&config, state());
    assert!(run.wants_cleanup(&flow));
    // A copy that was cut off by an error of the writer cancels nothing.
    run.on_swarm_result("a".to_string(), Err(CoreError::PipelineDisconnected), None);
    let stopped = Err(CoreError::PipelineDisconnected);
    run.on_large_copied(&mut telemetry, "a".to_string(), 1, stopped, None);
    assert!(run.wants_cleanup(&flow));
    let mut skipped = CopyRun::new(&config, state());
    skipped.begin_large(&mut telemetry, &"a".to_string(), true, false);
    assert!(!skipped.wants_cleanup(&flow));
    flow.cancel();
    assert!(!run.wants_cleanup(&flow));
    assert!(!CopyRun::new(&small_config(), state()).wants_cleanup(&FlowControl::new()));
}

#[test]
fn every_byte_of_a_large_file_is_counted() {
    let large = cycle(1024 * 1024 + 77);
    let mut disk = Disk::with(&[("/src/l.bin", &large), ("/src/s.txt", b"small")]);
    let result = run(&mut disk, small_config());
    assert_eq!(result.copied_bytes, large.len() as u64 + 5);
    assert_eq!(result.total_bytes, large.len() as u64 + 5);
    assert_eq!(result.completed_files, 2);
}

#[test]
fn job_ids_are_reproducible_and_tell_jobs_apart() {
    let id = generate_job_id("/a", "/b");
    assert_eq!(id, generate_job_id("/a", "/b"));
    assert_eq!(id.len(), 16);
    assert!(id.chars().all(|c| c.is_ascii_digit() || ('a'..='f').contains(&c)));
    assert!(id != generate_job_id("/b", "/a"));
    assert!(id != generate_job_id("/a", "/c"));
    // A trailing slash names the same directory.
    assert_eq!(id, generate_job_id("/a/", "/b"));
}

#[test]
fn simulated_jobs_take_the_files_of_a_checkpoint_for_done() {
    let orchestrator = Orchestrator::new(small_config(), UNIX);
    assert!(orchestrator.completed_for_dry_run(None).is_empty());
    assert!(orchestrator.completed_for_dry_run(Some(Err(CoreError::Paused))).is_empty());
    let mut state =
        CheckpointState::new(UNIX, "j", "/s".to_string(), "/d".to_string(), vec!["b".to_string()]);
    state.mark_completed("a".to_string(), None, 1);
    let done = orchestrator.completed_for_dry_run(Some(Ok(state)));
    assert_eq!(done.list(), vec!["a".to_string()]);
    let resuming = EngineConfig { resume: true, ..small_config() };
    assert!(Orchestrator::new(resuming, UNIX).resumes(true));
    assert!(!Orchestrator::new(resuming, UNIX).resumes(false));
    assert!(!Orchestrator::new(small_config(), UNIX).resumes(true));
}

#[test]
fn the_agenda_of_a_job() {
    let entry = |name: &str, size: u64| {
        Orchestrator::new(small_config(), UNIX)
            .tree_file(format!("/src/{name}"), "/dst", name.to_string(), size)
    };
    let files = vec![entry("a", 1), entry("big", 1 << 20), entry("b", 2), entry("huge", 1 << 21)];
    let state = CheckpointState::new(UNIX, "j", "/src".to_string(), "/dst".to_string(), vec![]);
    let names = |config: EngineConfig, same_fs: Vec<bool>| -> Vec<String> {
        let orchestrator = Orchestrator::new(config, UNIX);
        let plan = orchestrator.plan(&files, &state);
        assert_eq!(plan.total_bytes, 3 + (1 << 20) + (1 << 21));
        let tasks = orchestrator.agenda(&plan, &same_fs);
        tasks
            .iter()
            .map(|task| match task {
                JobTask::Rename(file) => format!("rename {}", file.relative),
                JobTask::Swarm(files) => {
                    let names: Vec<&str> = files.iter().map(|f| f.relative.as_str()).collect();
                    format!("swarm {}", names.join(" "))
                }
                JobTask::Large(file) => format!("large {}", file.relative),
                JobTask::Save => "save".to_string(),
                JobTask::Cleanup => "cleanup".to_string(),
                JobTask::DeleteCheckpoint => "finish".to_string(),
            })
            .collect()
    };
    assert_eq!(
        names(small_config(), vec![true, false]),
        vec!["swarm a b", "save", "large big", "save", "large huge", "save", "finish"]
    );
    let moving = EngineConfig { operation_mode: OperationMode::Move, ..small_config() };
    assert_eq!(
        names(moving, vec![true, false]),
        vec![
            "rename a", "swarm b", "save", "large big", "save", "large huge", "save", "cleanup", "finish"
        ]
    );
    assert_eq!(
        names(moving, vec![true, true]),
        vec![
            "rename a", "rename b", "save", "large big", "save", "large huge", "save", "cleanup", "finish"
        ]
    );
}
