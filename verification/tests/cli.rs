//! The command line.

use filecopier::checkpoint::ResumePolicy;
use filecopier::cli::{
    apply_hardware_detection, build_config, config_banner, config_with, exit_code, hardware_line,
    log_level, on_interrupt, parse_resume_policy, policy_from_lowercase, summary_count_lines,
    summary_verdict, CliOptions, Interrupt,
};
use filecopier::config::{EngineConfig, OperationMode};
use filecopier::engine::orchestrator::CopyResult;
use filecopier::error::Result;
use filecopier::hash::Algorithm;
use filecopier::os::traits::{CopyStrategy, DriveKind, OsAdapter};
use filecopier::os::unix::UnixAdapter;

fn defaults() -> CliOptions {
    CliOptions {
        move_files: false,
        dry_run: false,
        verify: false,
        hasher: "blake3".to_string(),
        block_size: 4,
        threshold: 16,
        channel_cap: 8,
        swarm_limit: 128,
        resume: false,
        resume_policy: ResumePolicy::VerifySize,
        no_partial: false,
    }
}

#[test]
fn default_options_give_the_default_configuration() {
    assert_eq!(build_config(&defaults()), EngineConfig::default());
}

#[test]
fn options_shape_the_configuration() {
    let options = CliOptions {
        move_files: true,
        dry_run: true,
        verify: true,
        hasher: "SHA256".to_string(),
        block_size: 2,
        threshold: 1,
        channel_cap: 3,
        swarm_limit: 5,
        resume: true,
        resume_policy: ResumePolicy::VerifyHash,
        no_partial: true,
    };
    let config = build_config(&options);
    assert_eq!(config.operation_mode, OperationMode::Move);
    assert!(config.dry_run && config.verify && config.resume && !config.use_partial_files);
    assert_eq!(config.hash_algorithm, Algorithm::Sha2);
    assert_eq!(config.block_size_bytes, 2 * 1024 * 1024);
    assert_eq!(config.triage_threshold_bytes, 1024 * 1024);
    assert_eq!(config.channel_capacity, 3);
    assert_eq!(config.swarm_concurrency, 5);
    assert_eq!(config.resume_policy, ResumePolicy::VerifyHash);
    assert_eq!(config_with(&options, Algorithm::XxHash).hash_algorithm, Algorithm::XxHash);
}

#[test]
fn an_unknown_hasher_falls_back_to_blake3() {
    let options = CliOptions { hasher: "md5".to_string(), ..defaults() };
    assert_eq!(build_config(&options).hash_algorithm, Algorithm::Blake3);
}

#[test]
fn resume_policies_by_name() {
    assert_eq!(parse_resume_policy("Trust"), Ok(ResumePolicy::TrustCheckpoint));
    assert_eq!(parse_resume_policy("size"), Ok(ResumePolicy::VerifySize));
    assert_eq!(parse_resume_policy("HASH"), Ok(ResumePolicy::VerifyHash));
    assert_eq!(
        parse_resume_policy("All"),
        Err("Política desconocida: 'all'. Opciones: trust, size, hash".to_string())
    );
    assert!(policy_from_lowercase(&"HASH".to_string()).is_err());
}

#[test]
fn detection_tunes_only_defaults() {
    let strategy = CopyStrategy::compute(DriveKind::Ssd, DriveKind::Ssd);
    let mut config = EngineConfig::default();
    apply_hardware_detection(&mut config, &strategy, &CliOptions { verify: true, ..defaults() });
    assert_eq!(config.swarm_concurrency, 32);
    assert_eq!(config.block_size_bytes, 4 * 1024 * 1024);
    let strategy = CopyStrategy::compute(DriveKind::Hdd, DriveKind::Network);
    let mut config = EngineConfig::default();
    let chosen = CliOptions { swarm_limit: 7, block_size: 1, ..defaults() };
    apply_hardware_detection(&mut config, &strategy, &chosen);
    assert_eq!(config, EngineConfig::default());
    apply_hardware_detection(&mut config, &strategy, &defaults());
    assert_eq!(config.swarm_concurrency, 8);
    assert_eq!(config.block_size_bytes, 16 * 1024 * 1024);
}

#[test]
fn recommendations_give_valid_configurations() {
    let kinds = [DriveKind::Ssd, DriveKind::Hdd, DriveKind::Network, DriveKind::Unknown];
    for source in kinds {
        for dest in kinds {
            for verify in [false, true] {
                let strategy = CopyStrategy::compute(source, dest);
                let mut config = EngineConfig::default();
                let options = CliOptions { verify, ..defaults() };
                apply_hardware_detection(&mut config, &strategy, &options);
                assert!(config.validate().is_ok());
            }
        }
    }
}

#[test]
fn the_hardware_line() {
    let strategy = CopyStrategy::compute(DriveKind::Ssd, DriveKind::Ssd);
    assert_eq!(
        hardware_line(&strategy, true),
        "  Hardware: SSD/NVMe → SSD/NVMe  |  enjambre=32 bloque=4MB"
    );
    let strategy = CopyStrategy::compute(DriveKind::Unknown, DriveKind::Network);
    assert_eq!(hardware_line(&strategy, false), "  Hardware: ? → Red  |  enjambre=8 bloque=16MB");
    let strategy = CopyStrategy::compute(DriveKind::Hdd, DriveKind::Hdd);
    assert_eq!(hardware_line(&strategy, false), "  Hardware: HDD → HDD  |  enjambre=1 bloque=8MB");
}

#[test]
fn interrupts_pause_then_cancel() {
    assert_eq!(on_interrupt(0), Interrupt::Pause);
    assert_eq!(on_interrupt(1), Interrupt::Cancel);
    assert_eq!(on_interrupt(u32::MAX), Interrupt::Cancel);
}

#[test]
fn log_levels() {
    let levels: Vec<&str> = (0u8..5).map(|v| log_level(v, false)).collect();
    assert_eq!(levels, vec!["warn", "info", "debug", "trace", "trace"]);
    assert_eq!(log_level(3, true), "error");
}

#[test]
fn the_banner() {
    let frame = "━━━━━━━━━━━━━━━━━━━━━━━━━━━━━━━━━━━━━━━━━━━━━━━━━━━━";
    let config = EngineConfig::default();
    assert_eq!(
        config_banner(&config, "0.1.0", "/a", "/b"),
        vec![
            frame,
            "  FileCopier-Rust v0.1.0",
            frame,
            "  Origen:    /a",
            "  Destino:   /b",
            "  Operación: copiar",
            "  Bloque:    4 MB",
            "  Enjambre:  128 tareas",
            "  Verif.:    ✗",
            frame,
            "",
        ]
    );
    let config = EngineConfig {
        verify: true,
        dry_run: true,
        operation_mode: OperationMode::Move,
        ..config
    };
    let lines = config_banner(&config, "1.2.3", "/a", "/b");
    assert_eq!(lines[1], "  FileCopier-Rust v1.2.3 [DRY-RUN]");
    assert_eq!(lines[5], "  Operación: MOVER (borra origen tras copia exitosa)");
    assert_eq!(lines[8], "  Verif.:    ✓ (blake3)");
}

fn outcome() -> CopyResult {
    CopyResult {
        completed_files: 4,
        failed_files: 0,
        total_bytes: 10,
        copied_bytes: 10,
        revalidated_files: 0,
        moved_files: 0,
        move_delete_failed: 0,
        dirs_removed: 0,
        dry_run_report: None,
    }
}

#[test]
fn the_summary() {
    assert_eq!(summary_count_lines(&outcome()), vec!["  Completados:  4 archivos"]);
    assert_eq!(summary_verdict(&outcome()), "  ✓ Completado");
    assert_eq!(exit_code(&outcome()), 0);
    let result = CopyResult {
        failed_files: 2,
        revalidated_files: 1,
        moved_files: 3,
        move_delete_failed: 5,
        dirs_removed: 6,
        ..outcome()
    };
    assert_eq!(
        summary_count_lines(&result),
        vec![
            "  Completados:  4 archivos",
            "  ⚠  Fallidos:           2",
            "  ↺  Revalidados:        1",
            "  ✂  Movidos:            3",
            "  ⚠  Origen no borrado:  5",
            "  📁 Carpetas vacías:    6",
        ]
    );
    assert_eq!(summary_verdict(&result), "  ⚠  2 error(es)");
    assert_eq!(exit_code(&result), 3);
}

struct FixedDrives;

impl OsAdapter for FixedDrives {
    fn detect_drive_kind(&self, path: &str) -> DriveKind {
        if path == "/ssd" {
            DriveKind::Ssd
        } else {
            DriveKind::Hdd
        }
    }

    fn preallocate(&self, _path: &str, _size: u64) -> Result<()> {
        Ok(())
    }

    fn copy_metadata(&self, _source: &str, _dest: &str) -> Result<()> {
        Ok(())
    }

    fn platform_name(&self) -> &'static str {
        "fixed"
    }
}

#[test]
fn an_adapter_combines_the_drives_it_finds() {
    let strategy = FixedDrives.compute_strategy("/ssd", "/hdd");
    assert_eq!(strategy, CopyStrategy::compute(DriveKind::Ssd, DriveKind::Hdd));
}

#[test]
fn unix_reserves_nothing_for_empty_files() {
    assert_eq!(UnixAdapter::default().platform_name(), "unix");
    assert!(UnixAdapter::new().reserves(1));
    assert!(!UnixAdapter::new().reserves(0));
}
