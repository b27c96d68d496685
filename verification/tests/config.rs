//! Configuration.

use filecopier::checkpoint::ResumePolicy;
use filecopier::config::{EngineConfig, OperationMode};
use filecopier::error::CoreError;
use filecopier::hash::Algorithm;


#[test]
fn default_config_is_valid() {
    let config = EngineConfig::default();
    assert!(
        config.validate().is_ok(),
        "La configuración por defecto debe ser válida"
    );
}

#[test]
fn default_values_are_correct() {
    let c = EngineConfig::default();
    assert_eq!(c.triage_threshold_bytes, 16 * 1024 * 1024);
    assert_eq!(c.block_size_bytes,        4 * 1024 * 1024);
    assert_eq!(c.channel_capacity,        8);
    assert_eq!(c.swarm_concurrency,       128);
    assert!(!c.verify);
    assert_eq!(c.hash_algorithm,          Algorithm::Blake3);
    assert!(!c.resume);
    assert!(c.use_partial_files);
}


#[test]
fn zero_block_size_is_invalid() {
    let mut c = EngineConfig::default();
    c.block_size_bytes = 0;
    assert!(c.validate().is_err(), "block_size=0 debe fallar validación");
}

#[test]
fn block_size_over_64mb_is_invalid() {
    let mut c = EngineConfig::default();
    c.block_size_bytes = 65 * 1024 * 1024;
    assert!(c.validate().is_err(), "block_size > 64 MB debe fallar validación");
}

#[test]
fn zero_channel_capacity_is_invalid() {
    let mut c = EngineConfig::default();
    c.channel_capacity = 0;
    assert!(c.validate().is_err(), "channel_capacity=0 debe fallar validación");
}

#[test]
fn zero_swarm_concurrency_is_invalid() {
    let mut c = EngineConfig::default();
    c.swarm_concurrency = 0;
    assert!(c.validate().is_err(), "swarm_concurrency=0 debe fallar validación");
}

#[test]
fn swarm_over_1024_is_invalid() {
    let mut c = EngineConfig::default();
    c.swarm_concurrency = 1025;
    assert!(c.validate().is_err(), "swarm_concurrency > 1024 debe fallar validación");
}

#[test]
fn pipeline_ram_over_512mb_is_invalid() {
    let mut c = EngineConfig::default();
    c.channel_capacity  = 128;
    c.block_size_bytes  = 8 * 1024 * 1024;
    assert!(c.validate().is_err(), "RAM de pipeline > 512 MB debe fallar validación");
}


#[test]
fn block_size_exactly_64mb_is_valid() {
    let mut c = EngineConfig::default();
    c.block_size_bytes = 64 * 1024 * 1024;
    assert!(c.validate().is_ok(), "block_size exactamente 64 MB debe ser válido");
}

#[test]
fn swarm_exactly_1024_is_valid() {
    let mut c = EngineConfig::default();
    c.swarm_concurrency = 1024;
    assert!(c.validate().is_ok(), "swarm_concurrency=1024 debe ser válido");
}


#[test]
fn is_large_file_at_threshold_is_large() {
    let c = EngineConfig::default();
    assert!(
        c.is_large_file(c.triage_threshold_bytes),
        "Archivo exactamente en el umbral debe clasificarse como grande"
    );
}

#[test]
fn is_large_file_above_threshold_is_large() {
    let c = EngineConfig::default();
    assert!(c.is_large_file(c.triage_threshold_bytes + 1));
    assert!(c.is_large_file(1024 * 1024 * 1024)); // 1 GB
}

#[test]
fn is_large_file_below_threshold_is_small() {
    let c = EngineConfig::default();
    assert!(!c.is_large_file(c.triage_threshold_bytes - 1));
    assert!(!c.is_large_file(0));
    assert!(!c.is_large_file(1));
    assert!(!c.is_large_file(1024)); // 1 KB
}


#[test]
fn max_pipeline_ram_is_product_of_capacity_and_block() {
    let c = EngineConfig {
        channel_capacity:  8,
        block_size_bytes:  4 * 1024 * 1024,
        ..EngineConfig::default()
    };
    assert_eq!(c.max_pipeline_ram_bytes(), 8 * 4 * 1024 * 1024); // 32 MB
}

fn fault(c: &EngineConfig) -> String {
    match c.validate() {
        Err(CoreError::InvalidConfig { message }) => message,
        other => panic!("expected an invalid configuration: {other:?}"),
    }
}

#[test]
fn first_fault_is_reported() {
    let c = EngineConfig { block_size_bytes: 0, channel_capacity: 0, ..EngineConfig::default() };
    assert_eq!(fault(&c), "block_size_bytes no puede ser cero");
    let c = EngineConfig { block_size_bytes: 64 * 1024 * 1024 + 1, ..EngineConfig::default() };
    assert_eq!(fault(&c), "block_size_bytes excede 64 MB: riesgo de OOM");
    let c = EngineConfig { channel_capacity: 0, swarm_concurrency: 0, ..EngineConfig::default() };
    assert_eq!(fault(&c), "channel_capacity no puede ser cero");
    let c = EngineConfig { swarm_concurrency: 0, ..EngineConfig::default() };
    assert_eq!(fault(&c), "swarm_concurrency no puede ser cero");
    let c = EngineConfig { swarm_concurrency: 1025, ..EngineConfig::default() };
    assert_eq!(
        fault(&c),
        "swarm_concurrency > 1024: riesgo de saturación de file descriptors"
    );
    let c = EngineConfig {
        channel_capacity: 128,
        block_size_bytes: 8 * 1024 * 1024,
        ..EngineConfig::default()
    };
    assert_eq!(fault(&c), "Pipeline consumiría 1024 MB de RAM. Máximo: 512 MB");
}

#[test]
fn pipeline_ram_of_exactly_512mb_is_valid() {
    let c = EngineConfig {
        channel_capacity: 64,
        block_size_bytes: 8 * 1024 * 1024,
        ..EngineConfig::default()
    };
    assert!(c.validate().is_ok());
}

#[test]
fn remaining_defaults() {
    let c = EngineConfig::default();
    assert_eq!(c.operation_mode, OperationMode::Copy);
    assert_eq!(OperationMode::default(), OperationMode::Copy);
    assert!(!c.dry_run);
    assert_eq!(c.resume_policy, ResumePolicy::VerifySize);
    assert_eq!(c.bandwidth_limit_bytes_per_sec, 0);
    assert_eq!(c.bandwidth_burst_bytes, 1024 * 1024);
}
