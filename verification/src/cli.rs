//! The command line: options, configuration, banner and summary.

use vstd::prelude::*;
use vstd::string::*;

use crate::checkpoint::ResumePolicy;
use crate::config::{EngineConfig, OperationMode};
use crate::engine::orchestrator::CopyResult;
use crate::hash::Algorithm;
use crate::os::traits::{CopyStrategy, DriveKind};
use crate::text::{decimal, format_decimal, lowercase, push_line, push_pair, texts, MB};

verus! {

/// The policy that a lower-case name selects, if any.
pub open spec fn policy_named(name: Seq<char>) -> Option<ResumePolicy> {
    if name == "trust"@ {
        Some(ResumePolicy::TrustCheckpoint)
    } else if name == "size"@ {
        Some(ResumePolicy::VerifySize)
    } else if name == "hash"@ {
        Some(ResumePolicy::VerifyHash)
    } else {
        None
    }
}

/// The message for a name that selects no policy.
pub open spec fn unknown_policy(name: Seq<char>) -> Seq<char> {
    "Política desconocida: '"@ + name + "'. Opciones: trust, size, hash"@
}

/// Selects a policy by its lower-case name.
pub fn policy_from_lowercase(name: &String) -> (policy: std::result::Result<ResumePolicy, String>)
    ensures
        match policy_named(name@) {
            Some(selected) => policy == Ok::<ResumePolicy, String>(selected),
            None => policy is Err && policy->Err_0@ == unknown_policy(name@),
        },
{
    if *name == "trust".to_owned() {
        return Ok(ResumePolicy::TrustCheckpoint);
    }
    if *name == "size".to_owned() {
        return Ok(ResumePolicy::VerifySize);
    }
    if *name == "hash".to_owned() {
        return Ok(ResumePolicy::VerifyHash);
    }
    let mut message = "Política desconocida: '".to_owned();
    message.append(name.as_str());
    message.append("'. Opciones: trust, size, hash");
    Err(message)
}

/// Selects a policy by its name, in any case.
pub fn parse_resume_policy(s: &str) -> (policy: std::result::Result<ResumePolicy, String>)
    ensures
        match policy_named(lowercase(s@)) {
            Some(selected) => policy == Ok::<ResumePolicy, String>(selected),
            None => policy is Err && policy->Err_0@ == unknown_policy(lowercase(s@)),
        },
{
    policy_from_lowercase(&s.to_lowercase())
}

/// The options of the command line that shape a job.
#[derive(Debug)]
pub struct CliOptions {
    pub move_files: bool,
    pub dry_run: bool,
    pub verify: bool,
    /// The name of the hash function.
    pub hasher: String,
    /// The size of a block, in megabytes.
    pub block_size: u64,
    /// The size from which files are large, in megabytes.
    pub threshold: u64,
    pub channel_cap: usize,
    pub swarm_limit: usize,
    pub resume: bool,
    pub resume_policy: ResumePolicy,
    pub no_partial: bool,
}

/// The default of `--swarm-limit`.
pub const DEFAULT_SWARM_LIMIT: usize = 128;

/// The default of `--block-size`, in megabytes.
pub const DEFAULT_BLOCK_SIZE: u64 = 4;

/// The configuration for some options, `algorithm` being the hash function that
/// their name selects.
pub open spec fn config_for(options: CliOptions, algorithm: Algorithm) -> EngineConfig {
    EngineConfig {
        triage_threshold_bytes: (options.threshold * MB) as u64,
        block_size_bytes: (options.block_size * MB) as usize,
        channel_capacity: options.channel_cap,
        swarm_concurrency: options.swarm_limit,
        verify: options.verify,
        hash_algorithm: algorithm,
        operation_mode: if options.move_files {
            OperationMode::Move
        } else {
            OperationMode::Copy
        },
        dry_run: options.dry_run,
        resume: options.resume,
        resume_policy: options.resume_policy,
        use_partial_files: !options.no_partial,
        bandwidth_limit_bytes_per_sec: 0,
        bandwidth_burst_bytes: 1_048_576,
    }
}

/// The hash function that a name selects; BLAKE3 for an unknown name.
pub open spec fn algorithm_or_default(name: Seq<char>) -> Algorithm {
    match Algorithm::named(name) {
        Some(algorithm) => algorithm,
        None => Algorithm::Blake3,
    }
}

/// The configuration for some options.
pub fn build_config(options: &CliOptions) -> (config: EngineConfig)
    requires
        options.threshold * MB <= u64::MAX,
        options.block_size * MB <= usize::MAX,
    ensures
        config == config_for(*options, algorithm_or_default(lowercase(options.hasher@))),
{
    let algorithm = match Algorithm::from_str(options.hasher.as_str()) {
        Ok(algorithm) => algorithm,
        Err(_) => Algorithm::Blake3,
    };
    config_with(options, algorithm)
}

/// The configuration for some options and a hash function.
pub fn config_with(options: &CliOptions, algorithm: Algorithm) -> (config: EngineConfig)
    requires
        options.threshold * MB <= u64::MAX,
        options.block_size * MB <= usize::MAX,
    ensures
        config == config_for(*options, algorithm),
{
    EngineConfig {
        triage_threshold_bytes: options.threshold * MB,
        block_size_bytes: options.block_size as usize * 1_048_576,
        channel_capacity: options.channel_cap,
        swarm_concurrency: options.swarm_limit,
        verify: options.verify,
        hash_algorithm: algorithm,
        operation_mode: if options.move_files {
            OperationMode::Move
        } else {
            OperationMode::Copy
        },
        dry_run: options.dry_run,
        resume: options.resume,
        resume_policy: options.resume_policy,
        use_partial_files: !options.no_partial,
        bandwidth_limit_bytes_per_sec: 0,
        bandwidth_burst_bytes: 1_048_576,
    }
}

/// The concurrency that a strategy recommends.
pub open spec fn recommended_concurrency(strategy: CopyStrategy, verify: bool) -> usize {
    if verify {
        strategy.recommended_swarm_concurrency_verify
    } else {
        strategy.recommended_swarm_concurrency
    }
}

fn concurrency_of(strategy: &CopyStrategy, verify: bool) -> (concurrency: usize)
    ensures
        concurrency == recommended_concurrency(*strategy, verify),
{
    if verify {
        strategy.recommended_swarm_concurrency_verify
    } else {
        strategy.recommended_swarm_concurrency
    }
}

/// Tunes a configuration to the storage devices. Only options that were left at
/// their defaults are tuned.
pub fn apply_hardware_detection(
    config: &mut EngineConfig,
    strategy: &CopyStrategy,
    options: &CliOptions,
)
    ensures
        *final(config) == (EngineConfig {
            swarm_concurrency: if options.swarm_limit == DEFAULT_SWARM_LIMIT {
                recommended_concurrency(*strategy, options.verify)
            } else {
                old(config).swarm_concurrency
            },
            block_size_bytes: if options.block_size == DEFAULT_BLOCK_SIZE {
                strategy.recommended_block_size
            } else {
                old(config).block_size_bytes
            },
            ..*old(config)
        }),
{
    if options.swarm_limit == DEFAULT_SWARM_LIMIT {
        config.swarm_concurrency = concurrency_of(strategy, options.verify);
    }
    if options.block_size == DEFAULT_BLOCK_SIZE {
        config.block_size_bytes = strategy.recommended_block_size;
    }
}

/// A kind of device as it is shown to users.
pub open spec fn drive_label(kind: DriveKind) -> Seq<char> {
    match kind {
        DriveKind::Ssd => "SSD/NVMe"@,
        DriveKind::Hdd => "HDD"@,
        DriveKind::Network => "Red"@,
        DriveKind::Unknown => "?"@,
    }
}

fn drive_text(kind: DriveKind) -> (text: &'static str)
    ensures
        text@ == drive_label(kind),
{
    match kind {
        DriveKind::Ssd => "SSD/NVMe",
        DriveKind::Hdd => "HDD",
        DriveKind::Network => "Red",
        DriveKind::Unknown => "?",
    }
}

/// The line that tells the user which devices were found.
pub fn hardware_line(strategy: &CopyStrategy, verify: bool) -> (line: String)
    ensures
        line@ == "  Hardware: "@ + drive_label(strategy.source_kind) + " → "@ + drive_label(
            strategy.dest_kind,
        ) + "  |  enjambre="@ + decimal(recommended_concurrency(*strategy, verify) as nat)
            + " bloque="@ + decimal((strategy.recommended_block_size / 1_048_576) as nat) + "MB"@,
{
    let mut line = "  Hardware: ".to_owned();
    line.append(drive_text(strategy.source_kind));
    line.append(" → ");
    line.append(drive_text(strategy.dest_kind));
    line.append("  |  enjambre=");
    line.append(format_decimal(concurrency_of(strategy, verify) as u128).as_str());
    line.append(" bloque=");
    line.append(format_decimal((strategy.recommended_block_size / 1_048_576) as u128).as_str());
    line.append("MB");
    line
}

/// What an interrupt from the keyboard does.
#[derive(Debug, Clone, Copy, PartialEq, Eq, Structural)]
pub enum Interrupt {
    Pause,
    Cancel,
}

/// The first interrupt pauses the job, any later one cancels it.
pub fn on_interrupt(earlier: u32) -> (interrupt: Interrupt)
    ensures
        interrupt == if earlier == 0 {
            Interrupt::Pause
        } else {
            Interrupt::Cancel
        },
{
    if earlier == 0 {
        Interrupt::Pause
    } else {
        Interrupt::Cancel
    }
}

/// The level of the log.
pub fn log_level(verbosity: u8, quiet: bool) -> (level: &'static str)
    ensures
        level@ == if quiet {
            "error"@
        } else if verbosity == 0 {
            "warn"@
        } else if verbosity == 1 {
            "info"@
        } else if verbosity == 2 {
            "debug"@
        } else {
            "trace"@
        },
{
    if quiet {
        "error"
    } else {
        match verbosity {
            0 => "warn",
            1 => "info",
            2 => "debug",
            _ => "trace",
        }
    }
}

/// The line that frames the banner.
pub open spec fn frame() -> Seq<char> {
    "━━━━━━━━━━━━━━━━━━━━━━━━━━━━━━━━━━━━━━━━━━━━━━━━━━━━"@
}

/// The lines of the banner.
pub open spec fn banner(
    config: EngineConfig,
    version: Seq<char>,
    source: Seq<char>,
    dest: Seq<char>,
) -> Seq<Seq<char>> {
    seq![
        frame(),
        "  FileCopier-Rust v"@ + version + (if config.dry_run {
            " [DRY-RUN]"@
        } else {
            ""@
        }),
        frame(),
        "  Origen:    "@ + source,
        "  Destino:   "@ + dest,
        "  Operación: "@ + (match config.operation_mode {
            OperationMode::Copy => "copiar"@,
            OperationMode::Move => "MOVER (borra origen tras copia exitosa)"@,
        }),
        "  Bloque:    "@ + (decimal((config.block_size_bytes / 1_048_576) as nat) + " MB"@),
        "  Enjambre:  "@ + (decimal(config.swarm_concurrency as nat) + " tareas"@),
        "  Verif.:    "@ + (if config.verify {
            "✓ ("@ + config.hash_algorithm.display() + ")"@
        } else {
            "✗"@
        }),
        frame(),
        ""@,
    ]
}

/// The lines of the banner that says what the program is about to do.
pub fn config_banner(config: &EngineConfig, version: &str, source: &str, dest: &str) -> (
    lines: Vec<String>)
    ensures
        texts(lines@) == banner(*config, version@, source@, dest@),
{
    let frame_text = "━━━━━━━━━━━━━━━━━━━━━━━━━━━━━━━━━━━━━━━━━━━━━━━━━━━━";
    let mut lines: Vec<String> = Vec::new();
    push_line(&mut lines, frame_text);
    let mut title = "  FileCopier-Rust v".to_owned();
    title.append(version);
    title.append(
        if config.dry_run {
            " [DRY-RUN]"
        } else {
            ""
        },
    );
    push_line(&mut lines, title.as_str());
    push_line(&mut lines, frame_text);
    push_pair(&mut lines, "  Origen:    ", source);
    push_pair(&mut lines, "  Destino:   ", dest);
    push_pair(
        &mut lines,
        "  Operación: ",
        match config.operation_mode {
            OperationMode::Copy => "copiar",
            OperationMode::Move => "MOVER (borra origen tras copia exitosa)",
        },
    );
    let mut block = format_decimal((config.block_size_bytes / 1_048_576) as u128);
    block.append(" MB");
    push_pair(&mut lines, "  Bloque:    ", block.as_str());
    let mut tasks = format_decimal(config.swarm_concurrency as u128);
    tasks.append(" tareas");
    push_pair(&mut lines, "  Enjambre:  ", tasks.as_str());
    let mut check = String::new();
    if config.verify {
        check.append("✓ (");
        check.append(config.hash_algorithm.to_string().as_str());
        check.append(")");
        assert(check@ =~= "✓ ("@ + config.hash_algorithm.display() + ")"@);
    } else {
        check.append("✗");
        assert(check@ =~= "✗"@);
    }
    push_pair(&mut lines, "  Verif.:    ", check.as_str());
    push_line(&mut lines, frame_text);
    push_line(&mut lines, "");
    assert(texts(lines@) =~= banner(*config, version@, source@, dest@));
    lines
}

/// A line for a count, left out where the count is 0.
pub open spec fn count_line(label: Seq<char>, count: usize) -> Seq<Seq<char>> {
    if count > 0 {
        seq![label + decimal(count as nat)]
    } else {
        Seq::empty()
    }
}

fn push_count(lines: &mut Vec<String>, label: &str, count: usize)
    ensures
        texts(final(lines)@) == texts(old(lines)@) + count_line(label@, count),
{
    if count > 0 {
        push_pair(lines, label, format_decimal(count as u128).as_str());
    }
    assert(texts(lines@) =~= texts(old(lines)@) + count_line(label@, count));
}

/// The lines of the summary that count files.
pub open spec fn summary_counts(result: CopyResult) -> Seq<Seq<char>> {
    seq!["  Completados:  "@ + (decimal(result.completed_files as nat) + " archivos"@)]
        + count_line("  ⚠  Fallidos:           "@, result.failed_files) + count_line(
        "  ↺  Revalidados:        "@,
        result.revalidated_files,
    ) + count_line("  ✂  Movidos:            "@, result.moved_files) + count_line(
        "  ⚠  Origen no borrado:  "@,
        result.move_delete_failed,
    ) + count_line("  📁 Carpetas vacías:    "@, result.dirs_removed)
}

/// The lines of the summary that count files.
pub fn summary_count_lines(result: &CopyResult) -> (lines: Vec<String>)
    ensures
        texts(lines@) == summary_counts(*result),
{
    let mut lines: Vec<String> = Vec::new();
    let mut completed = format_decimal(result.completed_files as u128);
    completed.append(" archivos");
    push_pair(&mut lines, "  Completados:  ", completed.as_str());
    assert(texts(lines@) =~= seq![
        "  Completados:  "@ + (decimal(result.completed_files as nat) + " archivos"@),
    ]);
    push_count(&mut lines, "  ⚠  Fallidos:           ", result.failed_files);
    push_count(&mut lines, "  ↺  Revalidados:        ", result.revalidated_files);
    push_count(&mut lines, "  ✂  Movidos:            ", result.moved_files);
    push_count(&mut lines, "  ⚠  Origen no borrado:  ", result.move_delete_failed);
    push_count(&mut lines, "  📁 Carpetas vacías:    ", result.dirs_removed);
    lines
}

/// The last line of the summary.
pub fn summary_verdict(result: &CopyResult) -> (line: String)
    ensures
        line@ == if result.failed_files == 0 {
            "  ✓ Completado"@
        } else {
            "  ⚠  "@ + decimal(result.failed_files as nat) + " error(es)"@
        },
{
    if result.failed_files == 0 {
        "  ✓ Completado".to_owned()
    } else {
        let mut line = "  ⚠  ".to_owned();
        line.append(format_decimal(result.failed_files as u128).as_str());
        line.append(" error(es)");
        line
    }
}

/// The exit code of the program after a job.
pub fn exit_code(result: &CopyResult) -> (code: i32)
    ensures
        code == if result.failed_files > 0 {
            3i32
        } else {
            0i32
        },
{
    if result.failed_files > 0 {
        3
    } else {
        0
    }
}

/// Each option reaches the configuration, whatever the others are.
pub proof fn law_options_reach_the_configuration(options: CliOptions, config: EngineConfig)
    requires
        call_ensures(build_config, (&options,), config),
        options.threshold * 1_048_576 <= u64::MAX,
        options.block_size * 1_048_576 <= usize::MAX,
    ensures
        config.verify <==> options.verify,
        config.operation_mode == OperationMode::Move <==> options.move_files,
        config.operation_mode == OperationMode::Copy <==> !options.move_files,
        config.dry_run <==> options.dry_run,
        config.resume <==> options.resume,
        config.use_partial_files <==> !options.no_partial,
        config.resume_policy == options.resume_policy,
        config.channel_capacity == options.channel_cap,
        config.swarm_concurrency == options.swarm_limit,
        config.triage_threshold_bytes == options.threshold * 1_048_576,
        config.block_size_bytes == options.block_size * 1_048_576,
        config.bandwidth_limit_bytes_per_sec == 0,
        config.bandwidth_burst_bytes == 1_048_576,
{
}

/// The same holds where the hash function was selected before.
pub proof fn law_options_and_hash_reach_the_configuration(
    options: CliOptions,
    algorithm: Algorithm,
    config: EngineConfig,
)
    requires
        call_ensures(config_with, (&options, algorithm), config),
    ensures
        config.hash_algorithm == algorithm,
        config.verify <==> options.verify,
        config.operation_mode == OperationMode::Move <==> options.move_files,
        config.dry_run <==> options.dry_run,
        config.resume <==> options.resume,
        config.use_partial_files <==> !options.no_partial,
        config.resume_policy == options.resume_policy,
        config.channel_capacity == options.channel_cap,
        config.swarm_concurrency == options.swarm_limit,
{
}

/// No option changes what another one decides: two command lines that agree in an
/// option give configurations that agree in it.
pub proof fn law_options_are_independent(
    first: CliOptions,
    second: CliOptions,
    one: EngineConfig,
    two: EngineConfig,
)
    requires
        call_ensures(build_config, (&first,), one),
        call_ensures(build_config, (&second,), two),
    ensures
        first.verify == second.verify <==> one.verify == two.verify,
        first.move_files == second.move_files <==> one.operation_mode == two.operation_mode,
        first.dry_run == second.dry_run <==> one.dry_run == two.dry_run,
        first.resume == second.resume <==> one.resume == two.resume,
        first.no_partial == second.no_partial <==> one.use_partial_files == two.use_partial_files,
        first.resume_policy == second.resume_policy <==> one.resume_policy == two.resume_policy,
        first.channel_cap == second.channel_cap <==> one.channel_capacity == two.channel_capacity,
        first.swarm_limit == second.swarm_limit <==> one.swarm_concurrency == two.swarm_concurrency,
        first.threshold == second.threshold ==> one.triage_threshold_bytes
            == two.triage_threshold_bytes,
        first.block_size == second.block_size ==> one.block_size_bytes == two.block_size_bytes,
        lowercase(first.hasher@) == lowercase(second.hasher@) ==> one.hash_algorithm
            == two.hash_algorithm,
{
}

/// The name of a hash function selects it in any case; a name that is none selects
/// BLAKE3.
pub proof fn law_hasher_selects_the_function(options: CliOptions, config: EngineConfig)
    requires
        call_ensures(build_config, (&options,), config),
    ensures
        ({
            let name = lowercase(options.hasher@);
            let xxhash = name == "xxhash"@ || name == "xx"@;
            let sha2 = name == "sha2"@ || name == "sha256"@;
            &&& xxhash ==> config.hash_algorithm == Algorithm::XxHash
            &&& sha2 ==> config.hash_algorithm == Algorithm::Sha2
            &&& !xxhash && !sha2 ==> config.hash_algorithm == Algorithm::Blake3
        }),
{
    reveal_strlit("blake3");
    reveal_strlit("xxhash");
    reveal_strlit("xx");
    reveal_strlit("sha2");
    reveal_strlit("sha256");
    assert("blake3"@[0] == 'b' && "xxhash"@[0] == 'x' && "xx"@[0] == 'x');
    assert("sha2"@[0] == 's' && "sha256"@[0] == 's');
}

/// A policy is selected by its name in any case, and by no other text.
pub proof fn law_policy_is_selected_by_name(
    s: &str,
    policy: std::result::Result<ResumePolicy, String>,
)
    requires
        call_ensures(parse_resume_policy, (s,), policy),
    ensures
        lowercase(s@) == "trust"@ <==> policy is Ok && policy->Ok_0
            == ResumePolicy::TrustCheckpoint,
        lowercase(s@) == "size"@ <==> policy is Ok && policy->Ok_0 == ResumePolicy::VerifySize,
        lowercase(s@) == "hash"@ <==> policy is Ok && policy->Ok_0 == ResumePolicy::VerifyHash,
{
    reveal_strlit("trust");
    reveal_strlit("size");
    reveal_strlit("hash");
    assert("trust"@.len() == 5 && "size"@.len() == 4 && "hash"@.len() == 4);
    assert("size"@[0] != "hash"@[0]);
}

/// What was asked for on the command line is not tuned; what was left at its
/// default is tuned to the devices, and nothing else of the configuration changes.
pub proof fn law_only_defaults_are_tuned(
    config: &mut EngineConfig,
    strategy: CopyStrategy,
    options: CliOptions,
)
    requires
        call_ensures(apply_hardware_detection, (config, &strategy, &options), ()),
    ensures
        options.swarm_limit != 128 ==> final(config).swarm_concurrency
            == old(config).swarm_concurrency,
        options.swarm_limit == 128 && options.verify ==> final(config).swarm_concurrency
            == strategy.recommended_swarm_concurrency_verify,
        options.swarm_limit == 128 && !options.verify ==> final(config).swarm_concurrency
            == strategy.recommended_swarm_concurrency,
        options.block_size != 4 ==> final(config).block_size_bytes == old(config).block_size_bytes,
        options.block_size == 4 ==> final(config).block_size_bytes
            == strategy.recommended_block_size,
        final(config).verify == old(config).verify,
        final(config).hash_algorithm == old(config).hash_algorithm,
        final(config).operation_mode == old(config).operation_mode,
        final(config).dry_run == old(config).dry_run,
        final(config).resume == old(config).resume,
        final(config).resume_policy == old(config).resume_policy,
        final(config).use_partial_files == old(config).use_partial_files,
        final(config).triage_threshold_bytes == old(config).triage_threshold_bytes,
        final(config).channel_capacity == old(config).channel_capacity,
        final(config).bandwidth_limit_bytes_per_sec == old(config).bandwidth_limit_bytes_per_sec,
        final(config).bandwidth_burst_bytes == old(config).bandwidth_burst_bytes,
{
}

/// One interrupt pauses, and only a further one cancels.
pub proof fn law_first_interrupt_pauses(earlier: u32, interrupt: Interrupt)
    requires
        call_ensures(on_interrupt, (earlier,), interrupt),
    ensures
        interrupt == Interrupt::Pause ==> earlier == 0,
        interrupt == Interrupt::Cancel ==> earlier > 0,
{
}

/// The program succeeds if and only if no file failed, and its last line says the
/// same.
pub proof fn law_failures_decide_the_exit(result: CopyResult, code: i32, line: String)
    requires
        call_ensures(exit_code, (&result,), code),
        call_ensures(summary_verdict, (&result,), line),
    ensures
        code == 0 <==> result.failed_files == 0,
        code == 0 || code == 3,
        code == 0 <==> line@ == "  ✓ Completado"@,
        code != 0 ==> line@ == "  ⚠  "@ + decimal(result.failed_files as nat) + " error(es)"@,
{
    reveal_strlit("  ✓ Completado");
    reveal_strlit("  ⚠  ");
    if code != 0 {
        assert(line@[2] == '⚠');
        assert("  ✓ Completado"@[2] == '✓');
    }
}

/// The summary always counts the completed files, and counts the failed,
/// revalidated, moved, kept and removed ones where there are any, each with its
/// number.
pub proof fn law_summary_counts_what_happened(
    result: CopyResult,
    lines: Vec<String>,
    label: Seq<char>,
    count: usize,
)
    requires
        call_ensures(summary_count_lines, (&result,), lines),
        (label == "  ⚠  Fallidos:           "@ && count == result.failed_files) || (label
            == "  ↺  Revalidados:        "@ && count == result.revalidated_files) || (label
            == "  ✂  Movidos:            "@ && count == result.moved_files) || (label
            == "  ⚠  Origen no borrado:  "@ && count == result.move_delete_failed) || (label
            == "  📁 Carpetas vacías:    "@ && count == result.dirs_removed),
    ensures
        lines@.len() > 0,
        lines@[0]@ == "  Completados:  "@ + (decimal(result.completed_files as nat)
            + " archivos"@),
        count > 0 ==> texts(lines@).contains(label + decimal(count as nat)),
        lines@.len() == 1 + one_if(result.failed_files > 0) + one_if(result.revalidated_files > 0)
            + one_if(result.moved_files > 0) + one_if(result.move_delete_failed > 0) + one_if(
            result.dirs_removed > 0,
        ),
{
    let head = seq![
        "  Completados:  "@ + (decimal(result.completed_files as nat) + " archivos"@),
    ];
    let failed = count_line("  ⚠  Fallidos:           "@, result.failed_files);
    let again = count_line("  ↺  Revalidados:        "@, result.revalidated_files);
    let moved = count_line("  ✂  Movidos:            "@, result.moved_files);
    let kept = count_line("  ⚠  Origen no borrado:  "@, result.move_delete_failed);
    let dirs = count_line("  📁 Carpetas vacías:    "@, result.dirs_removed);
    let all = texts(lines@);
    assert(all == head + failed + again + moved + kept + dirs);
    assert(lines@[0]@ == all[0]);
    assert(all[0] == head[0]);
    if count > 0 {
        let wanted = label + decimal(count as nat);
        if failed.len() > 0 {
            assert(all[1] == failed[0]);
        }
        if again.len() > 0 {
            assert(all[(head + failed).len() as int] == again[0]);
        }
        if moved.len() > 0 {
            assert(all[(head + failed + again).len() as int] == moved[0]);
        }
        if kept.len() > 0 {
            assert(all[(head + failed + again + moved).len() as int] == kept[0]);
        }
        if dirs.len() > 0 {
            assert(all[(head + failed + again + moved + kept).len() as int] == dirs[0]);
        }
    }
}

/// 1 where something holds, else 0.
pub open spec fn one_if(holds: bool) -> nat {
    if holds {
        1
    } else {
        0
    }
}

/// The log says less the quieter the program is asked to be, and more the more it
/// is asked to say.
pub proof fn law_log_follows_verbosity(verbosity: u8, quiet: bool, level: &'static str)
    requires
        call_ensures(log_level, (verbosity, quiet), level),
    ensures
        quiet ==> level@ == "error"@,
        !quiet && verbosity == 0 ==> level@ == "warn"@,
        !quiet && verbosity == 1 ==> level@ == "info"@,
        !quiet && verbosity == 2 ==> level@ == "debug"@,
        !quiet && verbosity > 2 ==> level@ == "trace"@,
{
}

/// The banner says of the job what the configuration says: where from and where
/// to, whether it moves, verifies and only simulates.
pub proof fn law_banner_tells_the_job(
    config: EngineConfig,
    version: &str,
    source: &str,
    dest: &str,
    lines: Vec<String>,
)
    requires
        call_ensures(config_banner, (&config, version, source, dest), lines),
    ensures
        lines@.len() == 11,
        lines@[3]@ == "  Origen:    "@ + source@,
        lines@[4]@ == "  Destino:   "@ + dest@,
        config.dry_run ==> lines@[1]@ == "  FileCopier-Rust v"@ + version@ + " [DRY-RUN]"@,
        !config.dry_run ==> lines@[1]@ == "  FileCopier-Rust v"@ + version@ + ""@,
        config.operation_mode == OperationMode::Copy ==> lines@[5]@ == "  Operación: "@
            + "copiar"@,
        config.operation_mode == OperationMode::Move ==> lines@[5]@ == "  Operación: "@
            + "MOVER (borra origen tras copia exitosa)"@,
        !config.verify ==> lines@[8]@ == "  Verif.:    "@ + "✗"@,
        config.verify ==> lines@[8]@ == "  Verif.:    "@ + ("✓ ("@
            + config.hash_algorithm.display() + ")"@),
{
    let all = texts(lines@);
    assert(all.len() == 11);
    assert(forall|i: int| 0 <= i < 11 ==> all[i] == lines@[i]@);
}

/// The line on the hardware names the source before the destination, and tells what is
/// recommended for the way in which the job runs.
pub proof fn law_hardware_is_told(strategy: CopyStrategy, verify: bool, line: String)
    requires
        call_ensures(hardware_line, (&strategy, verify), line),
    ensures
        ({
            let concurrency = if verify {
                strategy.recommended_swarm_concurrency_verify
            } else {
                strategy.recommended_swarm_concurrency
            };
            line@ == "  Hardware: "@ + drive_label(strategy.source_kind) + " → "@ + drive_label(
                strategy.dest_kind,
            ) + "  |  enjambre="@ + decimal(concurrency as nat) + " bloque="@ + decimal(
                (strategy.recommended_block_size / 1_048_576) as nat,
            ) + "MB"@
        }),
        drive_label(DriveKind::Ssd) == "SSD/NVMe"@,
        drive_label(DriveKind::Hdd) == "HDD"@,
        drive_label(DriveKind::Network) == "Red"@,
        drive_label(DriveKind::Unknown) == "?"@,
{
}

} // verus!
