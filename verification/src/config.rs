//! The configuration of the copy engine.

use vstd::prelude::*;
use vstd::string::*;

use crate::checkpoint::ResumePolicy;
use crate::error::{CoreError, Result};
use crate::hash::Algorithm;
use crate::text::{decimal, format_decimal};

verus! {

/// The largest block, in bytes.
pub const MAX_BLOCK_SIZE: usize = 67_108_864;

/// The most tasks that the swarm may run at once.
pub const MAX_SWARM_CONCURRENCY: usize = 1024;

/// The most memory, in bytes, that the blocks of one pipeline may take.
pub const MAX_PIPELINE_RAM: usize = 536_870_912;

/// What happens to the source.
#[derive(Debug, Clone, Copy, PartialEq, Eq, Structural)]
pub enum OperationMode {
    /// The source stays.
    Copy,
    /// The source is deleted once its copy is complete.
    Move,
}

impl Default for OperationMode {
    fn default() -> (mode: Self)
        ensures
            mode == OperationMode::Copy,
    {
        OperationMode::Copy
    }
}

/// The configuration of the copy engine.
#[derive(Debug, Clone, Copy, PartialEq, Eq, Structural)]
pub struct EngineConfig {
    /// Files of this size and larger go through the block pipeline, smaller
    /// ones through the swarm.
    pub triage_threshold_bytes: u64,
    /// The size of a block.
    pub block_size_bytes: usize,
    /// How many blocks the channel of the pipeline holds.
    pub channel_capacity: usize,
    /// How many small files are copied at once.
    pub swarm_concurrency: usize,
    /// Whether copies are verified by a digest.
    pub verify: bool,
    /// The hash function that verification uses.
    pub hash_algorithm: Algorithm,
    /// Copy or move.
    pub operation_mode: OperationMode,
    /// Whether the job is only simulated.
    pub dry_run: bool,
    /// Whether an existing checkpoint is resumed.
    pub resume: bool,
    /// How far that checkpoint is trusted.
    pub resume_policy: ResumePolicy,
    /// Whether files are written under a `.partial` name until they are
    /// complete.
    pub use_partial_files: bool,
    /// The bandwidth limit; 0 for none.
    pub bandwidth_limit_bytes_per_sec: u64,
    /// How many bytes may pass before the limit bites.
    pub bandwidth_burst_bytes: u64,
}

/// The configuration that holds where nothing else is asked for.
pub open spec fn default_config() -> EngineConfig {
    EngineConfig {
        triage_threshold_bytes: 16_777_216,
        block_size_bytes: 4_194_304,
        channel_capacity: 8,
        swarm_concurrency: 128,
        verify: false,
        hash_algorithm: Algorithm::Blake3,
        operation_mode: OperationMode::Copy,
        dry_run: false,
        resume: false,
        resume_policy: ResumePolicy::VerifySize,
        use_partial_files: true,
        bandwidth_limit_bytes_per_sec: 0,
        bandwidth_burst_bytes: 1_048_576,
    }
}

impl Default for EngineConfig {
    fn default() -> (config: Self)
        ensures
            config == default_config(),
    {
        EngineConfig {
            triage_threshold_bytes: 16_777_216,
            block_size_bytes: 4_194_304,
            channel_capacity: 8,
            swarm_concurrency: 128,
            verify: false,
            hash_algorithm: Algorithm::Blake3,
            operation_mode: OperationMode::Copy,
            dry_run: false,
            resume: false,
            resume_policy: ResumePolicy::VerifySize,
            use_partial_files: true,
            bandwidth_limit_bytes_per_sec: 0,
            bandwidth_burst_bytes: 1_048_576,
        }
    }
}

impl EngineConfig {
    /// The memory that the blocks in the channel can take.
    pub open spec fn pipeline_ram(self) -> int {
        self.channel_capacity * self.block_size_bytes
    }

    /// What is wrong with a single parameter, if anything: the first fault in
    /// the order of the parameters.
    pub open spec fn parameter_fault(self) -> Option<Seq<char>> {
        if self.block_size_bytes == 0 {
            Some("block_size_bytes no puede ser cero"@)
        } else if self.block_size_bytes > MAX_BLOCK_SIZE {
            Some("block_size_bytes excede 64 MB: riesgo de OOM"@)
        } else if self.channel_capacity == 0 {
            Some("channel_capacity no puede ser cero"@)
        } else if self.swarm_concurrency == 0 {
            Some("swarm_concurrency no puede ser cero"@)
        } else if self.swarm_concurrency > MAX_SWARM_CONCURRENCY {
            Some("swarm_concurrency > 1024: riesgo de saturación de file descriptors"@)
        } else {
            None
        }
    }

    /// What is wrong with the configuration, if anything.
    pub open spec fn fault(self) -> Option<Seq<char>> {
        if self.parameter_fault() is Some {
            self.parameter_fault()
        } else if self.pipeline_ram() > MAX_PIPELINE_RAM {
            Some(
                "Pipeline consumiría "@ + decimal((self.pipeline_ram() / 1_048_576) as nat)
                    + " MB de RAM. Máximo: 512 MB"@,
            )
        } else {
            None
        }
    }

    /// Rejects a configuration that the engine could not run with.
    pub fn validate(&self) -> (valid: Result<()>)
        ensures
            match self.fault() {
                Some(message) => valid matches Err(CoreError::InvalidConfig { message: m }) && m@
                    == message,
                None => valid is Ok,
            },
    {
        if self.block_size_bytes == 0 {
            return invalid("block_size_bytes no puede ser cero");
        }
        if self.block_size_bytes > MAX_BLOCK_SIZE {
            return invalid("block_size_bytes excede 64 MB: riesgo de OOM");
        }
        if self.channel_capacity == 0 {
            return invalid("channel_capacity no puede ser cero");
        }
        if self.swarm_concurrency == 0 {
            return invalid("swarm_concurrency no puede ser cero");
        }
        if self.swarm_concurrency > MAX_SWARM_CONCURRENCY {
            return invalid(
                "swarm_concurrency > 1024: riesgo de saturación de file descriptors",
            );
        }
        proof {
            assert(self.channel_capacity * self.block_size_bytes <= u64::MAX * u64::MAX)
                by (nonlinear_arith)
                requires
                    0 <= self.channel_capacity <= u64::MAX,
                    0 <= self.block_size_bytes <= u64::MAX,
            ;
        }
        let max_ram: u128 = self.channel_capacity as u128 * self.block_size_bytes as u128;
        if max_ram > MAX_PIPELINE_RAM as u128 {
            let mut message = "Pipeline consumiría ".to_owned();
            message.append(format_decimal(max_ram / 1_048_576).as_str());
            message.append(" MB de RAM. Máximo: 512 MB");
            return Err(CoreError::InvalidConfig { message });
        }
        Ok(())
    }

    /// The memory that the blocks in the channel can take.
    pub fn max_pipeline_ram_bytes(&self) -> (bytes: usize)
        requires
            self.pipeline_ram() <= usize::MAX,
        ensures
            bytes == self.pipeline_ram(),
    {
        self.channel_capacity * self.block_size_bytes
    }

    /// Whether a file of this size goes through the block pipeline.
    pub fn is_large_file(&self, size: u64) -> (large: bool)
        ensures
            large == (size >= self.triage_threshold_bytes),
    {
        size >= self.triage_threshold_bytes
    }
}

fn invalid(text: &str) -> (rejected: Result<()>)
    ensures
        rejected matches Err(CoreError::InvalidConfig { message }) && message@ == text@,
{
    Err(CoreError::InvalidConfig { message: text.to_owned() })
}

/// The default configuration is valid.
pub proof fn law_default_config_is_valid()
    ensures
        default_config().fault() is None,
{
}

/// A valid configuration keeps the blocks of a pipeline, those that the reader
/// and the writer hold included, within `MAX_PIPELINE_RAM` and two blocks.
pub proof fn law_valid_config_bounds_memory(config: EngineConfig)
    requires
        config.fault() is None,
    ensures
        (config.channel_capacity + 2) * config.block_size_bytes <= MAX_PIPELINE_RAM + 2
            * MAX_BLOCK_SIZE,
{
    assert((config.channel_capacity + 2) * config.block_size_bytes == config.channel_capacity
        * config.block_size_bytes + 2 * config.block_size_bytes) by (nonlinear_arith);
}

/// Files are large from the threshold on: the threshold itself is large, one byte
/// less is small, and nothing above a large size is small.
pub proof fn law_files_are_large_from_the_threshold_on(
    config: EngineConfig,
    size: u64,
    large: bool,
    bigger: u64,
    bigger_large: bool,
)
    requires
        call_ensures(EngineConfig::is_large_file, (&config, size), large),
        call_ensures(EngineConfig::is_large_file, (&config, bigger), bigger_large),
        size <= bigger,
    ensures
        large ==> bigger_large,
        size == config.triage_threshold_bytes ==> large,
        size + 1 == config.triage_threshold_bytes ==> !large,
{
}

/// A configuration is accepted if and only if its blocks are between 1 byte and
/// 64 MB, its channel and its swarm are not empty, the swarm has no more than 1024
/// tasks and the channel takes no more than 512 MB; a refusal is one of the
/// configuration.
pub proof fn law_accepted_configurations(config: EngineConfig, valid: Result<()>)
    requires
        call_ensures(EngineConfig::validate, (&config,), valid),
    ensures
        valid is Ok <==> {
            &&& 1 <= config.block_size_bytes <= 67_108_864
            &&& 1 <= config.channel_capacity
            &&& 1 <= config.swarm_concurrency <= 1024
            &&& config.channel_capacity * config.block_size_bytes <= 536_870_912
        },
        valid is Err ==> valid->Err_0 is InvalidConfig,
{
}

/// The memory of a pipeline is what its blocks take: one more block in the channel
/// takes one block more.
pub proof fn law_pipeline_takes_its_blocks(
    config: EngineConfig,
    wider: EngineConfig,
    bytes: usize,
    more: usize,
)
    requires
        call_ensures(EngineConfig::max_pipeline_ram_bytes, (&config,), bytes),
        call_ensures(EngineConfig::max_pipeline_ram_bytes, (&wider,), more),
        wider.block_size_bytes == config.block_size_bytes,
        wider.channel_capacity == config.channel_capacity + 1,
    ensures
        more == bytes + config.block_size_bytes,
        config.channel_capacity == 0 ==> bytes == 0,
{
    assert((config.channel_capacity + 1) * config.block_size_bytes == config.channel_capacity
        * config.block_size_bytes + config.block_size_bytes) by (nonlinear_arith);
}

/// Unless something else is asked for, a job copies and keeps the source, really
/// runs, starts afresh, writes under partial names, takes no digests, knows no
/// bandwidth limit and would check sizes if it were resumed.
pub proof fn law_default_job_is_a_plain_copy(config: EngineConfig, mode: OperationMode)
    requires
        call_ensures(EngineConfig::default, (), config),
        call_ensures(OperationMode::default, (), mode),
    ensures
        mode == OperationMode::Copy,
        config.operation_mode == mode,
        !config.verify && !config.dry_run && !config.resume,
        config.use_partial_files,
        config.resume_policy == ResumePolicy::VerifySize,
        config.bandwidth_limit_bytes_per_sec == 0,
        config.bandwidth_burst_bytes == 1024 * 1024,
        config.hash_algorithm == Algorithm::Blake3,
        config.triage_threshold_bytes == 16 * 1024 * 1024,
        config.block_size_bytes == 4 * 1024 * 1024,
        config.channel_capacity == 8,
        config.swarm_concurrency == 128,
{
}

/// A rejected configuration is told by the first of its parameters that is out of bounds,
/// in their order: block size, channel, swarm, and last the memory that they take together.
pub proof fn law_rejection_names_the_parameter(config: EngineConfig, valid: Result<()>)
    requires
        call_ensures(EngineConfig::validate, (&config,), valid),
        valid is Err,
    ensures
        ({
            let message = valid->Err_0->message@;
            let block = 1 <= config.block_size_bytes <= 67_108_864;
            let channel = config.channel_capacity >= 1;
            let swarm = 1 <= config.swarm_concurrency <= 1024;
            &&& config.block_size_bytes == 0 ==> message == "block_size_bytes no puede ser cero"@
            &&& config.block_size_bytes > 67_108_864 ==> message
                == "block_size_bytes excede 64 MB: riesgo de OOM"@
            &&& block && !channel ==> message == "channel_capacity no puede ser cero"@
            &&& block && channel && config.swarm_concurrency == 0 ==> message
                == "swarm_concurrency no puede ser cero"@
            &&& block && channel && config.swarm_concurrency > 1024 ==> message
                == "swarm_concurrency > 1024: riesgo de saturación de file descriptors"@
            &&& block && channel && swarm ==> message == "Pipeline consumiría "@ + decimal(
                ((config.channel_capacity * config.block_size_bytes) / 1_048_576) as nat,
            ) + " MB de RAM. Máximo: 512 MB"@
        }),
{
}

} // verus!
