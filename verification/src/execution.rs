//! The executor's decisions: what is admitted to execution, under which
//! plan, how the capsule's result word is read, how failures are named,
//! and how a finished run becomes a receipt.
//!
//! Running the WebAssembly engine is the caller's part. The caller asks
//! `prepare` for a plan, runs the capsule under it, and hands what happened
//! to the functions here.

use vstd::prelude::*;
use vstd::string::*;
use crate::receipts::{issued_receipt, ExecMetrics, ExecutionReceipt, ReceiptError};
use crate::sandbox::{allowlist_of, Capability, ResourceLimits, SandboxError, SecuritySandbox};
use crate::signing::{derive_public_key, ed25519_public_key};
use crate::text::{decimal, push_decimal, texts};
use crate::validation::{
    Finding, ModuleInterface, ReportView, ValidationError, ValidationResult, WasmValidator,
    DEFAULT_MAX_CAPSULE_SIZE,
};

verus! {

/// The default limit on input and output size: one mebibyte.
pub const MAX_IO_SIZE: usize = 1048576;

/// Where the input is placed in the capsule's linear memory.
pub const INPUT_OFFSET: usize = 1024;

/// Why an execution failed.
#[derive(Debug)]
#[allow(inconsistent_fields)]
pub enum ExecutionError {
    ValidationFailed { source: ValidationError },
    SandboxError { source: SandboxError },
    ExecutionFailed { reason: String },
    Timeout { timeout_ms: u64 },
    ResourceLimitExceeded { limit_type: String },
    IOError { reason: String },
    ReceiptError { source: ReceiptError },
    HostFunctionError { function: String, reason: String },
}

/// What a successful execution gives.
#[derive(Debug)]
pub struct ExecutionResult {
    /// The capsule's output.
    pub output: Vec<u8>,
    /// What the execution consumed.
    pub metrics: ExecMetrics,
    /// The signed receipt.
    pub receipt: ExecutionReceipt,
}

/// How the runtime is set up.
#[derive(Debug, Clone, Copy)]
pub struct RuntimeConfig {
    /// Whether fuel is metered.
    pub enable_fuel: bool,
    /// Whether compiled modules are cached.
    pub enable_cache: bool,
    /// Limit on input and output size in bytes.
    pub max_io_size: usize,
    /// Whether detailed metrics are collected.
    pub detailed_metrics: bool,
}

impl Default for RuntimeConfig {
    fn default() -> (r: Self)
        ensures
            r.enable_fuel,
            r.enable_cache,
            r.max_io_size == MAX_IO_SIZE,
            r.detailed_metrics,
    {
        RuntimeConfig {
            enable_fuel: true,
            enable_cache: true,
            max_io_size: MAX_IO_SIZE,
            detailed_metrics: true,
        }
    }
}

/// What the operator asks of a test run on the command line.
#[derive(Debug)]
pub struct TestArgs {
    /// Path to the capsule file.
    pub capsule: String,
    /// The input, a JSON text.
    pub input: String,
    /// Whether to show the execution metrics.
    pub metrics: bool,
    /// Whether to show the whole receipt.
    pub show_receipt: bool,
    /// Resource limits as a JSON text, in place of the defaults.
    pub limits: Option<String>,
}

/// The limits of a test run that names none: 64 MB, five seconds, ten
/// million units of fuel; hashing, JSON, Base64 and time.
pub fn test_limits() -> (r: ResourceLimits)
    ensures
        r.memory_limit_mb == 64,
        r.execution_time_ms == 5000,
        r.fuel_limit == 10000000,
        r.capabilities@ == seq![
            Capability::Hash,
            Capability::Json,
            Capability::Base64,
            Capability::Time,
        ],
{
    let mut capabilities: Vec<Capability> = Vec::new();
    capabilities.push(Capability::Hash);
    capabilities.push(Capability::Json);
    capabilities.push(Capability::Base64);
    capabilities.push(Capability::Time);
    proof {
        assert(capabilities@ =~= seq![
            Capability::Hash,
            Capability::Json,
            Capability::Base64,
            Capability::Time,
        ]);
    }
    ResourceLimits { memory_limit_mb: 64, execution_time_ms: 5000, fuel_limit: 10000000, capabilities }
}

/// Under what a capsule is to be run.
pub struct ExecutionPlan {
    /// The sandbox of this execution: its allowlist decides each host
    /// function call, its audit log records it.
    pub sandbox: SecuritySandbox,
    /// The fuel to put into the store; `None` where fuel is not metered.
    pub fuel: Option<u64>,
    /// Cap on linear memory, in bytes.
    pub memory_limit_bytes: u64,
    /// Wall-clock deadline, in milliseconds.
    pub deadline_ms: u64,
    /// The host functions to link.
    pub host_functions: Vec<String>,
    /// Where to place the input in linear memory.
    pub input_offset: usize,
}

/// How a run went wrong.
#[derive(Debug)]
pub enum RunFailure {
    /// The module did not compile.
    CompileFailed { reason: String },
    /// A host function could not be linked.
    LinkFailed { reason: String },
    /// The module could not be instantiated, for one because an import
    /// could not be resolved.
    InstantiationFailed { reason: String },
    /// The entry `run(i32, i32) -> i32` is absent.
    MissingRun { reason: String },
    /// The export `memory` is absent.
    MissingMemory,
    /// The input could not be written to linear memory.
    WriteFailed { reason: String },
    /// The capsule trapped.
    Trapped { reason: String },
    /// The wall-clock deadline passed.
    DeadlineExceeded,
    /// The fuel ran out.
    FuelExhausted,
    /// Linear memory would have grown past its cap.
    MemoryLimitExceeded,
    /// The output could not be read from linear memory.
    ReadFailed { reason: String },
}

/// The error that a run failure is reported as.
pub open spec fn failure_kind(failure: RunFailure, deadline_ms: u64, error: ExecutionError) -> bool {
    match failure {
        RunFailure::DeadlineExceeded => error matches ExecutionError::Timeout { timeout_ms }
            && timeout_ms == deadline_ms,
        RunFailure::FuelExhausted => error matches ExecutionError::ResourceLimitExceeded {
            limit_type,
        } && limit_type@ == "fuel"@,
        RunFailure::MemoryLimitExceeded => error matches ExecutionError::ResourceLimitExceeded {
            limit_type,
        } && limit_type@ == "memory"@,
        _ => error is ExecutionFailed,
    }
}

/// The length that a result word announces: its upper sixteen bits.
pub open spec fn announced_length(word: i32) -> int {
    word as int / 65536
}

/// The place that a result word announces: its lower sixteen bits.
pub open spec fn announced_place(word: i32) -> int {
    word as int % 65536
}

/// The result word that announces `length` bytes at `place`.
pub open spec fn result_word(length: int, place: int) -> int {
    length * 65536 + place
}

/// The metrics of a finished run.
pub open spec fn metrics_of(
    enable_fuel: bool,
    fuel_limit: u64,
    fuel_remaining: Option<u64>,
    memory_size: usize,
    duration_ms: u64,
    host_function_calls: u32,
) -> ExecMetrics {
    let remaining = match fuel_remaining {
        Some(left) => left,
        None => 0,
    };
    ExecMetrics {
        fuel_used: if enable_fuel && remaining <= fuel_limit {
            (fuel_limit - remaining) as u64
        } else {
            0
        },
        memory_bytes: memory_size as u64,
        duration_ms,
        host_function_calls,
    }
}

/// Whether an input of `input_len` bytes, placed at the input offset, lies
/// within a linear memory of `memory_size` bytes.
pub open spec fn input_fits(input_len: usize, memory_size: usize) -> bool {
    INPUT_OFFSET + input_len <= memory_size
}

/// Tells whether the input fits into the capsule's linear memory; an input
/// that does not fit fails the execution.
pub fn check_input_fits(input_len: usize, memory_size: usize) -> (r: Result<(), ExecutionError>)
    ensures
        r is Ok <==> input_fits(input_len, memory_size),
        r is Err ==> r matches Err(ExecutionError::ExecutionFailed { .. }),
{
    if memory_size < INPUT_OFFSET || input_len > memory_size - INPUT_OFFSET {
        Err(ExecutionError::ExecutionFailed { reason: "Input too large for WASM memory".to_owned() })
    } else {
        Ok(())
    }
}

/// Names a run failure: a passed deadline is a `Timeout` with the
/// deadline, exhausted fuel and a memory cap are `ResourceLimitExceeded`
/// with `fuel` and `memory`, everything else is `ExecutionFailed`.
pub fn classify_failure(failure: RunFailure, deadline_ms: u64) -> (r: ExecutionError)
    ensures
        failure_kind(failure, deadline_ms, r),
{
    match failure {
        RunFailure::CompileFailed { reason } => {
            let mut text = "Module compilation failed: ".to_owned();
            text.append(reason.as_str());
            ExecutionError::ExecutionFailed { reason: text }
        },
        RunFailure::LinkFailed { reason } => {
            let mut text = "Failed to link host function: ".to_owned();
            text.append(reason.as_str());
            ExecutionError::ExecutionFailed { reason: text }
        },
        RunFailure::InstantiationFailed { reason } => {
            let mut text = "Module instantiation failed: ".to_owned();
            text.append(reason.as_str());
            ExecutionError::ExecutionFailed { reason: text }
        },
        RunFailure::MissingRun { reason } => {
            let mut text = "Failed to get 'run' function: ".to_owned();
            text.append(reason.as_str());
            ExecutionError::ExecutionFailed { reason: text }
        },
        RunFailure::MissingMemory => ExecutionError::ExecutionFailed {
            reason: "Module missing 'memory' export".to_owned(),
        },
        RunFailure::WriteFailed { reason } => {
            let mut text = "Failed to write input to memory: ".to_owned();
            text.append(reason.as_str());
            ExecutionError::ExecutionFailed { reason: text }
        },
        RunFailure::Trapped { reason } => {
            let mut text = "Function execution failed: ".to_owned();
            text.append(reason.as_str());
            ExecutionError::ExecutionFailed { reason: text }
        },
        RunFailure::DeadlineExceeded => ExecutionError::Timeout { timeout_ms: deadline_ms },
        RunFailure::FuelExhausted => ExecutionError::ResourceLimitExceeded {
            limit_type: "fuel".to_owned(),
        },
        RunFailure::MemoryLimitExceeded => ExecutionError::ResourceLimitExceeded {
            limit_type: "memory".to_owned(),
        },
        RunFailure::ReadFailed { reason } => {
            let mut text = "Failed to read output from memory: ".to_owned();
            text.append(reason.as_str());
            ExecutionError::ExecutionFailed { reason: text }
        },
    }
}

/// The complaint about an input or output above the size limit.
fn size_complaint(what: &str, size: usize, max_size: usize) -> (r: String)
    ensures
        r@ == what@ + " too large: "@ + decimal(size as nat) + " bytes (max: "@ + decimal(
            max_size as nat,
        ) + ")"@,
{
    let mut reason = what.to_owned();
    reason.append(" too large: ");
    push_decimal(&mut reason, size as u128);
    reason.append(" bytes (max: ");
    push_decimal(&mut reason, max_size as u128);
    reason.append(")");
    proof {
        assert(reason@ =~= what@ + " too large: "@ + decimal(size as nat) + " bytes (max: "@
            + decimal(max_size as nat) + ")"@);
    }
    reason
}

/// Reads the capsule's result word: the place and the length of the
/// output. A negative word, or a length above `max_io_size`, is an
/// `IOError`.
pub fn output_location(word: i32, max_io_size: usize) -> (r: Result<(usize, usize), ExecutionError>)
    ensures
        match r {
            Ok((place, length)) => word >= 0 && place == announced_place(word) && length
                == announced_length(word) && length <= max_io_size,
            Err(error) => error is IOError && (word < 0 || announced_length(word) > max_io_size),
        },
{
    if word < 0 {
        return Err(ExecutionError::IOError { reason: "Output too large".to_owned() });
    }
    let length: usize = (word / 65536) as usize;
    let place: usize = (word % 65536) as usize;
    if length > max_io_size {
        return Err(ExecutionError::IOError { reason: size_complaint("Output", length, max_io_size) });
    }
    Ok((place, length))
}

/// Packs a place and a length into a result word, as a capsule does.
pub fn pack_result(place: u16, length: u16) -> (r: i32)
    requires
        length < 32768,
    ensures
        r == result_word(length as int, place as int),
        announced_length(r) == length,
        announced_place(r) == place,
{
    (length as i32) * 65536 + (place as i32)
}

/// Collects the metrics of a finished run: the fuel used is the limit less
/// what remains (zero where fuel is not metered), the memory is the size
/// of linear memory.
pub fn collect_metrics(
    enable_fuel: bool,
    fuel_limit: u64,
    fuel_remaining: Option<u64>,
    memory_size: usize,
    duration_ms: u64,
    host_function_calls: u32,
) -> (r: ExecMetrics)
    ensures
        r == metrics_of(
            enable_fuel,
            fuel_limit,
            fuel_remaining,
            memory_size,
            duration_ms,
            host_function_calls,
        ),
{
    let remaining: u64 = match fuel_remaining {
        Some(left) => left,
        None => 0,
    };
    let fuel_used: u64 = if enable_fuel && remaining <= fuel_limit {
        fuel_limit - remaining
    } else {
        0
    };
    ExecMetrics { fuel_used, memory_bytes: memory_size as u64, duration_ms, host_function_calls }
}

/// The runtime: its configuration, its validator, the node's signing key
/// and the nonce of the next receipt.
pub struct WasmRuntime {
    config: RuntimeConfig,
    validator: WasmValidator,
    signing_key: [u8; 32],
    nonce_counter: u64,
}

impl WasmRuntime {
    /// The configuration.
    pub closed spec fn config(&self) -> RuntimeConfig {
        self.config
    }

    /// The validator.
    pub closed spec fn validator(&self) -> WasmValidator {
        self.validator
    }

    /// The node's signing key.
    pub closed spec fn key(&self) -> Seq<u8> {
        self.signing_key@
    }

    /// The nonce of the next receipt.
    pub closed spec fn nonce(&self) -> u64 {
        self.nonce_counter
    }

    /// The validator is the default one.
    pub open spec fn default_validator(&self) -> bool {
        &&& self.validator().limit() == DEFAULT_MAX_CAPSULE_SIZE
        &&& self.validator().strict()
        &&& self.validator().standard_exports()
    }

    /// A runtime with the default configuration; its first nonce is one.
    pub fn new(signing_key: [u8; 32]) -> (r: Result<Self, ExecutionError>)
        ensures
            r matches Ok(runtime) && runtime.key() == signing_key@ && runtime.nonce() == 1
                && runtime.default_validator() && runtime.config().enable_fuel
                && runtime.config().max_io_size == MAX_IO_SIZE,
    {
        Self::with_config(signing_key, RuntimeConfig::default())
    }

    /// A runtime with the given configuration; its first nonce is one.
    pub fn with_config(signing_key: [u8; 32], config: RuntimeConfig) -> (r: Result<
        Self,
        ExecutionError,
    >)
        ensures
            r matches Ok(runtime) && runtime.key() == signing_key@ && runtime.nonce() == 1
                && runtime.default_validator() && runtime.config() == config,
    {
        match WasmValidator::new() {
            Ok(validator) => Ok(WasmRuntime { config, validator, signing_key, nonce_counter: 1 }),
            Err(error) => Err(ExecutionError::ValidationFailed { source: error }),
        }
    }

    /// The nonce of the next receipt.
    pub fn next_nonce(&self) -> (r: u64)
        ensures
            r == self.nonce(),
    {
        self.nonce_counter
    }

    /// The runtime's public key.
    pub fn public_key(&self) -> (r: [u8; 32])
        ensures
            r@ == ed25519_public_key(self.key()),
    {
        derive_public_key(&self.signing_key)
    }

    /// The runtime's configuration.
    pub fn configuration(&self) -> (r: RuntimeConfig)
        ensures
            r == self.config(),
    {
        self.config
    }

    /// The plan under which an admitted capsule runs.
    pub open spec fn plan_fits(&self, limits: ResourceLimits, plan: ExecutionPlan) -> bool {
        &&& plan.sandbox.wf()
        &&& plan.sandbox.limits() == limits
        &&& plan.sandbox.log() == Seq::<crate::sandbox::AccessLogEntry>::empty()
        &&& plan.fuel == if self.config().enable_fuel {
            Some(limits.fuel_limit)
        } else {
            None::<u64>
        }
        &&& plan.memory_limit_bytes == limits.memory_limit_mb as int * 1048576
        &&& plan.deadline_ms == limits.execution_time_ms
        &&& plan.input_offset == INPUT_OFFSET
        &&& texts(plan.host_functions@).no_duplicates()
        &&& forall|name: Seq<char>|
            texts(plan.host_functions@).contains(name) <==> allowlist_of(
                limits.capabilities@,
            ).contains_key(name)
    }

    /// What admission owes on an input of `input_len` bytes and a
    /// validation report: an input above the size limit is an `IOError`; a
    /// failing report is `ValidationFailed` with the report's first
    /// finding; otherwise the plan.
    pub open spec fn admission(
        &self,
        input_len: usize,
        report: ReportView,
        limits: ResourceLimits,
        r: Result<ExecutionPlan, ExecutionError>,
    ) -> bool {
        if input_len > self.config().max_io_size {
            r matches Err(ExecutionError::IOError { .. })
        } else if !report.is_valid {
            r matches Err(ExecutionError::ValidationFailed { source }) && (report.errors.len() > 0
                ==> source@ == report.errors[0])
        } else {
            r matches Ok(plan) && self.plan_fits(limits, plan)
        }
    }

    /// Admits a capsule to execution or refuses it.
    ///
    /// The input size is checked first, then the capsule is validated, then
    /// the sandbox is made from `resource_limits` and the plan drawn up.
    /// An input above the size limit is an `IOError`; a capsule above its
    /// size limit is `ValidationFailed` with `SizeExceeded`; for any other
    /// capsule the answer is what `plan_execution` owes on the report that
    /// the validator makes of what parsing the capsule gave.
    pub fn prepare(&self, capsule_bytes: &[u8], input: &[u8], resource_limits: ResourceLimits) -> (r:
        Result<ExecutionPlan, ExecutionError>)
        ensures
            if input@.len() > self.config().max_io_size {
                r matches Err(ExecutionError::IOError { .. })
            } else if capsule_bytes@.len() > self.validator().limit() {
                r matches Err(ExecutionError::ValidationFailed { source }) && source@
                    == (Finding::SizeExceeded {
                    size: capsule_bytes@.len() as usize,
                    max_size: self.validator().limit(),
                })
            } else {
                exists|parsed: Result<ModuleInterface, String>| #[trigger]
                    self.admission(
                        input@.len() as usize,
                        self.validator().report_for(None, capsule_bytes@.len() as usize, parsed),
                        resource_limits,
                        r,
                    )
            },
    {
        if input.len() > self.config.max_io_size {
            return Err(
                ExecutionError::IOError { reason: size_complaint("Input", input.len(), self.config.max_io_size) },
            );
        }
        match self.validator.validate(capsule_bytes) {
            Ok(report) => {
                let ghost view = report@;
                let r = self.plan_execution(input.len(), report, resource_limits);
                proof {
                    if capsule_bytes@.len() <= self.validator().limit() {
                        let parsed = choose|parsed: Result<ModuleInterface, String>|
                            view == #[trigger] self.validator().report_for(
                                None,
                                capsule_bytes@.len() as usize,
                                parsed,
                            );
                        assert(self.admission(
                            input@.len() as usize,
                            self.validator().report_for(None, capsule_bytes@.len() as usize, parsed),
                            resource_limits,
                            r,
                        ));
                    }
                }
                r
            },
            Err(error) => {
                proof {
                    assert(false);
                }
                Err(ExecutionError::ValidationFailed { source: error })
            },
        }
    }

    /// Admits or refuses, given the validation report.
    pub fn plan_execution(&self, input_len: usize, report: ValidationResult, resource_limits: ResourceLimits) -> (r:
        Result<ExecutionPlan, ExecutionError>)
        ensures
            self.admission(input_len, report@, resource_limits, r),
    {
        if input_len > self.config.max_io_size {
            return Err(
                ExecutionError::IOError { reason: size_complaint("Input", input_len, self.config.max_io_size) },
            );
        }
        if !report.is_valid {
            let mut errors = report.errors;
            if errors.len() == 0 {
                return Err(
                    ExecutionError::ValidationFailed {
                        source: ValidationError::InvalidModule {
                            reason: "Validation failed".to_owned(),
                        },
                    },
                );
            }
            let first = errors.remove(0);
            return Err(ExecutionError::ValidationFailed { source: first });
        }
        let fuel: Option<u64> = if self.config.enable_fuel {
            Some(resource_limits.fuel_limit)
        } else {
            None
        };
        let memory_limit_bytes: u64 = resource_limits.memory_limit_mb as u64 * 1048576;
        let deadline_ms = resource_limits.execution_time_ms;
        let sandbox = SecuritySandbox::new(resource_limits);
        let host_functions = sandbox.allowed_functions();
        Ok(
            ExecutionPlan {
                sandbox,
                fuel,
                memory_limit_bytes,
                deadline_ms,
                host_functions,
                input_offset: INPUT_OFFSET,
            },
        )
    }

    /// Turns a finished run into its result: issues the receipt under the
    /// current nonce and advances the nonce by one.
    ///
    /// Where the nonce counter cannot advance, nothing is issued and the
    /// runtime stays as it was.
    pub fn finish(&mut self, capsule_bytes: &[u8], input: &[u8], output: Vec<u8>, metrics: ExecMetrics) -> (r:
        Result<ExecutionResult, ExecutionError>)
        ensures
            final(self).key() == old(self).key(),
            final(self).config() == old(self).config(),
            final(self).validator() == old(self).validator(),
            match r {
                Ok(result) => old(self).nonce() < u64::MAX && final(self).nonce() == old(self).nonce()
                    + 1 && result.output == output && result.metrics == metrics && result.receipt@
                    == issued_receipt(
                    capsule_bytes@,
                    input@,
                    output@,
                    metrics,
                    old(self).key(),
                    old(self).nonce(),
                    result.receipt@.timestamp,
                ) && result.receipt@.check(ed25519_public_key(old(self).key())) == Some(true),
                Err(error) => old(self).nonce() == u64::MAX && final(self).nonce() == old(
                    self,
                ).nonce() && error is ExecutionFailed,
            },
    {
        if self.nonce_counter == u64::MAX {
            return Err(
                ExecutionError::ExecutionFailed { reason: "Nonce counter exhausted".to_owned() },
            );
        }
        match ExecutionReceipt::new(
            capsule_bytes,
            input,
            output.as_slice(),
            metrics,
            &self.signing_key,
            self.nonce_counter,
        ) {
            Ok(receipt) => {
                self.nonce_counter = self.nonce_counter + 1;
                Ok(ExecutionResult { output, metrics, receipt })
            },
            Err(error) => {
                proof {
                    assert(false);
                }
                Err(ExecutionError::ReceiptError { source: error })
            },
        }
    }
}

} // verus!
