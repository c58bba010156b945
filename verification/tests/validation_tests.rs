use tenzik_core::execution::{
    check_input_fits, classify_failure, collect_metrics, output_location, pack_result, test_limits,
    ExecutionError, RunFailure, RuntimeConfig, TestArgs, WasmRuntime, INPUT_OFFSET, MAX_IO_SIZE,
};
use tenzik_core::digest::commitment_of;
use tenzik_core::hostabi::{
    base64_decode, base64_encode, hash_commit, time_ms_at, time_now_ms, HostRandom, HASH_LEN, HOST_OK,
};
use tenzik_core::receipts::{generate_test_signing_key, public_key_of, ExecMetrics};
use tenzik_core::sandbox::{Capability, ResourceLimits, SecuritySandbox};
use tenzik_core::validation::{
    validate_capsule, ModuleInterface, ValidationError, ValidationResult, ValidatorConfig, WasmValidator,
    DEFAULT_MAX_CAPSULE_SIZE,
};

/// A module that exports `run` and `memory`, padded to `size` bytes, with
/// the given function imports from `env`.
fn capsule(size: usize, imports: &[&str]) -> Vec<u8> {
    let mut bytes = vec![0x00, 0x61, 0x73, 0x6d, 0x01, 0x00, 0x00, 0x00];
    // type section: (i32, i32) -> i32
    bytes.extend([0x01, 0x07, 0x01, 0x60, 0x02, 0x7f, 0x7f, 0x01, 0x7f]);
    if !imports.is_empty() {
        let mut body = vec![imports.len() as u8];
        for name in imports {
            body.push(3);
            body.extend(b"env");
            body.push(name.len() as u8);
            body.extend(name.as_bytes());
            body.extend([0x00, 0x00]);
        }
        bytes.push(0x02);
        bytes.push(body.len() as u8);
        bytes.extend(body);
    }
    // function section: one function of type 0
    bytes.extend([0x03, 0x02, 0x01, 0x00]);
    // memory section: one memory of one page
    bytes.extend([0x05, 0x03, 0x01, 0x00, 0x01]);
    // export section: run (the defined function) and memory
    bytes.extend([0x07, 0x10, 0x02, 0x03]);
    bytes.extend(b"run");
    bytes.extend([0x00, imports.len() as u8, 0x06]);
    bytes.extend(b"memory");
    bytes.extend([0x02, 0x00]);
    // code section: the function returns 0
    bytes.extend([0x0a, 0x06, 0x01, 0x04, 0x00, 0x41, 0x00, 0x0b]);
    if size > bytes.len() {
        // a custom section named "pad" fills the rest
        let rest = size - bytes.len();
        assert!(rest >= 7 && rest - 3 >= 128 && rest - 3 < 16384, "cannot pad by {rest}");
        let content = rest - 3;
        bytes.push(0x00);
        bytes.push((content & 0x7f) as u8 | 0x80);
        bytes.push((content >> 7) as u8);
        bytes.push(3);
        bytes.extend(b"pad");
        bytes.extend(vec![0u8; content - 4]);
    }
    bytes
}

fn create_minimal_wasm_module() -> Vec<u8> {
    vec![
        0x00, 0x61, 0x73, 0x6d, // Magic number
        0x01, 0x00, 0x00, 0x00, // Version
    ]
}

fn interface(exports: &[&str], imports: &[(&str, &str)]) -> ModuleInterface {
    ModuleInterface {
        exports: exports.iter().map(|e| e.to_string()).collect(),
        imports: imports.iter().map(|(m, n)| (m.to_string(), n.to_string())).collect(),
    }
}

#[test]
fn test_size_validation() {
    let validator = WasmValidator::with_config(ValidatorConfig {
        max_size_bytes: 100, // Very small limit for testing
        ..Default::default()
    })
    .unwrap();

    let large_module = vec![0u8; 200]; // Too large
    let result = validator.validate(&large_module).unwrap();

    assert!(!result.is_valid);
    assert!(matches!(result.errors[0], ValidationError::SizeExceeded { .. }));
}

#[test]
fn test_invalid_wasm() {
    let validator = WasmValidator::new().unwrap();
    let invalid_wasm = b"not a wasm module";

    let result = validator.validate(invalid_wasm).unwrap();
    assert!(!result.is_valid);
    assert!(matches!(result.errors[0], ValidationError::CompilationFailed { .. }));
}

#[test]
fn test_size_warning() {
    let validator = WasmValidator::with_config(ValidatorConfig {
        max_size_bytes: 100,
        require_standard_exports: false, // Skip export validation for this test
        strict_imports: false,           // Skip import validation for this test
    })
    .unwrap();

    // Create a minimal valid WASM module that's 85 bytes (85% of 100 byte limit)
    let minimal_wasm = create_minimal_wasm_module();

    if minimal_wasm.len() > 80 {
        // If our test module triggers the warning
        let result = validator.validate(&minimal_wasm).unwrap();
        // Should have warnings about approaching size limit
        assert!(!result.warnings.is_empty());
    }
}

#[test]
fn test_runtime_config() {
    let config = RuntimeConfig {
        enable_fuel: false,
        enable_cache: true,
        max_io_size: 512,
        detailed_metrics: false,
    };

    assert!(!config.enable_fuel);
    assert_eq!(config.max_io_size, 512);
}

#[test]
fn test_test_args() {
    let args = TestArgs {
        capsule: "test.wasm".to_string(),
        input: "{\"test\": \"value\"}".to_string(),
        metrics: true,
        show_receipt: false,
        limits: None,
    };

    assert_eq!(args.capsule, "test.wasm");
    assert!(args.metrics);
    assert!(!args.show_receipt);
}

#[test]
fn test_runtime_creation() {
    let signing_key = generate_test_signing_key();
    let runtime = WasmRuntime::new(signing_key);
    assert!(runtime.is_ok());
}

#[test]
fn test_input_size_validation() {
    let signing_key = generate_test_signing_key();
    let runtime = WasmRuntime::new(signing_key).unwrap();

    let large_input = vec![0u8; MAX_IO_SIZE + 1];
    let capsule = create_minimal_wasm_module();
    let limits = ResourceLimits::default();

    let result = runtime.prepare(&capsule, &large_input, limits);
    assert!(matches!(result, Err(ExecutionError::IOError { .. })));
}

#[test]
fn a_capsule_of_200_bytes_passes_without_warnings() {
    let bytes = capsule(200, &[]);
    assert_eq!(bytes.len(), 200);
    let result = WasmValidator::new().unwrap().validate(&bytes).unwrap();
    assert!(result.is_valid, "{:?}", result.errors);
    assert!(result.warnings.is_empty());
    assert!(result.errors.is_empty());
    assert_eq!(result.size_bytes, 200);
    assert_eq!(result.exports, vec!["run".to_string(), "memory".to_string()]);
    assert!(result.imports.is_empty());
    let again = validate_capsule(&bytes).unwrap();
    assert!(again.is_valid);
    assert_eq!(again.exports, result.exports);
}

#[test]
fn a_capsule_of_6000_bytes_exceeds_the_default_limit() {
    let result = WasmValidator::new().unwrap().validate(&vec![0u8; 6000]).unwrap();
    assert!(!result.is_valid);
    assert_eq!(result.errors.len(), 1);
    assert!(matches!(result.errors[0], ValidationError::SizeExceeded { size: 6000, max_size: 5120 }));
    assert_eq!(result.size_bytes, 6000);
    assert!(result.exports.is_empty() && result.imports.is_empty() && result.warnings.is_empty());
    assert_eq!(DEFAULT_MAX_CAPSULE_SIZE, 5120);
    assert_eq!(WasmValidator::new().unwrap().max_size_bytes(), 5120);
    let defaults = ValidatorConfig::default();
    assert_eq!(defaults.max_size_bytes, 5120);
    assert!(defaults.strict_imports && defaults.require_standard_exports);
    // exactly at the limit is within it
    let at_limit = WasmValidator::new().unwrap().validate(&vec![0u8; 5120]).unwrap();
    assert!(matches!(at_limit.errors[0], ValidationError::CompilationFailed { .. }));
}

#[test]
fn an_import_outside_the_sandbox_is_unauthorized() {
    let bytes = capsule(0, &["random_bytes"]);
    let validator = WasmValidator::new().unwrap();
    // the plain validator asks only where the import comes from
    let plain = validator.validate(&bytes).unwrap();
    assert!(plain.is_valid, "{:?}", plain.errors);
    assert_eq!(plain.imports, vec!["env::random_bytes".to_string()]);
    assert_eq!(plain.exports, vec!["run".to_string(), "memory".to_string()]);
    // against a sandbox that grants only hashing the import is flagged
    let sandbox = SecuritySandbox::new(ResourceLimits {
        capabilities: vec![Capability::Hash],
        ..Default::default()
    });
    let strict = validator.validate_with_sandbox(&bytes, &sandbox).unwrap();
    assert!(!strict.is_valid);
    assert_eq!(strict.errors.len(), 1);
    match &strict.errors[0] {
        ValidationError::UnauthorizedImport { import } => assert_eq!(import, "env::random_bytes"),
        other => panic!("unexpected {:?}", other),
    }
    let granted = SecuritySandbox::new(ResourceLimits {
        capabilities: vec![Capability::Random],
        ..Default::default()
    });
    assert!(validator.validate_with_sandbox(&bytes, &granted).unwrap().is_valid);
    // the plan for such a sandbox does not link the function, so the engine cannot
    // resolve the import, which is reported as a failed execution
    let runtime = WasmRuntime::new([1u8; 32]).unwrap();
    let plan = runtime
        .prepare(&bytes, b"{}", ResourceLimits { capabilities: vec![Capability::Hash], ..Default::default() })
        .unwrap();
    assert!(!plan.host_functions.contains(&"random_bytes".to_string()));
    assert!(plan.host_functions.contains(&"hash_commit".to_string()));
    let error = classify_failure(
        RunFailure::InstantiationFailed { reason: "unknown import: `env::random_bytes`".to_string() },
        plan.deadline_ms,
    );
    assert!(matches!(error, ExecutionError::ExecutionFailed { .. }));
}

#[test]
fn reports_follow_the_parsed_interface() {
    let validator = WasmValidator::new().unwrap();
    let ok = validator.report(200, Ok(interface(&["memory", "run", "extra"], &[("env", "anything")])), None);
    assert!(ok.is_valid);
    assert_eq!(ok.imports, vec!["env::anything".to_string()]);
    assert_eq!(ok.exports.len(), 3);

    let missing = validator.report(200, Ok(interface(&[], &[("wasi", "fd_write"), ("env", "x"), ("", "y")])), None);
    assert!(!missing.is_valid);
    assert!(missing.exports.is_empty() && missing.imports.is_empty());
    let found: Vec<String> = missing.errors.iter().map(|e| format!("{:?}", e)).collect();
    assert_eq!(
        found,
        vec![
            "MissingRequiredExport { export: \"run\" }",
            "MissingRequiredExport { export: \"memory\" }",
            "UnauthorizedImport { import: \"wasi::fd_write\" }",
            "UnauthorizedImport { import: \"::y\" }",
        ]
    );
    let only_memory = validator.report(200, Ok(interface(&["run"], &[])), None);
    assert_eq!(only_memory.errors.len(), 1);
    assert!(matches!(&only_memory.errors[0], ValidationError::MissingRequiredExport { export } if export == "memory"));

    let failed = validator.report(17, Err("bad magic".to_string()), None);
    assert!(!failed.is_valid);
    assert!(matches!(&failed.errors[0], ValidationError::CompilationFailed { reason } if reason == "bad magic"));

    let lax = WasmValidator::with_config(ValidatorConfig {
        max_size_bytes: 1000,
        strict_imports: false,
        require_standard_exports: false,
    })
    .unwrap();
    let passed = lax.report(10, Ok(interface(&[], &[("wasi", "fd_write")])), None);
    assert!(passed.is_valid);
    assert_eq!(passed.imports, vec!["wasi::fd_write".to_string()]);

    let sandbox = SecuritySandbox::production();
    let checked = validator.report(
        10,
        Ok(interface(&["run", "memory"], &[("env", "hash_commit"), ("env", "memory"), ("env", "json_path")])),
        Some(&sandbox),
    );
    assert_eq!(checked.errors.len(), 1);
    assert!(matches!(&checked.errors[0], ValidationError::UnauthorizedImport { import } if import == "env::json_path"));
}

#[test]
fn a_capsule_above_four_fifths_of_the_limit_draws_a_remark() {
    let validator = WasmValidator::with_config(ValidatorConfig {
        max_size_bytes: 1000,
        ..Default::default()
    })
    .unwrap();
    let empty = || Ok(interface(&["run", "memory"], &[]));
    assert!(validator.report(800, empty(), None).warnings.is_empty());
    let near = validator.report(801, empty(), None);
    assert!(near.is_valid);
    assert_eq!(near.warnings, vec!["Capsule size (0.8KB) is approaching limit (1.0KB)".to_string()]);
    for (size, max) in [(801usize, 1000usize), (4097, 5120), (5120, 5120), (999, 1001), (51, 63), (1088, 1100), (1152, 1200)] {
        let validator = WasmValidator::with_config(ValidatorConfig {
            max_size_bytes: max,
            ..Default::default()
        })
        .unwrap();
        let report = validator.report(size, empty(), None);
        let expected = format!(
            "Capsule size ({:.1}KB) is approaching limit ({:.1}KB)",
            size as f64 / 1024.0,
            max as f64 / 1024.0
        );
        assert_eq!(report.warnings, vec![expected]);
    }
    // a failing report carries no remark
    let failing = validator.report(999, Ok(interface(&[], &[])), None);
    assert!(failing.warnings.is_empty());
    // end to end
    let bytes = capsule(900, &[]);
    let result = validator.validate(&bytes).unwrap();
    assert!(result.is_valid, "{:?}", result.errors);
    assert_eq!(result.warnings.len(), 1);
}

#[test]
fn report_builders() {
    let mut ok = ValidationResult::success(5, vec!["run".to_string()], vec![]);
    assert!(ok.is_valid && ok.warnings.is_empty() && ok.errors.is_empty());
    assert_eq!(ok.size_bytes, 5);
    ok.add_warning("careful".to_string());
    ok.add_warning("again".to_string());
    assert_eq!(ok.warnings, vec!["careful".to_string(), "again".to_string()]);
    assert!(ok.is_valid);
    let bad = ValidationResult::failure(9, vec![ValidationError::InvalidModule { reason: "x".to_string() }]);
    assert!(!bad.is_valid);
    assert_eq!(bad.size_bytes, 9);
    assert_eq!(bad.errors.len(), 1);
    assert!(bad.exports.is_empty());
}

#[test]
fn a_passed_deadline_is_a_timeout_with_the_deadline() {
    assert!(matches!(
        classify_failure(RunFailure::DeadlineExceeded, 100),
        ExecutionError::Timeout { timeout_ms: 100 }
    ));
    match classify_failure(RunFailure::FuelExhausted, 100) {
        ExecutionError::ResourceLimitExceeded { limit_type } => assert_eq!(limit_type, "fuel"),
        other => panic!("unexpected {:?}", other),
    }
    match classify_failure(RunFailure::MemoryLimitExceeded, 100) {
        ExecutionError::ResourceLimitExceeded { limit_type } => assert_eq!(limit_type, "memory"),
        other => panic!("unexpected {:?}", other),
    }
    let others = vec![
        RunFailure::CompileFailed { reason: "r".to_string() },
        RunFailure::LinkFailed { reason: "r".to_string() },
        RunFailure::InstantiationFailed { reason: "r".to_string() },
        RunFailure::MissingRun { reason: "r".to_string() },
        RunFailure::MissingMemory,
        RunFailure::WriteFailed { reason: "r".to_string() },
        RunFailure::Trapped { reason: "r".to_string() },
        RunFailure::ReadFailed { reason: "r".to_string() },
    ];
    for failure in others {
        assert!(matches!(classify_failure(failure, 100), ExecutionError::ExecutionFailed { .. }));
    }
}

#[test]
fn the_result_word_carries_length_and_place() {
    assert_eq!(output_location(0, MAX_IO_SIZE).unwrap(), (0, 0));
    assert_eq!(output_location((5 << 16) | 1024, MAX_IO_SIZE).unwrap(), (1024, 5));
    assert_eq!(output_location(0x7fff_ffff, MAX_IO_SIZE).unwrap(), (0xffff, 0x7fff));
    assert_eq!(output_location(0xffff, MAX_IO_SIZE).unwrap(), (0xffff, 0));
    assert!(matches!(output_location(-1, MAX_IO_SIZE), Err(ExecutionError::IOError { .. })));
    assert!(matches!(output_location(i32::MIN, MAX_IO_SIZE), Err(ExecutionError::IOError { .. })));
    assert!(matches!(output_location(6 << 16, 5), Err(ExecutionError::IOError { .. })));
    assert_eq!(output_location(5 << 16, 5).unwrap(), (0, 5));
    assert_eq!(pack_result(1024, 5), (5 << 16) | 1024);
    assert_eq!(pack_result(0xffff, 0x7fff), 0x7fff_ffff);
    for (place, length) in [(0u16, 0u16), (1, 1), (65535, 32767), (300, 20000)] {
        let word = pack_result(place, length);
        assert_eq!(output_location(word, MAX_IO_SIZE).unwrap(), (place as usize, length as usize));
        assert_eq!((word >> 16, word & 0xffff), (length as i32, place as i32));
    }
}

#[test]
fn the_input_must_fit_behind_its_offset() {
    assert_eq!(INPUT_OFFSET, 1024);
    assert!(check_input_fits(0, 1024).is_ok());
    assert!(check_input_fits(64512, 65536).is_ok());
    assert!(matches!(check_input_fits(64513, 65536), Err(ExecutionError::ExecutionFailed { .. })));
    assert!(check_input_fits(0, 1023).is_err());
    assert!(check_input_fits(usize::MAX, usize::MAX).is_err());
    assert!(check_input_fits(1, 1024).is_err());
}

#[test]
fn metrics_are_collected_from_the_run() {
    let metrics = collect_metrics(true, 1_000_000, Some(999_000), 65536, 12, 3);
    assert_eq!(
        metrics,
        ExecMetrics { fuel_used: 1000, memory_bytes: 65536, duration_ms: 12, host_function_calls: 3 }
    );
    assert_eq!(collect_metrics(false, 1_000_000, Some(999_000), 0, 0, 0).fuel_used, 0);
    assert_eq!(collect_metrics(true, 1_000_000, None, 0, 0, 0).fuel_used, 1_000_000);
    assert_eq!(collect_metrics(true, 10, Some(11), 0, 0, 0).fuel_used, 0);
    assert_eq!(collect_metrics(true, 10, Some(10), 0, 0, 0).fuel_used, 0);
}

#[test]
fn admission_draws_up_the_plan() {
    let runtime = WasmRuntime::new([1u8; 32]).unwrap();
    assert_eq!(runtime.next_nonce(), 1);
    assert_eq!(runtime.public_key(), public_key_of(&[1u8; 32]));
    assert_eq!(runtime.configuration().max_io_size, MAX_IO_SIZE);
    let bytes = capsule(200, &[]);
    let plan = runtime.prepare(&bytes, b"{}", ResourceLimits::default()).unwrap();
    assert_eq!(plan.fuel, Some(1_000_000));
    assert_eq!(plan.memory_limit_bytes, 32 * 1024 * 1024);
    assert_eq!(plan.deadline_ms, 1000);
    assert_eq!(plan.input_offset, 1024);
    let mut functions = plan.host_functions.clone();
    functions.sort();
    assert_eq!(functions, vec!["hash_commit", "hash_verify", "json_extract", "json_path"]);
    assert!(plan.sandbox.access_log().is_empty());
    assert!(plan.sandbox.has_capability(Capability::Json));
    let limits = test_limits();
    assert_eq!(limits.capabilities, vec![Capability::Hash, Capability::Json, Capability::Base64, Capability::Time]);
    assert_eq!((limits.memory_limit_mb, limits.execution_time_ms, limits.fuel_limit), (64, 5000, 10_000_000));

    let unmetered = WasmRuntime::with_config(
        [1u8; 32],
        RuntimeConfig { enable_fuel: false, max_io_size: 4, ..RuntimeConfig::default() },
    )
    .unwrap();
    let plan = unmetered
        .prepare(&bytes, b"{}", ResourceLimits { memory_limit_mb: u32::MAX, ..ResourceLimits::production() })
        .unwrap();
    assert_eq!(plan.fuel, None);
    assert_eq!(plan.memory_limit_bytes, u32::MAX as u64 * 1048576);
    assert!(matches!(
        unmetered.prepare(&bytes, b"12345", ResourceLimits::default()),
        Err(ExecutionError::IOError { .. })
    ));
    // validation failures come with the first finding
    match runtime.prepare(&vec![0u8; 6000], b"{}", ResourceLimits::default()) {
        Err(ExecutionError::ValidationFailed {
            source: ValidationError::SizeExceeded { size: 6000, max_size: 5120 },
        }) => {},
        other => panic!("unexpected {:?}", other.map(|_| ())),
    }
    match runtime.prepare(b"junk", b"{}", ResourceLimits::default()) {
        Err(ExecutionError::ValidationFailed { source: ValidationError::CompilationFailed { .. } }) => {},
        other => panic!("unexpected {:?}", other.map(|_| ())),
    }
    let report = ValidationResult::failure(
        3,
        vec![
            ValidationError::MissingRequiredExport { export: "run".to_string() },
            ValidationError::MissingRequiredExport { export: "memory".to_string() },
        ],
    );
    match runtime.plan_execution(2, report, ResourceLimits::default()) {
        Err(ExecutionError::ValidationFailed {
            source: ValidationError::MissingRequiredExport { export },
        }) => assert_eq!(export, "run"),
        other => panic!("unexpected {:?}", other.map(|_| ())),
    }
}

#[test]
fn finishing_issues_the_receipt_and_advances_the_nonce() {
    let key = [4u8; 32];
    let mut runtime = WasmRuntime::new(key).unwrap();
    let metrics = collect_metrics(true, 500, Some(100), 65536, 7, 0);
    let first = runtime.finish(b"capsule", b"in", b"out".to_vec(), metrics).unwrap();
    assert_eq!(first.output, b"out".to_vec());
    assert_eq!(first.metrics, metrics);
    assert_eq!(first.receipt.nonce, 1);
    assert_eq!(first.receipt.exec_metrics, metrics);
    assert_eq!(first.receipt.capsule_id, blake3::hash(b"capsule").to_hex().to_string());
    assert_eq!(first.receipt.output_commit, blake3::hash(b"out").to_hex().to_string());
    assert!(first.receipt.verify(&runtime.public_key()).unwrap());
    assert!(first.receipt.verify_node_signature().unwrap());
    assert_eq!(runtime.next_nonce(), 2);
    let second = runtime.finish(b"capsule", b"in", b"out".to_vec(), metrics).unwrap();
    assert_eq!(second.receipt.nonce, 2);
    assert_ne!(first.receipt.receipt_id(), second.receipt.receipt_id());
    assert_eq!(runtime.next_nonce(), 3);
}

#[test]
fn host_functions_compute_what_they_name() {
    assert_eq!(hash_commit(b"abc"), blake3::hash(b"abc").as_bytes().to_vec());
    assert_eq!(hash_commit(b""), blake3::hash(b"").as_bytes().to_vec());
    assert_eq!(hash_commit(b"abc").len(), HASH_LEN);
    assert_eq!(HASH_LEN, 32);
    assert_eq!(HOST_OK, 0);
    assert_eq!(time_ms_at(1714564800, 999_000_000), 1714564800999);
    assert_eq!(time_ms_at(-5, 0), 0);
    assert_eq!(time_ms_at(i64::MAX, 0), i64::MAX);
    assert!(time_now_ms() > 1_577_836_800_000);
    // what hash_commit hands back is announced by a result word
    let word = pack_result(0, HASH_LEN as u16);
    assert_eq!(output_location(word, MAX_IO_SIZE).unwrap(), (0, 32));
}

#[test]
fn base64_uses_the_standard_alphabet_with_padding() {
    let vectors: [(&[u8], &[u8]); 8] = [
        (b"", b""),
        (b"f", b"Zg=="),
        (b"fo", b"Zm8="),
        (b"foo", b"Zm9v"),
        (b"foob", b"Zm9vYg=="),
        (b"fooba", b"Zm9vYmE="),
        (b"foobar", b"Zm9vYmFy"),
        (&[0xfb, 0xff, 0xfe], b"+//+"),
    ];
    for (bytes, text) in vectors {
        assert_eq!(base64_encode(bytes), text.to_vec());
        assert_eq!(base64_decode(text), Some(bytes.to_vec()));
    }
    let all: Vec<u8> = (0..=255).collect();
    for len in [0usize, 1, 2, 3, 4, 100, 255, 256] {
        let bytes = &all[..len];
        let text = base64_encode(bytes);
        assert_eq!(text.len(), (len + 2) / 3 * 4);
        assert!(!text.contains(&b'\n'));
        assert_eq!(base64_decode(&text), Some(bytes.to_vec()));
    }
    // what is not the text of anything
    for bad in [
        &b"Z"[..],
        b"Zg",
        b"Zg=",
        b"Zg==Zg==",
        b"Z===",
        b"====",
        b"Zh==",
        b"Zm9=",
        b"Zm9v\n",
        b"Zm9-",
        b"Zm 9v",
        b"=Zm9",
        b"Zg==\0\0\0\0",
    ] {
        assert_eq!(base64_decode(bad), None, "{:?}", String::from_utf8_lossy(bad));
    }
}

#[test]
fn the_random_stream_is_settled_by_capsule_input_and_nonce() {
    let capsule = commitment_of(b"capsule");
    let input = commitment_of(b"input");
    assert_eq!(capsule, blake3::hash(b"capsule").to_hex().to_string());
    let mut one = HostRandom::new(&capsule, &input, 7);
    let mut two = HostRandom::new(&capsule, &input, 7);
    let first = one.random_bytes(100).unwrap();
    assert_eq!(first.len(), 100);
    // drawn in pieces, the stream is the same
    let mut pieces = two.random_bytes(1).unwrap();
    pieces.extend(two.random_bytes(0).unwrap());
    pieces.extend(two.random_bytes(31).unwrap());
    pieces.extend(two.random_bytes(33).unwrap());
    pieces.extend(two.random_bytes(35).unwrap());
    assert_eq!(pieces, first);
    assert_eq!(one.random_bytes(40).unwrap(), two.random_bytes(40).unwrap());
    // the blocks are digests of the seed and the block's number
    let seed = format!("{capsule}:{input}:7");
    let mut expected = Vec::new();
    for k in 0..4 {
        expected.extend_from_slice(blake3::hash(format!("{seed}:{k}").as_bytes()).as_bytes());
    }
    assert_eq!(first, expected[..100].to_vec());
    // another nonce, input or capsule gives another stream
    assert_ne!(HostRandom::new(&capsule, &input, 8).random_bytes(32).unwrap(), first[..32].to_vec());
    assert_ne!(HostRandom::new(&capsule, &capsule, 7).random_bytes(32).unwrap(), first[..32].to_vec());
    assert_ne!(HostRandom::new(&input, &input, 7).random_bytes(32).unwrap(), first[..32].to_vec());
}
