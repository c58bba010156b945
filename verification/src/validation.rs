//! Static checks on capsule bytes before execution: size, required
//! exports, and where imports come from.

use vstd::prelude::*;
use vstd::string::*;
use crate::sandbox::{import_allowed, SecuritySandbox};
use crate::text::{
    decimal, digit_char, digit_of, push_decimal, rounded_div, rounded_quotient, starts_with, str_eq,
    texts,
};

verus! {

/// The default limit on capsule size: five kilobytes.
pub const DEFAULT_MAX_CAPSULE_SIZE: usize = 5120;

/// What a validation may find wrong.
#[derive(Debug)]
pub enum ValidationError {
    SizeExceeded { size: usize, max_size: usize },
    MissingRequiredExport { export: String },
    UnauthorizedImport { import: String },
    InvalidModule { reason: String },
    CompilationFailed { reason: String },
}

/// A finding as plain mathematical data.
pub enum Finding {
    SizeExceeded { size: usize, max_size: usize },
    MissingRequiredExport { export: Seq<char> },
    UnauthorizedImport { import: Seq<char> },
    InvalidModule { reason: Seq<char> },
    CompilationFailed { reason: Seq<char> },
}

impl View for ValidationError {
    type V = Finding;

    open spec fn view(&self) -> Finding {
        match self {
            ValidationError::SizeExceeded { size, max_size } => Finding::SizeExceeded {
                size: *size,
                max_size: *max_size,
            },
            ValidationError::MissingRequiredExport { export } => Finding::MissingRequiredExport {
                export: export@,
            },
            ValidationError::UnauthorizedImport { import } => Finding::UnauthorizedImport {
                import: import@,
            },
            ValidationError::InvalidModule { reason } => Finding::InvalidModule { reason: reason@ },
            ValidationError::CompilationFailed { reason } => Finding::CompilationFailed {
                reason: reason@,
            },
        }
    }
}

/// The findings that a list of errors holds, in order.
pub open spec fn findings_of(errors: Seq<ValidationError>) -> Seq<Finding> {
    Seq::new(errors.len(), |i: int| errors[i]@)
}

/// The report of one validation.
#[derive(Debug)]
pub struct ValidationResult {
    /// Whether the capsule passed.
    pub is_valid: bool,
    /// Size of the capsule in bytes.
    pub size_bytes: usize,
    /// The names that the module exports.
    pub exports: Vec<String>,
    /// The module's imports, each written `module::name`.
    pub imports: Vec<String>,
    /// Remarks that do not fail the capsule.
    pub warnings: Vec<String>,
    /// What was found wrong.
    pub errors: Vec<ValidationError>,
}

/// A report as plain mathematical data.
pub struct ReportView {
    pub is_valid: bool,
    pub size_bytes: usize,
    pub exports: Seq<Seq<char>>,
    pub imports: Seq<Seq<char>>,
    pub warnings: Seq<Seq<char>>,
    pub errors: Seq<Finding>,
}

impl View for ValidationResult {
    type V = ReportView;

    open spec fn view(&self) -> ReportView {
        ReportView {
            is_valid: self.is_valid,
            size_bytes: self.size_bytes,
            exports: texts(self.exports@),
            imports: texts(self.imports@),
            warnings: texts(self.warnings@),
            errors: findings_of(self.errors@),
        }
    }
}

impl ValidationResult {
    /// A passing report.
    pub fn success(size_bytes: usize, exports: Vec<String>, imports: Vec<String>) -> (r: Self)
        ensures
            r@ == (ReportView {
                is_valid: true,
                size_bytes,
                exports: texts(exports@),
                imports: texts(imports@),
                warnings: Seq::<Seq<char>>::empty(),
                errors: Seq::<Finding>::empty(),
            }),
    {
        let r = ValidationResult {
            is_valid: true,
            size_bytes,
            exports,
            imports,
            warnings: Vec::new(),
            errors: Vec::new(),
        };
        proof {
            assert(r@.warnings =~= Seq::<Seq<char>>::empty());
            assert(r@.errors =~= Seq::<Finding>::empty());
        }
        r
    }

    /// A failing report.
    pub fn failure(size_bytes: usize, errors: Vec<ValidationError>) -> (r: Self)
        ensures
            r@ == (ReportView {
                is_valid: false,
                size_bytes,
                exports: Seq::<Seq<char>>::empty(),
                imports: Seq::<Seq<char>>::empty(),
                warnings: Seq::<Seq<char>>::empty(),
                errors: findings_of(errors@),
            }),
    {
        let r = ValidationResult {
            is_valid: false,
            size_bytes,
            exports: Vec::new(),
            imports: Vec::new(),
            warnings: Vec::new(),
            errors,
        };
        proof {
            assert(r@.exports =~= Seq::<Seq<char>>::empty());
            assert(r@.imports =~= Seq::<Seq<char>>::empty());
            assert(r@.warnings =~= Seq::<Seq<char>>::empty());
        }
        r
    }

    /// Adds a remark.
    pub fn add_warning(&mut self, warning: String)
        ensures
            final(self)@ == (ReportView {
                warnings: old(self)@.warnings.push(warning@),
                ..old(self)@
            }),
    {
        self.warnings.push(warning);
        proof {
            assert(final(self)@.warnings =~= old(self)@.warnings.push(warning@));
        }
    }
}

/// What the validator is told to check.
#[derive(Debug)]
pub struct ValidatorConfig {
    /// Limit on capsule size in bytes.
    pub max_size_bytes: usize,
    /// Whether every import must be authorized.
    pub strict_imports: bool,
    /// Whether the exports `run` and `memory` are required.
    pub require_standard_exports: bool,
}

impl Default for ValidatorConfig {
    fn default() -> (r: Self)
        ensures
            r.max_size_bytes == DEFAULT_MAX_CAPSULE_SIZE,
            r.strict_imports,
            r.require_standard_exports,
    {
        ValidatorConfig {
            max_size_bytes: DEFAULT_MAX_CAPSULE_SIZE,
            strict_imports: true,
            require_standard_exports: true,
        }
    }
}

/// What parsing a module gives: the names it exports, and its imports as
/// pairs of module and name.
#[derive(Debug)]
pub struct ModuleInterface {
    pub exports: Vec<String>,
    pub imports: Vec<(String, String)>,
}

/// An import written `module::name`.
pub open spec fn import_text(module: Seq<char>, name: Seq<char>) -> Seq<char> {
    module + "::"@ + name
}

/// The imports of a parsed module, each written `module::name`.
pub open spec fn import_texts(imports: Seq<(String, String)>) -> Seq<Seq<char>> {
    Seq::new(imports.len(), |i: int| import_text(imports[i].0@, imports[i].1@))
}

/// `Module::from_binary` on a default `Engine`, then `Module::exports` and
/// `Module::imports`: the parsed module's export names and import pairs,
/// or the text of the parser's error. Nothing is promised of the outcome.
#[verifier::external_body]
pub(crate) fn inspect_module(wasm_bytes: &[u8]) -> (r: Result<ModuleInterface, String>)
{
    let engine = wasmtime::Engine::default();
    match wasmtime::Module::from_binary(&engine, wasm_bytes) {
        Ok(module) => Ok(
            ModuleInterface {
                exports: module.exports().map(|e| e.name().to_string()).collect(),
                imports: module.imports().map(
                    |i| (i.module().to_string(), i.name().to_string()),
                ).collect(),
            },
        ),
        Err(error) => Err(error.to_string()),
    }
}

/// A size in kilobytes (1024 bytes) with exactly one decimal.
pub open spec fn kilobytes_text(bytes: usize) -> Seq<char> {
    let tenths = rounded_quotient(bytes as nat * 10, 1024);
    decimal(tenths / 10).push('.').push(digit_char((tenths % 10) as int))
}

/// The remark made on a capsule that uses more than four fifths of the
/// size limit.
pub open spec fn size_warning(size: usize, max_size: usize) -> Seq<char> {
    "Capsule size ("@ + kilobytes_text(size) + "KB) is approaching limit ("@ + kilobytes_text(
        max_size,
    ) + "KB)"@
}

/// Whether a size calls for the remark: it exceeds 80% of the limit,
/// the percentage rounded down.
pub open spec fn near_limit(size: usize, max_size: usize) -> bool {
    size as nat > max_size as nat * 80 / 100
}

/// Whether an import is authorized: against a sandbox, the sandbox must
/// allow it; without one, it must come from `env`.
pub open spec fn import_authorized(sandbox: Option<SecuritySandbox>, import: Seq<char>) -> bool {
    match sandbox {
        Some(s) => import_allowed(s.granted(), import),
        None => "env::"@.is_prefix_of(import),
    }
}

/// The required exports that are missing, `run` before `memory`.
pub open spec fn missing_exports(exports: Seq<Seq<char>>) -> Seq<Finding> {
    (if exports.contains("run"@) {
        Seq::<Finding>::empty()
    } else {
        seq![Finding::MissingRequiredExport { export: "run"@ }]
    }) + (if exports.contains("memory"@) {
        Seq::<Finding>::empty()
    } else {
        seq![Finding::MissingRequiredExport { export: "memory"@ }]
    })
}

/// One finding for each import that is not authorized, in order.
pub open spec fn unauthorized_imports(sandbox: Option<SecuritySandbox>, imports: Seq<Seq<char>>) -> Seq<
    Finding,
>
    decreases imports.len(),
{
    if imports.len() == 0 {
        Seq::<Finding>::empty()
    } else if import_authorized(sandbox, imports.last()) {
        unauthorized_imports(sandbox, imports.drop_last())
    } else {
        unauthorized_imports(sandbox, imports.drop_last()).push(
            Finding::UnauthorizedImport { import: imports.last() },
        )
    }
}

/// The WASM capsule validator.
#[derive(Debug)]
pub struct WasmValidator {
    max_size_bytes: usize,
    strict_imports: bool,
    require_standard_exports: bool,
}

impl WasmValidator {
    /// The size limit in bytes.
    pub closed spec fn limit(&self) -> usize {
        self.max_size_bytes
    }

    /// Whether every import must be authorized.
    pub closed spec fn strict(&self) -> bool {
        self.strict_imports
    }

    /// Whether `run` and `memory` are required.
    pub closed spec fn standard_exports(&self) -> bool {
        self.require_standard_exports
    }

    /// What is found wrong with a module that parsed.
    pub open spec fn findings(
        &self,
        sandbox: Option<SecuritySandbox>,
        exports: Seq<Seq<char>>,
        imports: Seq<Seq<char>>,
    ) -> Seq<Finding> {
        (if self.standard_exports() {
            missing_exports(exports)
        } else {
            Seq::<Finding>::empty()
        }) + (if self.strict() {
            unauthorized_imports(sandbox, imports)
        } else {
            Seq::<Finding>::empty()
        })
    }

    /// The report owed on a capsule of `size_bytes` bytes within the size
    /// limit, given what parsing it gave.
    pub open spec fn report_for(
        &self,
        sandbox: Option<SecuritySandbox>,
        size_bytes: usize,
        parsed: Result<ModuleInterface, String>,
    ) -> ReportView {
        match parsed {
            Err(reason) => ReportView {
                is_valid: false,
                size_bytes,
                exports: Seq::<Seq<char>>::empty(),
                imports: Seq::<Seq<char>>::empty(),
                warnings: Seq::<Seq<char>>::empty(),
                errors: seq![Finding::CompilationFailed { reason: reason@ }],
            },
            Ok(interface) => {
                let exports = texts(interface.exports@);
                let imports = import_texts(interface.imports@);
                let found = self.findings(sandbox, exports, imports);
                if found.len() == 0 {
                    ReportView {
                        is_valid: true,
                        size_bytes,
                        exports,
                        imports,
                        warnings: if near_limit(size_bytes, self.limit()) {
                            seq![size_warning(size_bytes, self.limit())]
                        } else {
                            Seq::<Seq<char>>::empty()
                        },
                        errors: Seq::<Finding>::empty(),
                    }
                } else {
                    ReportView {
                        is_valid: false,
                        size_bytes,
                        exports: Seq::<Seq<char>>::empty(),
                        imports: Seq::<Seq<char>>::empty(),
                        warnings: Seq::<Seq<char>>::empty(),
                        errors: found,
                    }
                }
            },
        }
    }

    /// The report owed on a capsule over the size limit.
    pub open spec fn oversize_report(&self, size_bytes: usize) -> ReportView {
        ReportView {
            is_valid: false,
            size_bytes,
            exports: Seq::<Seq<char>>::empty(),
            imports: Seq::<Seq<char>>::empty(),
            warnings: Seq::<Seq<char>>::empty(),
            errors: seq![Finding::SizeExceeded { size: size_bytes, max_size: self.limit() }],
        }
    }

    /// A validator with the default settings: five kilobytes, strict
    /// imports, standard exports required.
    pub fn new() -> (r: Result<Self, ValidationError>)
        ensures
            r matches Ok(v) && v.limit() == DEFAULT_MAX_CAPSULE_SIZE && v.strict()
                && v.standard_exports(),
    {
        Ok(
            WasmValidator {
                max_size_bytes: DEFAULT_MAX_CAPSULE_SIZE,
                strict_imports: true,
                require_standard_exports: true,
            },
        )
    }

    /// A validator with the given settings.
    pub fn with_config(config: ValidatorConfig) -> (r: Result<Self, ValidationError>)
        ensures
            r matches Ok(v) && v.limit() == config.max_size_bytes && v.strict()
                == config.strict_imports && v.standard_exports() == config.require_standard_exports,
    {
        Ok(
            WasmValidator {
                max_size_bytes: config.max_size_bytes,
                strict_imports: config.strict_imports,
                require_standard_exports: config.require_standard_exports,
            },
        )
    }

    /// The size limit in bytes.
    pub fn max_size_bytes(&self) -> (r: usize)
        ensures
            r == self.limit(),
    {
        self.max_size_bytes
    }

    /// Validates a capsule, taking an import as authorized when it comes
    /// from `env`.
    ///
    /// A capsule over the size limit gets the oversize report without being
    /// parsed. Any other capsule is parsed, and the report is the one that
    /// `report` owes on what the parser gave.
    pub fn validate(&self, wasm_bytes: &[u8]) -> (r: Result<ValidationResult, ValidationError>)
        ensures
            r matches Ok(report) && if wasm_bytes@.len() > self.limit() {
                report@ == self.oversize_report(wasm_bytes@.len() as usize)
            } else {
                exists|parsed: Result<ModuleInterface, String>|
                    report@ == #[trigger] self.report_for(None, wasm_bytes@.len() as usize, parsed)
            },
    {
        self.validate_against(wasm_bytes, None)
    }

    /// Validates a capsule for a sandbox, taking an import as authorized
    /// when the sandbox allows it.
    pub fn validate_with_sandbox(&self, wasm_bytes: &[u8], sandbox: &SecuritySandbox) -> (r: Result<
        ValidationResult,
        ValidationError,
    >)
        requires
            sandbox.wf(),
        ensures
            r matches Ok(report) && if wasm_bytes@.len() > self.limit() {
                report@ == self.oversize_report(wasm_bytes@.len() as usize)
            } else {
                exists|parsed: Result<ModuleInterface, String>|
                    report@ == #[trigger] self.report_for(
                        Some(*sandbox),
                        wasm_bytes@.len() as usize,
                        parsed,
                    )
            },
    {
        self.validate_against(wasm_bytes, Some(sandbox))
    }

    fn validate_against(&self, wasm_bytes: &[u8], sandbox: Option<&SecuritySandbox>) -> (r: Result<
        ValidationResult,
        ValidationError,
    >)
        requires
            sandbox matches Some(s) ==> s.wf(),
        ensures
            r matches Ok(report) && if wasm_bytes@.len() > self.limit() {
                report@ == self.oversize_report(wasm_bytes@.len() as usize)
            } else {
                exists|parsed: Result<ModuleInterface, String>|
                    report@ == #[trigger] self.report_for(
                        deref_sandbox(sandbox),
                        wasm_bytes@.len() as usize,
                        parsed,
                    )
            },
    {
        let size_bytes = wasm_bytes.len();
        if size_bytes > self.max_size_bytes {
            let mut errors: Vec<ValidationError> = Vec::new();
            errors.push(ValidationError::SizeExceeded { size: size_bytes, max_size: self.max_size_bytes });
            let report = ValidationResult::failure(size_bytes, errors);
            proof {
                assert(report@.errors =~= self.oversize_report(size_bytes).errors);
            }
            return Ok(report);
        }
        let parsed = inspect_module(wasm_bytes);
        let ghost given = parsed;
        let report = self.report(size_bytes, parsed, sandbox);
        proof {
            assert(size_bytes == wasm_bytes@.len() as usize);
            assert(report@ == self.report_for(
                deref_sandbox(sandbox),
                wasm_bytes@.len() as usize,
                given,
            ));
        }
        Ok(report)
    }

    /// The report on a capsule of `size_bytes` bytes within the size limit,
    /// given what parsing it gave.
    ///
    /// A module that did not parse fails with `CompilationFailed`. A module
    /// that parsed fails with one `MissingRequiredExport` for each of `run`
    /// and `memory` that it lacks, if standard exports are required, and
    /// then one `UnauthorizedImport` for each import that is not
    /// authorized, if imports are strict. A module without findings passes,
    /// with a remark if its size exceeds 80% of the limit.
    pub fn report(
        &self,
        size_bytes: usize,
        parsed: Result<ModuleInterface, String>,
        sandbox: Option<&SecuritySandbox>,
    ) -> (r: ValidationResult)
        requires
            sandbox matches Some(s) ==> s.wf(),
        ensures
            r@ == self.report_for(deref_sandbox(sandbox), size_bytes, parsed),
    {
        let interface = match parsed {
            Ok(interface) => interface,
            Err(reason) => {
                let mut errors: Vec<ValidationError> = Vec::new();
                errors.push(ValidationError::CompilationFailed { reason });
                let report = ValidationResult::failure(size_bytes, errors);
                proof {
                    assert(report@.errors =~= seq![Finding::CompilationFailed { reason: reason@ }]);
                }
                return report;
            },
        };
        let exports = interface.exports;
        let imports = Self::extract_imports(interface.imports);
        let mut errors: Vec<ValidationError> = Vec::new();
        if self.require_standard_exports {
            Self::check_exports(&exports, &mut errors);
        }
        if self.strict_imports {
            self.check_imports(&imports, sandbox, &mut errors);
        }
        proof {
            assert(findings_of(errors@) =~= self.findings(
                deref_sandbox(sandbox),
                texts(exports@),
                texts(imports@),
            ));
        }
        if errors.len() == 0 {
            let mut report = ValidationResult::success(size_bytes, exports, imports);
            if near_size_limit(size_bytes, self.max_size_bytes) {
                report.add_warning(size_warning_text(size_bytes, self.max_size_bytes));
                proof {
                    assert(report@.warnings =~= seq![size_warning(size_bytes, self.limit())]);
                }
            }
            report
        } else {
            ValidationResult::failure(size_bytes, errors)
        }
    }

    /// Writes each import as `module::name`.
    fn extract_imports(pairs: Vec<(String, String)>) -> (r: Vec<String>)
        ensures
            texts(r@) == import_texts(pairs@),
    {
        let mut out: Vec<String> = Vec::new();
        let mut i: usize = 0;
        while i < pairs.len()
            invariant
                i <= pairs@.len(),
                out@.len() == i,
                forall|j: int|
                    0 <= j < i ==> out@[j]@ == import_text(pairs@[j].0@, pairs@[j].1@),
            decreases pairs@.len() - i,
        {
            let mut name = pairs[i].0.clone();
            name.append("::");
            name.append(pairs[i].1.as_str());
            out.push(name);
            i += 1;
        }
        proof {
            assert(texts(out@) =~= import_texts(pairs@));
        }
        out
    }

    /// Adds a finding for each of `run` and `memory` that is not exported.
    fn check_exports(exports: &Vec<String>, errors: &mut Vec<ValidationError>)
        ensures
            findings_of(final(errors)@) == findings_of(old(errors)@) + missing_exports(texts(exports@)),
    {
        if !contains_text(exports, "run") {
            errors.push(ValidationError::MissingRequiredExport { export: "run".to_owned() });
        }
        if !contains_text(exports, "memory") {
            errors.push(ValidationError::MissingRequiredExport { export: "memory".to_owned() });
        }
        proof {
            assert(findings_of(final(errors)@) =~= findings_of(old(errors)@) + missing_exports(
                texts(exports@),
            ));
        }
    }

    /// Adds a finding for each import that is not authorized.
    fn check_imports(
        &self,
        imports: &Vec<String>,
        sandbox: Option<&SecuritySandbox>,
        errors: &mut Vec<ValidationError>,
    )
        requires
            sandbox matches Some(s) ==> s.wf(),
        ensures
            findings_of(final(errors)@) == findings_of(old(errors)@) + unauthorized_imports(
                deref_sandbox(sandbox),
                texts(imports@),
            ),
    {
        let mut i: usize = 0;
        proof {
            assert(texts(imports@).take(0) =~= Seq::<Seq<char>>::empty());
            assert(findings_of(errors@) =~= findings_of(old(errors)@) + unauthorized_imports(
                deref_sandbox(sandbox),
                texts(imports@).take(0),
            ));
        }
        while i < imports.len()
            invariant
                i <= imports@.len(),
                sandbox matches Some(s) ==> s.wf(),
                findings_of(errors@) == findings_of(old(errors)@) + unauthorized_imports(
                    deref_sandbox(sandbox),
                    texts(imports@).take(i as int),
                ),
            decreases imports@.len() - i,
        {
            let ghost before = findings_of(errors@);
            proof {
                let next = texts(imports@).take(i as int + 1);
                assert(next.drop_last() =~= texts(imports@).take(i as int));
                assert(next.last() == imports@[i as int]@);
            }
            if !self.is_import_allowed(imports[i].as_str(), sandbox) {
                errors.push(ValidationError::UnauthorizedImport { import: imports[i].clone() });
                proof {
                    assert(findings_of(errors@) =~= before.push(
                        Finding::UnauthorizedImport { import: imports@[i as int]@ },
                    ));
                }
            }
            proof {
                assert(findings_of(errors@) =~= findings_of(old(errors)@) + unauthorized_imports(
                    deref_sandbox(sandbox),
                    texts(imports@).take(i as int + 1),
                ));
            }
            i += 1;
        }
        proof {
            assert(texts(imports@).take(i as int) =~= texts(imports@));
        }
    }

    /// Whether an import is authorized.
    fn is_import_allowed(&self, import: &str, sandbox: Option<&SecuritySandbox>) -> (r: bool)
        requires
            sandbox matches Some(s) ==> s.wf(),
        ensures
            r == import_authorized(deref_sandbox(sandbox), import@),
    {
        match sandbox {
            Some(s) => s.allows_import(import),
            None => starts_with(import, "env::"),
        }
    }
}

/// The sandbox that an optional reference points to.
pub open spec fn deref_sandbox(sandbox: Option<&SecuritySandbox>) -> Option<SecuritySandbox> {
    match sandbox {
        Some(s) => Some(*s),
        None => None,
    }
}

/// Whether a list of strings holds `wanted`.
fn contains_text(items: &Vec<String>, wanted: &str) -> (r: bool)
    ensures
        r == texts(items@).contains(wanted@),
{
    let mut i: usize = 0;
    while i < items.len()
        invariant
            i <= items@.len(),
            forall|j: int| 0 <= j < i ==> texts(items@)[j] != wanted@,
        decreases items@.len() - i,
    {
        if str_eq(items[i].as_str(), wanted) {
            proof {
                assert(texts(items@)[i as int] == wanted@);
            }
            return true;
        }
        i += 1;
    }
    false
}

/// Whether a size exceeds 80% of the limit.
fn near_size_limit(size: usize, max_size: usize) -> (r: bool)
    ensures
        r == near_limit(size, max_size),
{
    size as u128 > max_size as u128 * 80 / 100
}

/// Appends a size in kilobytes with one decimal.
fn push_kilobytes(out: &mut String, bytes: usize)
    ensures
        final(out)@ == old(out)@ + kilobytes_text(bytes),
{
    let tenths: u128 = rounded_div(bytes as u128 * 10, 1024);
    push_decimal(out, tenths / 10);
    out.push('.');
    out.push(digit_of((tenths % 10) as u8));
    proof {
        assert(final(out)@ =~= old(out)@ + kilobytes_text(bytes));
    }
}

/// The remark made on a capsule near the size limit.
fn size_warning_text(size: usize, max_size: usize) -> (r: String)
    ensures
        r@ == size_warning(size, max_size),
{
    let mut out = "Capsule size (".to_owned();
    push_kilobytes(&mut out, size);
    out.append("KB) is approaching limit (");
    push_kilobytes(&mut out, max_size);
    out.append("KB)");
    proof {
        assert(out@ =~= size_warning(size, max_size));
    }
    out
}

/// Validates a capsule with the default settings.
pub fn validate_capsule(wasm_bytes: &[u8]) -> (r: Result<ValidationResult, ValidationError>)
    ensures
        r matches Ok(report) && if wasm_bytes@.len() > DEFAULT_MAX_CAPSULE_SIZE {
            report@.errors == seq![
                Finding::SizeExceeded {
                    size: wasm_bytes@.len() as usize,
                    max_size: DEFAULT_MAX_CAPSULE_SIZE,
                },
            ] && !report@.is_valid
        } else {
            exists|validator: WasmValidator, parsed: Result<ModuleInterface, String>|
                validator.limit() == DEFAULT_MAX_CAPSULE_SIZE && validator.strict()
                    && validator.standard_exports() && report@ == #[trigger] validator.report_for(
                    None,
                    wasm_bytes@.len() as usize,
                    parsed,
                )
        },
{
    match WasmValidator::new() {
        Ok(validator) => validator.validate(wasm_bytes),
        Err(error) => Err(error),
    }
}

} // verus!
