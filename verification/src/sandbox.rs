//! The capability sandbox: which host functions a capsule may link, under
//! which resource limits, and the audit log of every resolution attempt.

use vstd::prelude::*;
use vstd::string::*;
use std::collections::HashMap;
use crate::clock::current_millis;
use crate::text::{skip_chars, starts_with, str_eq};
use crate::textmap::TextMap;

verus! {

/// A permission to link one group of host functions.
#[derive(Debug, Clone, Copy, PartialEq, Eq, Hash, Structural)]
pub enum Capability {
    /// BLAKE3 hashing.
    Hash,
    /// JSON path operations.
    Json,
    /// Base64 encoding and decoding.
    Base64,
    /// Time.
    Time,
    /// Deterministic random numbers.
    Random,
}

/// The prefix that the names of a capability's host functions share.
pub open spec fn prefix_of(capability: Capability) -> Seq<char> {
    match capability {
        Capability::Hash => "hash_"@,
        Capability::Json => "json_"@,
        Capability::Base64 => "base64_"@,
        Capability::Time => "time_"@,
        Capability::Random => "random_"@,
    }
}

/// A capability in words.
pub open spec fn description_of(capability: Capability) -> Seq<char> {
    match capability {
        Capability::Hash => "Blake3 cryptographic hashing"@,
        Capability::Json => "JSON path extraction and manipulation"@,
        Capability::Base64 => "Base64 encoding and decoding"@,
        Capability::Time => "Deterministic timestamp access"@,
        Capability::Random => "Deterministic random number generation"@,
    }
}

/// All capabilities, in declaration order.
pub open spec fn all_capabilities() -> Seq<Capability> {
    seq![
        Capability::Hash,
        Capability::Json,
        Capability::Base64,
        Capability::Time,
        Capability::Random,
    ]
}

/// The first of the two host functions that a capability exposes.
pub open spec fn first_function(capability: Capability) -> Seq<char> {
    match capability {
        Capability::Hash => "hash_commit"@,
        Capability::Json => "json_path"@,
        Capability::Base64 => "base64_encode"@,
        Capability::Time => "time_now_ms"@,
        Capability::Random => "random_bytes"@,
    }
}

/// The second of the two host functions that a capability exposes.
pub open spec fn second_function(capability: Capability) -> Seq<char> {
    match capability {
        Capability::Hash => "hash_verify"@,
        Capability::Json => "json_extract"@,
        Capability::Base64 => "base64_decode"@,
        Capability::Time => "time_iso8601"@,
        Capability::Random => "random_u32"@,
    }
}

/// Whether `capability` exposes the host function `name`.
pub open spec fn exposes(capability: Capability, name: Seq<char>) -> bool {
    name == first_function(capability) || name == second_function(capability)
}

/// The capability that exposes the host function `name`, if any does.
pub open spec fn host_function_owner(name: Seq<char>) -> Option<Capability> {
    if exposes(Capability::Hash, name) {
        Some(Capability::Hash)
    } else if exposes(Capability::Json, name) {
        Some(Capability::Json)
    } else if exposes(Capability::Base64, name) {
        Some(Capability::Base64)
    } else if exposes(Capability::Time, name) {
        Some(Capability::Time)
    } else if exposes(Capability::Random, name) {
        Some(Capability::Random)
    } else {
        None
    }
}

/// The host functions that a set of granted capabilities allows, each with
/// the capability that exposes it.
pub open spec fn allowlist_of(granted: Seq<Capability>) -> Map<Seq<char>, Capability> {
    Map::new(
        |name: Seq<char>|
            host_function_owner(name) matches Some(capability) && granted.contains(capability),
        |name: Seq<char>| host_function_owner(name)->0,
    )
}

/// The capability to which a refused function is attributed in the audit
/// log: the first whose prefix the name bears, `Hash` where none fits.
pub open spec fn guessed_capability(name: Seq<char>) -> Capability {
    if prefix_of(Capability::Hash).is_prefix_of(name) {
        Capability::Hash
    } else if prefix_of(Capability::Json).is_prefix_of(name) {
        Capability::Json
    } else if prefix_of(Capability::Base64).is_prefix_of(name) {
        Capability::Base64
    } else if prefix_of(Capability::Time).is_prefix_of(name) {
        Capability::Time
    } else if prefix_of(Capability::Random).is_prefix_of(name) {
        Capability::Random
    } else {
        Capability::Hash
    }
}

/// Whether a module import named `module::name` is allowed under the
/// granted capabilities: it must come from `env`, and what follows must be
/// an allowed host function, `memory` or `abort`.
pub open spec fn import_allowed(granted: Seq<Capability>, import: Seq<char>) -> bool {
    "env::"@.is_prefix_of(import) && {
        let name = import.skip(5);
        allowlist_of(granted).contains_key(name) || name == "memory"@ || name == "abort"@
    }
}

/// The ten host function names are distinct, so each belongs to exactly
/// the capability that exposes it.
pub proof fn lemma_function_owner(capability: Capability, name: Seq<char>)
    ensures
        exposes(capability, name) <==> host_function_owner(name) == Some(capability),
{
    reveal_strlit("hash_commit");
    reveal_strlit("hash_verify");
    reveal_strlit("json_path");
    reveal_strlit("json_extract");
    reveal_strlit("base64_encode");
    reveal_strlit("base64_decode");
    reveal_strlit("time_now_ms");
    reveal_strlit("time_iso8601");
    reveal_strlit("random_bytes");
    reveal_strlit("random_u32");
    if exposes(capability, name) {
        assert(name[0] == first_function(capability)[0]);
    }
}

impl Capability {
    /// The prefix that the names of this capability's host functions share.
    pub fn host_function_prefix(&self) -> (r: &'static str)
        ensures
            r@ == prefix_of(*self),
    {
        match self {
            Capability::Hash => "hash_",
            Capability::Json => "json_",
            Capability::Base64 => "base64_",
            Capability::Time => "time_",
            Capability::Random => "random_",
        }
    }

    /// All capabilities, in declaration order.
    pub fn all() -> (r: Vec<Capability>)
        ensures
            r@ == all_capabilities(),
    {
        let mut r: Vec<Capability> = Vec::new();
        r.push(Capability::Hash);
        r.push(Capability::Json);
        r.push(Capability::Base64);
        r.push(Capability::Time);
        r.push(Capability::Random);
        proof {
            assert(r@ =~= all_capabilities());
        }
        r
    }

    /// This capability in words.
    pub fn description(&self) -> (r: &'static str)
        ensures
            r@ == description_of(*self),
    {
        match self {
            Capability::Hash => "Blake3 cryptographic hashing",
            Capability::Json => "JSON path extraction and manipulation",
            Capability::Base64 => "Base64 encoding and decoding",
            Capability::Time => "Deterministic timestamp access",
            Capability::Random => "Deterministic random number generation",
        }
    }

    /// The first host function that this capability exposes.
    fn first_name(&self) -> (r: &'static str)
        ensures
            r@ == first_function(*self),
    {
        match self {
            Capability::Hash => "hash_commit",
            Capability::Json => "json_path",
            Capability::Base64 => "base64_encode",
            Capability::Time => "time_now_ms",
            Capability::Random => "random_bytes",
        }
    }

    /// The second host function that this capability exposes.
    fn second_name(&self) -> (r: &'static str)
        ensures
            r@ == second_function(*self),
    {
        match self {
            Capability::Hash => "hash_verify",
            Capability::Json => "json_extract",
            Capability::Base64 => "base64_decode",
            Capability::Time => "time_iso8601",
            Capability::Random => "random_u32",
        }
    }
}

/// The limits under which a capsule runs.
#[derive(Debug)]
pub struct ResourceLimits {
    /// Cap on linear memory, in megabytes.
    pub memory_limit_mb: u32,
    /// Wall-clock deadline, in milliseconds.
    pub execution_time_ms: u64,
    /// Fuel budget.
    pub fuel_limit: u64,
    /// The granted capabilities.
    pub capabilities: Vec<Capability>,
}

/// `list` without every occurrence of `capability`, the rest in order.
pub open spec fn without(list: Seq<Capability>, capability: Capability) -> Seq<Capability>
    decreases list.len(),
{
    if list.len() == 0 {
        Seq::<Capability>::empty()
    } else if list.last() == capability {
        without(list.drop_last(), capability)
    } else {
        without(list.drop_last(), capability).push(list.last())
    }
}

/// Removal takes out the one capability and keeps every other.
pub proof fn lemma_without(list: Seq<Capability>, capability: Capability, other: Capability)
    ensures
        without(list, capability).contains(other) <==> (list.contains(other) && other != capability),
    decreases list.len(),
{
    if list.len() > 0 {
        let rest = list.drop_last();
        lemma_without(rest, capability, other);
        let kept = without(rest, capability);
        if list.contains(other) {
            let i = choose|i: int| 0 <= i < list.len() && list[i] == other;
            if i < rest.len() {
                assert(rest[i] == other);
            }
        }
        if rest.contains(other) {
            let i = choose|i: int| 0 <= i < rest.len() && rest[i] == other;
            assert(list[i] == other);
        }
        if list.last() != capability {
            let out = kept.push(list.last());
            if kept.contains(other) {
                let i = choose|i: int| 0 <= i < kept.len() && kept[i] == other;
                assert(out[i] == other);
            }
            if list.last() == other {
                assert(out[kept.len() as int] == other);
                assert(list[list.len() - 1] == other);
            }
            if out.contains(other) {
                let i = choose|i: int| 0 <= i < out.len() && out[i] == other;
                if i < kept.len() {
                    assert(kept[i] == other);
                }
            }
        }
    }
}

impl Default for ResourceLimits {
    /// 32 MB, one second, a million units of fuel; hashing and JSON.
    fn default() -> (r: Self)
        ensures
            r.memory_limit_mb == 32,
            r.execution_time_ms == 1000,
            r.fuel_limit == 1000000,
            r.capabilities@ == seq![Capability::Hash, Capability::Json],
    {
        let mut capabilities: Vec<Capability> = Vec::new();
        capabilities.push(Capability::Hash);
        capabilities.push(Capability::Json);
        proof {
            assert(capabilities@ =~= seq![Capability::Hash, Capability::Json]);
        }
        ResourceLimits { memory_limit_mb: 32, execution_time_ms: 1000, fuel_limit: 1000000, capabilities }
    }
}

impl ResourceLimits {
    /// Permissive limits for development: 64 MB, five seconds, ten million
    /// units of fuel, every capability.
    pub fn development() -> (r: Self)
        ensures
            r.memory_limit_mb == 64,
            r.execution_time_ms == 5000,
            r.fuel_limit == 10000000,
            r.capabilities@ == all_capabilities(),
    {
        ResourceLimits {
            memory_limit_mb: 64,
            execution_time_ms: 5000,
            fuel_limit: 10000000,
            capabilities: Capability::all(),
        }
    }

    /// Strict limits for production: 16 MB, half a second, half a million
    /// units of fuel, hashing only.
    pub fn production() -> (r: Self)
        ensures
            r.memory_limit_mb == 16,
            r.execution_time_ms == 500,
            r.fuel_limit == 500000,
            r.capabilities@ == seq![Capability::Hash],
    {
        let mut capabilities: Vec<Capability> = Vec::new();
        capabilities.push(Capability::Hash);
        proof {
            assert(capabilities@ =~= seq![Capability::Hash]);
        }
        ResourceLimits { memory_limit_mb: 16, execution_time_ms: 500, fuel_limit: 500000, capabilities }
    }

    /// Whether `capability` is granted.
    pub fn has_capability(&self, capability: Capability) -> (r: bool)
        ensures
            r == self.capabilities@.contains(capability),
    {
        let mut i: usize = 0;
        while i < self.capabilities.len()
            invariant
                i <= self.capabilities@.len(),
                forall|j: int| 0 <= j < i ==> self.capabilities@[j] != capability,
            decreases self.capabilities@.len() - i,
        {
            if self.capabilities[i] == capability {
                return true;
            }
            i += 1;
        }
        false
    }

    /// Grants `capability`, unless it is granted already.
    pub fn add_capability(&mut self, capability: Capability)
        ensures
            final(self).capabilities@ == if old(self).capabilities@.contains(capability) {
                old(self).capabilities@
            } else {
                old(self).capabilities@.push(capability)
            },
            final(self).memory_limit_mb == old(self).memory_limit_mb,
            final(self).execution_time_ms == old(self).execution_time_ms,
            final(self).fuel_limit == old(self).fuel_limit,
    {
        if !self.has_capability(capability) {
            self.capabilities.push(capability);
        }
    }

    /// Withdraws `capability`, every occurrence of it; every other
    /// capability stays granted.
    pub fn remove_capability(&mut self, capability: Capability)
        ensures
            final(self).capabilities@ == without(old(self).capabilities@, capability),
            !final(self).capabilities@.contains(capability),
            forall|other: Capability|
                other != capability ==> (final(self).capabilities@.contains(other) <==> old(
                    self,
                ).capabilities@.contains(other)),
            final(self).memory_limit_mb == old(self).memory_limit_mb,
            final(self).execution_time_ms == old(self).execution_time_ms,
            final(self).fuel_limit == old(self).fuel_limit,
    {
        let mut kept: Vec<Capability> = Vec::new();
        let mut i: usize = 0;
        proof {
            assert(self.capabilities@.take(0) =~= Seq::<Capability>::empty());
        }
        while i < self.capabilities.len()
            invariant
                i <= self.capabilities@.len(),
                kept@ == without(self.capabilities@.take(i as int), capability),
            decreases self.capabilities@.len() - i,
        {
            proof {
                let next = self.capabilities@.take(i as int + 1);
                assert(next.drop_last() =~= self.capabilities@.take(i as int));
                assert(next.last() == self.capabilities@[i as int]);
            }
            if self.capabilities[i] != capability {
                kept.push(self.capabilities[i]);
            }
            i += 1;
        }
        proof {
            assert(self.capabilities@.take(i as int) =~= self.capabilities@);
            lemma_without(old(self).capabilities@, capability, capability);
            assert forall|other: Capability| other != capability implies (kept@.contains(other)
                <==> old(self).capabilities@.contains(other)) by {
                lemma_without(old(self).capabilities@, capability, other);
            }
        }
        self.capabilities = kept;
    }
}

/// Why the sandbox refused.
#[derive(Debug)]
pub enum SandboxError {
    CapabilityNotGranted { capability: Capability },
    HostFunctionNotAllowed { function: String },
    ResourceLimitExceeded { limit_type: String },
    ImportNotAllowed { import: String },
}

/// One line of the audit log.
#[derive(Debug)]
pub struct AccessLogEntry {
    /// Milliseconds since the Unix epoch at the attempt.
    pub timestamp: u64,
    /// The capability concerned.
    pub capability: Capability,
    /// What was attempted.
    pub action: String,
    /// Whether it was allowed.
    pub allowed: bool,
    /// Further context.
    pub context: HashMap<String, String>,
}

/// The sandbox of one execution.
pub struct SecuritySandbox {
    resource_limits: ResourceLimits,
    access_log: Vec<AccessLogEntry>,
    host_function_allowlist: TextMap<Capability>,
}

/// The number of entries of an audit log that are marked allowed.
pub open spec fn allowed_entries(log: Seq<AccessLogEntry>) -> nat
    decreases log.len(),
{
    if log.len() == 0 {
        0
    } else {
        allowed_entries(log.drop_last()) + if log.last().allowed {
            1nat
        } else {
            0nat
        }
    }
}

/// The action that the audit log records for a call of `function_name`.
pub open spec fn call_action(function_name: Seq<char>) -> Seq<char> {
    "call:"@ + function_name
}

impl SecuritySandbox {
    /// The allowlist is the one that the granted capabilities call for.
    pub closed spec fn wf(&self) -> bool {
        &&& self.host_function_allowlist.wf()
        &&& self.host_function_allowlist@ == allowlist_of(self.resource_limits.capabilities@)
    }

    /// The limits that the sandbox was made with.
    pub closed spec fn limits(&self) -> ResourceLimits {
        self.resource_limits
    }

    /// The audit log, oldest entry first.
    pub closed spec fn log(&self) -> Seq<AccessLogEntry> {
        self.access_log@
    }

    /// The granted capabilities.
    pub open spec fn granted(&self) -> Seq<Capability> {
        self.limits().capabilities@
    }

    /// A sandbox under `resource_limits`, with an empty audit log.
    pub fn new(resource_limits: ResourceLimits) -> (r: Self)
        ensures
            r.wf(),
            r.limits() == resource_limits,
            r.log() == Seq::<AccessLogEntry>::empty(),
    {
        let mut sandbox = SecuritySandbox {
            resource_limits,
            access_log: Vec::new(),
            host_function_allowlist: TextMap::new(),
        };
        sandbox.generate_host_function_allowlist();
        sandbox
    }

    /// A sandbox under the default limits.
    pub fn default() -> (r: Self)
        ensures
            r.wf(),
            r.limits().memory_limit_mb == 32,
            r.limits().execution_time_ms == 1000,
            r.limits().fuel_limit == 1000000,
            r.granted() == seq![Capability::Hash, Capability::Json],
            r.log() == Seq::<AccessLogEntry>::empty(),
    {
        Self::new(ResourceLimits::default())
    }

    /// A sandbox under the development limits.
    pub fn development() -> (r: Self)
        ensures
            r.wf(),
            r.limits().memory_limit_mb == 64,
            r.limits().execution_time_ms == 5000,
            r.limits().fuel_limit == 10000000,
            r.granted() == all_capabilities(),
            r.log() == Seq::<AccessLogEntry>::empty(),
    {
        Self::new(ResourceLimits::development())
    }

    /// A sandbox under the production limits.
    pub fn production() -> (r: Self)
        ensures
            r.wf(),
            r.limits().memory_limit_mb == 16,
            r.limits().execution_time_ms == 500,
            r.limits().fuel_limit == 500000,
            r.granted() == seq![Capability::Hash],
            r.log() == Seq::<AccessLogEntry>::empty(),
    {
        Self::new(ResourceLimits::production())
    }

    /// Whether `capability` is granted.
    pub fn has_capability(&self, capability: Capability) -> (r: bool)
        ensures
            r == self.granted().contains(capability),
    {
        self.resource_limits.has_capability(capability)
    }

    /// Whether the host function `function_name` may be linked: some
    /// granted capability exposes it.
    pub fn allows_host_function(&self, function_name: &str) -> (r: bool)
        requires
            self.wf(),
        ensures
            r == allowlist_of(self.granted()).contains_key(function_name@),
    {
        self.host_function_allowlist.contains_key(function_name)
    }

    /// Whether the import `import_name`, written `module::name`, is
    /// allowed.
    pub fn allows_import(&self, import_name: &str) -> (r: bool)
        requires
            self.wf(),
        ensures
            r == import_allowed(self.granted(), import_name@),
    {
        proof {
            reveal_strlit("env::");
        }
        if starts_with(import_name, "env::") {
            let function_name = skip_chars(import_name, 5);
            self.allows_host_function(function_name) || str_eq(function_name, "memory") || str_eq(
                function_name,
                "abort",
            )
        } else {
            false
        }
    }

    /// Appends an entry stamped with the current time to the audit log.
    pub fn log_access(&mut self, capability: Capability, action: String, allowed: bool)
        ensures
            final(self).log().len() == old(self).log().len() + 1,
            final(self).log().drop_last() == old(self).log(),
            final(self).log().last().capability == capability,
            final(self).log().last().action == action,
            final(self).log().last().allowed == allowed,
            final(self).log().last().context@ == Map::<String, String>::empty(),
            final(self).limits() == old(self).limits(),
            old(self).wf() ==> final(self).wf(),
    {
        self.log_access_with_context(capability, action, allowed, HashMap::new());
    }

    /// Appends an entry with `context`, stamped with the current time, to
    /// the audit log.
    pub fn log_access_with_context(
        &mut self,
        capability: Capability,
        action: String,
        allowed: bool,
        context: HashMap<String, String>,
    )
        ensures
            final(self).log().len() == old(self).log().len() + 1,
            final(self).log().drop_last() == old(self).log(),
            final(self).log().last().capability == capability,
            final(self).log().last().action == action,
            final(self).log().last().allowed == allowed,
            final(self).log().last().context == context,
            final(self).limits() == old(self).limits(),
            old(self).wf() ==> final(self).wf(),
    {
        let timestamp = self.current_timestamp_ms();
        self.record_access(timestamp, capability, action, allowed, context);
    }

    /// Appends the given entry to the audit log.
    pub fn record_access(
        &mut self,
        timestamp: u64,
        capability: Capability,
        action: String,
        allowed: bool,
        context: HashMap<String, String>,
    )
        ensures
            final(self).log() == old(self).log().push(
                AccessLogEntry { timestamp, capability, action, allowed, context },
            ),
            final(self).limits() == old(self).limits(),
            old(self).wf() ==> final(self).wf(),
    {
        let entry = AccessLogEntry { timestamp, capability, action, allowed, context };
        self.access_log.push(entry);
    }

    /// The audit log, oldest entry first.
    pub fn access_log(&self) -> (r: &[AccessLogEntry])
        ensures
            r@ == self.log(),
    {
        self.access_log.as_slice()
    }

    /// Empties the audit log.
    pub fn clear_access_log(&mut self)
        ensures
            final(self).log() == Seq::<AccessLogEntry>::empty(),
            final(self).limits() == old(self).limits(),
            old(self).wf() ==> final(self).wf(),
    {
        self.access_log.clear();
    }

    /// The limits that the sandbox was made with.
    pub fn resource_limits(&self) -> (r: &ResourceLimits)
        ensures
            *r == self.limits(),
    {
        &self.resource_limits
    }

    /// Resolves a call of the host function `function_name` and writes one
    /// entry to the audit log.
    ///
    /// An allowed function gives the capability that exposes it; the entry
    /// names that capability and is marked allowed. Any other function is
    /// refused with `HostFunctionNotAllowed`; the entry names the guessed
    /// capability and is marked refused.
    pub fn validate_host_function_call(&mut self, function_name: &str) -> (r: Result<
        Capability,
        SandboxError,
    >)
        requires
            old(self).wf(),
        ensures
            final(self).wf(),
            final(self).limits() == old(self).limits(),
            final(self).log().len() == old(self).log().len() + 1,
            final(self).log().drop_last() == old(self).log(),
            final(self).log().last().action@ == call_action(function_name@),
            final(self).log().last().allowed == r is Ok,
            match r {
                Ok(capability) => allowlist_of(old(self).granted()).contains_key(function_name@)
                    && capability == allowlist_of(old(self).granted())[function_name@]
                    && final(self).log().last().capability == capability,
                Err(SandboxError::HostFunctionNotAllowed { function }) => !allowlist_of(
                    old(self).granted(),
                ).contains_key(function_name@) && function@ == function_name@
                    && final(self).log().last().capability == guessed_capability(function_name@),
                Err(_) => false,
            },
    {
        let mut action = "call:".to_owned();
        action.append(function_name);
        let found: Option<Capability> = match self.host_function_allowlist.get(function_name) {
            Some(capability) => Some(*capability),
            None => None,
        };
        match found {
            Some(capability) => {
                self.log_access(capability, action, true);
                Ok(capability)
            },
            None => {
                let capability = self.guess_capability_for_function(function_name);
                self.log_access(capability, action, false);
                Err(SandboxError::HostFunctionNotAllowed { function: function_name.to_owned() })
            },
        }
    }

    /// The names of the host functions that may be linked, none twice.
    pub fn allowed_functions(&self) -> (r: Vec<String>)
        requires
            self.wf(),
        ensures
            crate::text::texts(r@).no_duplicates(),
            forall|name: Seq<char>|
                crate::text::texts(r@).contains(name) <==> allowlist_of(self.granted()).contains_key(
                    name,
                ),
    {
        let mut out: Vec<String> = Vec::new();
        let n = self.host_function_allowlist.len();
        let mut i: usize = 0;
        proof {
            self.host_function_allowlist.lemma_keys();
        }
        while i < n
            invariant
                self.wf(),
                n == self.host_function_allowlist.keys().len(),
                i <= n,
                out@.len() == i,
                forall|j: int| 0 <= j < i ==> out@[j]@ == self.host_function_allowlist.keys()[j],
            decreases n - i,
        {
            out.push(self.host_function_allowlist.key_at(i).clone());
            i += 1;
        }
        proof {
            assert(crate::text::texts(out@) =~= self.host_function_allowlist.keys());
        }
        out
    }

    /// The number of allowed entries in the audit log, that is, of host
    /// function calls that were let through; `u32::MAX` where there are
    /// more.
    pub fn host_call_count(&self) -> (r: u32)
        ensures
            r == if allowed_entries(self.log()) > u32::MAX {
                u32::MAX as nat
            } else {
                allowed_entries(self.log())
            },
    {
        let mut count: u32 = 0;
        let mut i: usize = 0;
        proof {
            assert(self.access_log@.take(0) =~= Seq::<AccessLogEntry>::empty());
        }
        while i < self.access_log.len()
            invariant
                i <= self.access_log@.len(),
                count == if allowed_entries(self.access_log@.take(i as int)) > u32::MAX {
                    u32::MAX as nat
                } else {
                    allowed_entries(self.access_log@.take(i as int))
                },
            decreases self.access_log@.len() - i,
        {
            proof {
                let next = self.access_log@.take(i as int + 1);
                assert(next.drop_last() =~= self.access_log@.take(i as int));
                assert(next.last() == self.access_log@[i as int]);
            }
            if self.access_log[i].allowed && count < u32::MAX {
                count += 1;
            }
            i += 1;
        }
        proof {
            assert(self.access_log@.take(i as int) =~= self.access_log@);
        }
        count
    }

    /// Rebuilds the allowlist from the granted capabilities: the two host
    /// functions of each.
    fn generate_host_function_allowlist(&mut self)
        ensures
            final(self).wf(),
            final(self).limits() == old(self).limits(),
            final(self).log() == old(self).log(),
    {
        let mut allowlist: TextMap<Capability> = TextMap::new();
        let mut i: usize = 0;
        proof {
            assert(self.resource_limits.capabilities@.take(0) =~= Seq::<Capability>::empty());
            assert(allowlist@ =~= allowlist_of(Seq::<Capability>::empty()));
        }
        while i < self.resource_limits.capabilities.len()
            invariant
                i <= self.resource_limits.capabilities@.len(),
                allowlist.wf(),
                allowlist@ == allowlist_of(self.resource_limits.capabilities@.take(i as int)),
            decreases self.resource_limits.capabilities@.len() - i,
        {
            let capability = self.resource_limits.capabilities[i];
            allowlist.insert(capability.first_name().to_owned(), capability);
            allowlist.insert(capability.second_name().to_owned(), capability);
            proof {
                let prior = self.resource_limits.capabilities@.take(i as int);
                let now = self.resource_limits.capabilities@.take(i as int + 1);
                assert(now =~= prior.push(capability));
                let target = allowlist_of(now);
                assert forall|name: Seq<char>| #[trigger]
                    allowlist@.contains_key(name) <==> target.contains_key(name) by {
                    lemma_function_owner(capability, name);
                    if host_function_owner(name) is Some {
                        let owner = host_function_owner(name)->0;
                        if prior.contains(owner) {
                            let j = choose|j: int| 0 <= j < prior.len() && prior[j] == owner;
                            assert(now[j] == owner);
                        }
                        if owner == capability {
                            assert(now[i as int] == owner);
                        }
                        if now.contains(owner) {
                            let j = choose|j: int| 0 <= j < now.len() && now[j] == owner;
                            if j < i {
                                assert(prior[j] == owner);
                            }
                        }
                    }
                }
                assert forall|name: Seq<char>| #[trigger] allowlist@.contains_key(name) implies allowlist@[name]
                    == target[name] by {
                    lemma_function_owner(capability, name);
                }
                assert(allowlist@ =~= target);
            }
            i += 1;
        }
        proof {
            assert(self.resource_limits.capabilities@.take(i as int) =~= self.resource_limits.capabilities@);
        }
        self.host_function_allowlist = allowlist;
    }

    /// The capability to which a refused function is attributed.
    fn guess_capability_for_function(&self, function_name: &str) -> (r: Capability)
        ensures
            r == guessed_capability(function_name@),
    {
        if starts_with(function_name, Capability::Hash.host_function_prefix()) {
            Capability::Hash
        } else if starts_with(function_name, Capability::Json.host_function_prefix()) {
            Capability::Json
        } else if starts_with(function_name, Capability::Base64.host_function_prefix()) {
            Capability::Base64
        } else if starts_with(function_name, Capability::Time.host_function_prefix()) {
            Capability::Time
        } else if starts_with(function_name, Capability::Random.host_function_prefix()) {
            Capability::Random
        } else {
            Capability::Hash
        }
    }

    /// Milliseconds since the Unix epoch, for the audit log.
    fn current_timestamp_ms(&self) -> (r: u64)
    {
        current_millis()
    }
}

} // verus!
