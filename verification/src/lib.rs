//! Tenzik core: capsule validation, capability sandboxing, the host side
//! of the capsule ABI, signed execution receipts, and the federation event
//! DAG with its gossip rules.
//!
//! Every executable function in this crate carries a contract that Verus
//! proves. Calls into other crates (hashing, signatures, hex, JSON strings,
//! time, module parsing) sit behind small functions whose contracts are
//! assumed; each of those says in its documentation what is taken on
//! trust. Running the WebAssembly engine, the network and the disk are
//! left to the program around this library.

pub mod adapters;
pub mod clock;
pub mod digest;
pub mod events;
pub mod execution;
pub mod gossip;
pub mod hexcode;
pub mod hostabi;
pub mod json;
pub mod node;
pub mod protocol;
pub mod receipts;
pub mod sandbox;
pub mod signing;
pub mod storage;
pub mod text;
pub mod textmap;
pub mod validation;

pub use crate::adapters::{HttpServer, ServerConfig, WebhookConfig, WebhookRouter};
pub use crate::events::{Event, EventContent, EventType, NodeInfo};
pub use crate::execution::{ExecutionError, ExecutionResult, RuntimeConfig, WasmRuntime};
pub use crate::gossip::{GossipProtocol, PeerInfo};
pub use crate::node::{NodeConfig, TenzikNode};
pub use crate::protocol::{ProtocolError, PROTOCOL_VERSION};
pub use crate::receipts::{
    generate_test_signing_key, ExecMetrics, ExecutionReceipt, ReceiptError, ReceiptVerifier,
};
pub use crate::sandbox::{Capability, ResourceLimits, SandboxError, SecuritySandbox};
pub use crate::storage::{DAGStats, EventDAG, StorageError};
pub use crate::validation::{
    validate_capsule, ValidationError, ValidationResult, ValidatorConfig, WasmValidator,
};
