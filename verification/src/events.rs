//! Federation events: signed, content-addressed records that wrap a receipt
//! or a node-lifecycle message and name their parents in the DAG.

use vstd::prelude::*;
use vstd::string::*;
use vstd::utf8::encode_utf8;
use crate::clock::{current_timestamp_rfc3339, rfc3339_instant};
use crate::digest::{commit, commitment};
use crate::hexcode::{
    decode_hex, encode_hex, hex_decoding, hex_encoding, is_hex_text, lemma_hex_encoding_is_ascii,
    lemma_hex_round_trip,
};
use crate::json::{json_of_list, json_of_str, json_string, json_string_list};
use crate::receipts::{ExecMetrics, ExecutionReceipt, ReceiptView};
use crate::signing::{check_signature, ed25519_check, ed25519_public_key, ed25519_signature, sign_message};
use crate::storage::StorageError;
use crate::text::{clone_texts, decimal, fraction_digits, push_decimal, push_fraction, texts};

verus! {

/// The kinds of event.
#[derive(Debug, Clone, Copy, PartialEq, Eq, Structural)]
pub enum EventType {
    /// A receipt from a capsule execution.
    Receipt,
    /// A node announcing itself.
    NodeAnnounce,
    /// A node leaving gracefully.
    NodeLeave,
    /// A keepalive from a node.
    Heartbeat,
}

/// What a node says of itself.
#[derive(Debug)]
pub struct NodeInfo {
    /// The node's public key in hexadecimal.
    pub public_key: String,
    /// Network address, `host:port`.
    pub address: String,
    /// Human-readable name.
    pub name: String,
    /// Software version.
    pub version: String,
}

/// A node description as plain mathematical data.
pub struct NodeInfoView {
    pub public_key: Seq<char>,
    pub address: Seq<char>,
    pub name: Seq<char>,
    pub version: Seq<char>,
}

impl View for NodeInfo {
    type V = NodeInfoView;

    open spec fn view(&self) -> NodeInfoView {
        NodeInfoView {
            public_key: self.public_key@,
            address: self.address@,
            name: self.name@,
            version: self.version@,
        }
    }
}

/// What an event carries.
#[derive(Debug)]
pub enum EventContent {
    /// An execution receipt.
    Receipt(ExecutionReceipt),
    /// A node announcement.
    NodeAnnounce { node_info: NodeInfo, capabilities: Vec<String> },
    /// A node's farewell.
    NodeLeave { reason: String },
    /// A keepalive: the node's load in thousandths (1000 is full load) and
    /// its uptime.
    Heartbeat { load_thousandths: u32, uptime_seconds: u64 },
}

/// Event content as plain mathematical data.
pub enum ContentView {
    Receipt(ReceiptView),
    NodeAnnounce { node_info: NodeInfoView, capabilities: Seq<Seq<char>> },
    NodeLeave { reason: Seq<char> },
    Heartbeat { load_thousandths: u32, uptime_seconds: u64 },
}

impl View for EventContent {
    type V = ContentView;

    open spec fn view(&self) -> ContentView {
        match self {
            EventContent::Receipt(receipt) => ContentView::Receipt(receipt@),
            EventContent::NodeAnnounce { node_info, capabilities } => ContentView::NodeAnnounce {
                node_info: node_info@,
                capabilities: texts(capabilities@),
            },
            EventContent::NodeLeave { reason } => ContentView::NodeLeave { reason: reason@ },
            EventContent::Heartbeat { load_thousandths, uptime_seconds } => ContentView::Heartbeat {
                load_thousandths: *load_thousandths,
                uptime_seconds: *uptime_seconds,
            },
        }
    }
}

/// One event of the federation DAG.
#[derive(Debug)]
pub struct Event {
    /// The commitment to the signing payload: 64 hexadecimal digits.
    pub id: String,
    /// The kind of event.
    pub event_type: EventType,
    /// What the event carries.
    pub content: EventContent,
    /// RFC 3339 time of creation.
    pub timestamp: String,
    /// The identifiers of the tips that the creator saw.
    pub parents: Vec<String>,
    /// The creator's own counter.
    pub sequence: u64,
    /// The creator's identifier.
    pub node_id: String,
    /// The signature over the signing payload: 128 hexadecimal digits.
    pub signature: String,
}

/// An event as plain mathematical data.
pub struct EventView {
    pub id: Seq<char>,
    pub event_type: EventType,
    pub content: ContentView,
    pub timestamp: Seq<char>,
    pub parents: Seq<Seq<char>>,
    pub sequence: u64,
    pub node_id: Seq<char>,
    pub signature: Seq<char>,
}

impl View for Event {
    type V = EventView;

    open spec fn view(&self) -> EventView {
        EventView {
            id: self.id@,
            event_type: self.event_type,
            content: self.content@,
            timestamp: self.timestamp@,
            parents: texts(self.parents@),
            sequence: self.sequence,
            node_id: self.node_id@,
            signature: self.signature@,
        }
    }
}

/// The events that a list holds, in order.
pub open spec fn event_views(events: Seq<Event>) -> Seq<EventView> {
    Seq::new(events.len(), |i: int| events[i]@)
}

/// The name of an event kind as the signing payload writes it.
pub open spec fn event_type_name(event_type: EventType) -> Seq<char> {
    match event_type {
        EventType::Receipt => "Receipt"@,
        EventType::NodeAnnounce => "NodeAnnounce"@,
        EventType::NodeLeave => "NodeLeave"@,
        EventType::Heartbeat => "Heartbeat"@,
    }
}

/// A memory size in megabytes (2^20 bytes) as an exact JSON number.
pub open spec fn memory_mb_json(bytes: u64) -> Seq<char> {
    decimal(bytes as nat / 1048576) + seq!['.'] + fraction_digits(
        (bytes as nat % 1048576) * 95367431640625,
        20,
    )
}

/// A load in thousandths as an exact JSON number.
pub open spec fn load_json(load_thousandths: u32) -> Seq<char> {
    decimal(load_thousandths as nat / 1000) + seq!['.'] + fraction_digits(
        load_thousandths as nat % 1000,
        3,
    )
}

/// The JSON object of execution metrics.
pub open spec fn metrics_json(metrics: ExecMetrics) -> Seq<char> {
    "{\"fuel_used\":"@ + decimal(metrics.fuel_used as nat) + ",\"memory_mb\":"@ + memory_mb_json(
        metrics.memory_bytes,
    ) + ",\"duration_ms\":"@ + decimal(metrics.duration_ms as nat) + ",\"host_function_calls\":"@
        + decimal(metrics.host_function_calls as nat) + "}"@
}

/// The first half of a receipt's JSON object: the commitments and the
/// metrics.
pub open spec fn receipt_json_front(receipt: ReceiptView) -> Seq<char> {
    "{\"capsule_id\":"@ + json_string(receipt.capsule_id) + ",\"input_commit\":"@ + json_string(
        receipt.input_commit,
    ) + ",\"output_commit\":"@ + json_string(receipt.output_commit) + ",\"exec_metrics\":"@
        + metrics_json(receipt.exec_metrics)
}

/// The second half of a receipt's JSON object: the signer, the nonce, the
/// signature, the timestamp and the version.
pub open spec fn receipt_json_back(receipt: ReceiptView) -> Seq<char> {
    ",\"node_id\":"@ + json_string(receipt.node_id) + ",\"nonce\":"@ + decimal(
        receipt.nonce as nat,
    ) + ",\"signature\":"@ + json_string(receipt.signature) + ",\"timestamp\":"@ + json_string(
        receipt.timestamp,
    ) + ",\"version\":"@ + json_string(receipt.version) + "}"@
}

/// The JSON object of a receipt, fields in declaration order.
pub open spec fn receipt_json(receipt: ReceiptView) -> Seq<char> {
    receipt_json_front(receipt) + receipt_json_back(receipt)
}

/// The JSON object of a node description.
pub open spec fn node_info_json(info: NodeInfoView) -> Seq<char> {
    "{\"public_key\":"@ + json_string(info.public_key) + ",\"address\":"@ + json_string(
        info.address,
    ) + ",\"name\":"@ + json_string(info.name) + ",\"version\":"@ + json_string(info.version)
        + "}"@
}

/// The JSON text of event content: an object with the variant's name as
/// its only key.
pub open spec fn content_json(content: ContentView) -> Seq<char> {
    match content {
        ContentView::Receipt(receipt) => "{\"Receipt\":"@ + receipt_json(receipt) + "}"@,
        ContentView::NodeAnnounce { node_info, capabilities } => "{\"NodeAnnounce\":{\"node_info\":"@
            + node_info_json(node_info) + ",\"capabilities\":"@ + json_string_list(capabilities)
            + "}}"@,
        ContentView::NodeLeave { reason } => "{\"NodeLeave\":{\"reason\":"@ + json_string(reason)
            + "}}"@,
        ContentView::Heartbeat { load_thousandths, uptime_seconds } => "{\"Heartbeat\":{\"load\":"@
            + load_json(load_thousandths) + ",\"uptime_seconds\":"@ + decimal(
            uptime_seconds as nat,
        ) + "}}"@,
    }
}

/// The exact text that is signed and hashed for an event with these
/// fields.
pub open spec fn event_payload(
    event_type: EventType,
    content: ContentView,
    parents: Seq<Seq<char>>,
    sequence: u64,
    node_id: Seq<char>,
    timestamp: Seq<char>,
) -> Seq<char> {
    "TENZIK_EVENT_V1\ntype:"@ + event_type_name(event_type) + "\ncontent:"@ + content_json(content)
        + "\nparents:"@ + json_string_list(parents) + "\nsequence:"@ + decimal(sequence as nat)
        + "\nnode_id:"@ + node_id + "\ntimestamp:"@ + timestamp
}

/// The identifier of an event with signing payload `payload`.
pub open spec fn event_id(payload: Seq<char>) -> Seq<char> {
    commitment(encode_utf8(payload))
}

/// Identical signing payloads give identical identifiers.
pub proof fn lemma_event_id_determined(a: EventView, b: EventView)
    requires
        a.payload() == b.payload(),
    ensures
        event_id(a.payload()) == event_id(b.payload()),
{
}

/// The identifier of a signed event is the commitment to its payload; it
/// does not depend on who signed.
pub proof fn lemma_event_id_ignores_signer(
    event_type: EventType,
    content: ContentView,
    parents: Seq<Seq<char>>,
    sequence: u64,
    node_id: Seq<char>,
    secret: Seq<u8>,
    other_secret: Seq<u8>,
    timestamp: Seq<char>,
)
    ensures
        signed_event(event_type, content, parents, sequence, node_id, secret, timestamp).id
            == event_id(event_payload(event_type, content, parents, sequence, node_id, timestamp)),
        signed_event(event_type, content, parents, sequence, node_id, secret, timestamp).id
            == signed_event(event_type, content, parents, sequence, node_id, other_secret, timestamp).id,
        signed_event(event_type, content, parents, sequence, node_id, secret, timestamp).payload()
            == event_payload(event_type, content, parents, sequence, node_id, timestamp),
{
}

impl EventView {
    /// The text that this event's identifier and signature cover.
    pub open spec fn payload(self) -> Seq<char> {
        event_payload(
            self.event_type,
            self.content,
            self.parents,
            self.sequence,
            self.node_id,
            self.timestamp,
        )
    }

    /// The stored signature is hexadecimal text for 64 bytes.
    pub open spec fn signature_well_formed(self) -> bool {
        is_hex_text(self.signature) && self.signature.len() == 128
    }

    /// What checking the stored signature against `key` gives: `None` where
    /// `key` is no public key, else whether the signature is accepted.
    pub open spec fn check(self, key: Seq<u8>) -> Option<bool> {
        ed25519_check(key, encode_utf8(self.payload()), hex_decoding(self.signature))
    }

    /// The verdict that `verify_signature` owes on this event and `key`.
    pub open spec fn verdict(self, key: Seq<u8>, r: Result<bool, StorageError>) -> bool {
        if !self.signature_well_formed() {
            r matches Err(StorageError::InvalidEvent { .. })
        } else {
            match self.check(key) {
                None => r matches Err(StorageError::InvalidEvent { .. }),
                Some(accepted) => r matches Ok(b) && b == accepted,
            }
        }
    }

    /// The shape that the store asks of every event: an identifier of 64
    /// bytes, a signature of 128 bytes, and an RFC 3339 timestamp.
    pub open spec fn well_shaped(self) -> bool {
        &&& encode_utf8(self.id).len() == 64
        &&& encode_utf8(self.signature).len() == 128
        &&& rfc3339_instant(self.timestamp) is Some
    }
}

/// The event that the holder of `secret` creates from these fields: its
/// identifier is the commitment to the signing payload, its signature the
/// holder's over that payload.
pub open spec fn signed_event(
    event_type: EventType,
    content: ContentView,
    parents: Seq<Seq<char>>,
    sequence: u64,
    node_id: Seq<char>,
    secret: Seq<u8>,
    timestamp: Seq<char>,
) -> EventView {
    let payload = event_payload(event_type, content, parents, sequence, node_id, timestamp);
    EventView {
        id: event_id(payload),
        event_type,
        content,
        timestamp,
        parents,
        sequence,
        node_id,
        signature: hex_encoding(ed25519_signature(secret, encode_utf8(payload))),
    }
}

fn kind_name(event_type: &EventType) -> (r: &'static str)
    ensures
        r@ == event_type_name(*event_type),
{
    match event_type {
        EventType::Receipt => "Receipt",
        EventType::NodeAnnounce => "NodeAnnounce",
        EventType::NodeLeave => "NodeLeave",
        EventType::Heartbeat => "Heartbeat",
    }
}

fn push_metrics_json(out: &mut String, metrics: &ExecMetrics)
    ensures
        final(out)@ == old(out)@ + metrics_json(*metrics),
{
    out.append("{\"fuel_used\":");
    push_decimal(out, metrics.fuel_used as u128);
    out.append(",\"memory_mb\":");
    push_decimal(out, (metrics.memory_bytes / 1048576) as u128);
    out.push('.');
    push_fraction(out, (metrics.memory_bytes % 1048576) as u128 * 95367431640625, 20);
    out.append(",\"duration_ms\":");
    push_decimal(out, metrics.duration_ms as u128);
    out.append(",\"host_function_calls\":");
    push_decimal(out, metrics.host_function_calls as u128);
    out.append("}");
    proof {
        assert(final(out)@ =~= old(out)@ + metrics_json(*metrics));
    }
}

fn push_receipt_json_front(out: &mut String, receipt: &ExecutionReceipt)
    ensures
        final(out)@ == old(out)@ + receipt_json_front(receipt@),
{
    out.append("{\"capsule_id\":");
    out.append(json_of_str(receipt.capsule_id.as_str()).as_str());
    out.append(",\"input_commit\":");
    out.append(json_of_str(receipt.input_commit.as_str()).as_str());
    out.append(",\"output_commit\":");
    out.append(json_of_str(receipt.output_commit.as_str()).as_str());
    out.append(",\"exec_metrics\":");
    push_metrics_json(out, &receipt.exec_metrics);
    proof {
        assert(final(out)@ =~= old(out)@ + receipt_json_front(receipt@));
    }
}

fn push_receipt_json_back(out: &mut String, receipt: &ExecutionReceipt)
    ensures
        final(out)@ == old(out)@ + receipt_json_back(receipt@),
{
    out.append(",\"node_id\":");
    out.append(json_of_str(receipt.node_id.as_str()).as_str());
    out.append(",\"nonce\":");
    push_decimal(out, receipt.nonce as u128);
    out.append(",\"signature\":");
    out.append(json_of_str(receipt.signature.as_str()).as_str());
    out.append(",\"timestamp\":");
    out.append(json_of_str(receipt.timestamp.as_str()).as_str());
    out.append(",\"version\":");
    out.append(json_of_str(receipt.version.as_str()).as_str());
    out.append("}");
    proof {
        assert(final(out)@ =~= old(out)@ + receipt_json_back(receipt@));
    }
}

fn push_receipt_json(out: &mut String, receipt: &ExecutionReceipt)
    ensures
        final(out)@ == old(out)@ + receipt_json(receipt@),
{
    push_receipt_json_front(out, receipt);
    push_receipt_json_back(out, receipt);
    proof {
        assert(final(out)@ =~= old(out)@ + receipt_json(receipt@));
    }
}

fn push_node_info_json(out: &mut String, info: &NodeInfo)
    ensures
        final(out)@ == old(out)@ + node_info_json(info@),
{
    out.append("{\"public_key\":");
    out.append(json_of_str(info.public_key.as_str()).as_str());
    out.append(",\"address\":");
    out.append(json_of_str(info.address.as_str()).as_str());
    out.append(",\"name\":");
    out.append(json_of_str(info.name.as_str()).as_str());
    out.append(",\"version\":");
    out.append(json_of_str(info.version.as_str()).as_str());
    out.append("}");
    proof {
        assert(final(out)@ =~= old(out)@ + node_info_json(info@));
    }
}

/// Appends the JSON text of event content.
fn push_content_json(out: &mut String, content: &EventContent)
    ensures
        final(out)@ == old(out)@ + content_json(content@),
{
    match content {
        EventContent::Receipt(receipt) => {
            out.append("{\"Receipt\":");
            push_receipt_json(out, receipt);
            out.append("}");
            proof {
                assert(final(out)@ =~= old(out)@ + content_json(content@));
            }
        },
        EventContent::NodeAnnounce { node_info, capabilities } => {
            out.append("{\"NodeAnnounce\":{\"node_info\":");
            push_node_info_json(out, node_info);
            out.append(",\"capabilities\":");
            out.append(json_of_list(capabilities).as_str());
            out.append("}}");
            proof {
                assert(final(out)@ =~= old(out)@ + content_json(content@));
            }
        },
        EventContent::NodeLeave { reason } => {
            out.append("{\"NodeLeave\":{\"reason\":");
            out.append(json_of_str(reason.as_str()).as_str());
            out.append("}}");
            proof {
                assert(final(out)@ =~= old(out)@ + content_json(content@));
            }
        },
        EventContent::Heartbeat { load_thousandths, uptime_seconds } => {
            out.append("{\"Heartbeat\":{\"load\":");
            push_decimal(out, (*load_thousandths / 1000) as u128);
            out.push('.');
            push_fraction(out, (*load_thousandths % 1000) as u128, 3);
            out.append(",\"uptime_seconds\":");
            push_decimal(out, *uptime_seconds as u128);
            out.append("}}");
            proof {
                assert(final(out)@ =~= old(out)@ + content_json(content@));
            }
        },
    }
}

impl NodeInfo {
    /// A copy of this description.
    pub fn duplicate(&self) -> (r: Self)
        ensures
            r@ == self@,
    {
        NodeInfo {
            public_key: self.public_key.clone(),
            address: self.address.clone(),
            name: self.name.clone(),
            version: self.version.clone(),
        }
    }
}

impl EventContent {
    /// A copy of this content.
    pub fn duplicate(&self) -> (r: Self)
        ensures
            r@ == self@,
    {
        match self {
            EventContent::Receipt(receipt) => EventContent::Receipt(receipt.duplicate()),
            EventContent::NodeAnnounce { node_info, capabilities } => EventContent::NodeAnnounce {
                node_info: node_info.duplicate(),
                capabilities: clone_texts(capabilities),
            },
            EventContent::NodeLeave { reason } => EventContent::NodeLeave { reason: reason.clone() },
            EventContent::Heartbeat { load_thousandths, uptime_seconds } => EventContent::Heartbeat {
                load_thousandths: *load_thousandths,
                uptime_seconds: *uptime_seconds,
            },
        }
    }
}

impl Event {
    /// A copy of this event.
    pub fn duplicate(&self) -> (r: Self)
        ensures
            r@ == self@,
    {
        Event {
            id: self.id.clone(),
            event_type: self.event_type,
            content: self.content.duplicate(),
            timestamp: self.timestamp.clone(),
            parents: clone_texts(&self.parents),
            sequence: self.sequence,
            node_id: self.node_id.clone(),
            signature: self.signature.clone(),
        }
    }

    /// A receipt event stamped with the current time.
    pub fn new_receipt(
        receipt: ExecutionReceipt,
        parents: Vec<String>,
        sequence: u64,
        node_id: String,
        signing_key: &[u8; 32],
    ) -> (r: Result<Self, StorageError>)
        ensures
            r matches Ok(event) && event@ == signed_event(
                EventType::Receipt,
                ContentView::Receipt(receipt@),
                texts(parents@),
                sequence,
                node_id@,
                signing_key@,
                event@.timestamp,
            ) && event@.check(ed25519_public_key(signing_key@)) == Some(true),
    {
        let content = EventContent::Receipt(receipt);
        let timestamp = current_timestamp_rfc3339();
        Self::new_event(
            EventType::Receipt,
            content,
            parents,
            sequence,
            node_id,
            signing_key,
            timestamp,
        )
    }

    /// A node announcement stamped with the current time.
    pub fn new_node_announce(
        node_info: NodeInfo,
        capabilities: Vec<String>,
        parents: Vec<String>,
        sequence: u64,
        node_id: String,
        signing_key: &[u8; 32],
    ) -> (r: Result<Self, StorageError>)
        ensures
            r matches Ok(event) && event@ == signed_event(
                EventType::NodeAnnounce,
                ContentView::NodeAnnounce {
                    node_info: node_info@,
                    capabilities: texts(capabilities@),
                },
                texts(parents@),
                sequence,
                node_id@,
                signing_key@,
                event@.timestamp,
            ) && event@.check(ed25519_public_key(signing_key@)) == Some(true),
    {
        let content = EventContent::NodeAnnounce { node_info, capabilities };
        let timestamp = current_timestamp_rfc3339();
        Self::new_event(
            EventType::NodeAnnounce,
            content,
            parents,
            sequence,
            node_id,
            signing_key,
            timestamp,
        )
    }

    /// A heartbeat stamped with the current time.
    pub fn new_heartbeat(
        load_thousandths: u32,
        uptime_seconds: u64,
        parents: Vec<String>,
        sequence: u64,
        node_id: String,
        signing_key: &[u8; 32],
    ) -> (r: Result<Self, StorageError>)
        ensures
            r matches Ok(event) && event@ == signed_event(
                EventType::Heartbeat,
                ContentView::Heartbeat { load_thousandths, uptime_seconds },
                texts(parents@),
                sequence,
                node_id@,
                signing_key@,
                event@.timestamp,
            ) && event@.check(ed25519_public_key(signing_key@)) == Some(true),
    {
        let content = EventContent::Heartbeat { load_thousandths, uptime_seconds };
        let timestamp = current_timestamp_rfc3339();
        Self::new_event(
            EventType::Heartbeat,
            content,
            parents,
            sequence,
            node_id,
            signing_key,
            timestamp,
        )
    }

    /// A farewell stamped with the current time.
    pub fn new_node_leave(
        reason: String,
        parents: Vec<String>,
        sequence: u64,
        node_id: String,
        signing_key: &[u8; 32],
    ) -> (r: Result<Self, StorageError>)
        ensures
            r matches Ok(event) && event@ == signed_event(
                EventType::NodeLeave,
                ContentView::NodeLeave { reason: reason@ },
                texts(parents@),
                sequence,
                node_id@,
                signing_key@,
                event@.timestamp,
            ) && event@.check(ed25519_public_key(signing_key@)) == Some(true),
    {
        let content = EventContent::NodeLeave { reason };
        let timestamp = current_timestamp_rfc3339();
        Self::new_event(
            EventType::NodeLeave,
            content,
            parents,
            sequence,
            node_id,
            signing_key,
            timestamp,
        )
    }

    /// Creates and signs an event from its fields.
    ///
    /// The identifier is the commitment to the signing payload and takes 64
    /// bytes; the signature takes 128 bytes and is accepted by the signer's
    /// own public key.
    pub fn new_event(
        event_type: EventType,
        content: EventContent,
        parents: Vec<String>,
        sequence: u64,
        node_id: String,
        signing_key: &[u8; 32],
        timestamp: String,
    ) -> (r: Result<Self, StorageError>)
        ensures
            r matches Ok(event) && event@ == signed_event(
                event_type,
                content@,
                texts(parents@),
                sequence,
                node_id@,
                signing_key@,
                timestamp@,
            ) && event@.signature_well_formed() && encode_utf8(event@.id).len() == 64
                && encode_utf8(event@.signature).len() == 128 && event@.check(
                ed25519_public_key(signing_key@),
            ) == Some(true),
    {
        let payload = Self::create_signing_payload(
            &event_type,
            &content,
            &parents,
            sequence,
            node_id.as_str(),
            timestamp.as_str(),
        );
        let signature_bytes = sign_message(signing_key, payload.as_str().as_bytes());
        let signature = encode_hex(signature_bytes.as_slice());
        let id = commit(payload.as_str().as_bytes());
        proof {
            lemma_hex_round_trip(signature_bytes@);
            lemma_hex_encoding_is_ascii(signature_bytes@);
            crate::digest::lemma_commitment_shape(encode_utf8(payload@));
        }
        Ok(Event { id, event_type, content, timestamp, parents, sequence, node_id, signature })
    }

    /// Builds the text that is signed and hashed for these fields.
    pub fn create_signing_payload(
        event_type: &EventType,
        content: &EventContent,
        parents: &Vec<String>,
        sequence: u64,
        node_id: &str,
        timestamp: &str,
    ) -> (r: String)
        ensures
            r@ == event_payload(
                *event_type,
                content@,
                texts(parents@),
                sequence,
                node_id@,
                timestamp@,
            ),
    {
        let mut out = String::new();
        out.append("TENZIK_EVENT_V1\ntype:");
        out.append(kind_name(event_type));
        out.append("\ncontent:");
        push_content_json(&mut out, content);
        out.append("\nparents:");
        out.append(json_of_list(parents).as_str());
        out.append("\nsequence:");
        push_decimal(&mut out, sequence as u128);
        out.append("\nnode_id:");
        out.append(node_id);
        out.append("\ntimestamp:");
        out.append(timestamp);
        proof {
            assert(out@ =~= event_payload(
                *event_type,
                content@,
                texts(parents@),
                sequence,
                node_id@,
                timestamp@,
            ));
        }
        out
    }

    /// Checks the stored signature against `verifying_key`.
    ///
    /// A signature that is not hexadecimal text for 64 bytes, or a key that
    /// is no public key, is an `InvalidEvent` error; otherwise the result
    /// says whether the key accepts the signature over the event's payload.
    pub fn verify_signature(&self, verifying_key: &[u8; 32]) -> (r: Result<bool, StorageError>)
        ensures
            self@.verdict(verifying_key@, r),
    {
        let payload = Self::create_signing_payload(
            &self.event_type,
            &self.content,
            &self.parents,
            self.sequence,
            self.node_id.as_str(),
            self.timestamp.as_str(),
        );
        let signature_bytes = match decode_hex(self.signature.as_str()) {
            Ok(bytes) => bytes,
            Err(_) => {
                return Err(StorageError::InvalidEvent { reason: "Invalid signature hex".to_owned() });
            },
        };
        if signature_bytes.len() != 64 {
            return Err(
                StorageError::InvalidEvent { reason: "Invalid signature format".to_owned() },
            );
        }
        match check_signature(
            verifying_key.as_slice(),
            payload.as_str().as_bytes(),
            signature_bytes.as_slice(),
        ) {
            Some(accepted) => Ok(accepted),
            None => Err(StorageError::InvalidEvent { reason: "Invalid public key".to_owned() }),
        }
    }

    /// Whether this is a receipt event.
    pub fn is_receipt(&self) -> (r: bool)
        ensures
            r == (self.event_type == EventType::Receipt),
    {
        match self.event_type {
            EventType::Receipt => true,
            _ => false,
        }
    }

    /// The receipt that the event carries, if it carries one.
    pub fn get_receipt(&self) -> (r: Option<&ExecutionReceipt>)
        ensures
            match self.content {
                EventContent::Receipt(receipt) => r == Some(&receipt),
                _ => r is None,
            },
    {
        match &self.content {
            EventContent::Receipt(receipt) => Some(receipt),
            _ => None,
        }
    }
}

} // verus!
