//! Execution receipts: signed records that bind a capsule, its input, its
//! output and the execution metrics under a node's key.

use vstd::prelude::*;
use vstd::string::*;
use vstd::utf8::encode_utf8;
use crate::clock::{current_instant, current_timestamp_rfc3339, parse_rfc3339, rfc3339_instant};
use crate::digest::{commit, commitment};
use crate::hexcode::{
    decode_hex, encode_hex, hex_decoding, hex_encoding, hex_error_message, is_hex_text,
    lemma_hex_round_trip,
};
use crate::signing::{
    check_signature, derive_public_key, ed25519_check, ed25519_public_key, ed25519_signature,
    generate_secret_key, sign_message,
};
use crate::text::{
    decimal, decimal_padded, push_decimal, push_decimal_padded, rounded_div, rounded_quotient,
};

verus! {

/// The format version written into every receipt.
pub const RECEIPT_VERSION: &'static str = "1.0.0";

/// What an execution consumed.
#[derive(Debug, Clone, Copy, PartialEq, Eq, Structural)]
pub struct ExecMetrics {
    /// Fuel units consumed.
    pub fuel_used: u64,
    /// Size of the capsule's linear memory, in bytes. Receipts print it in
    /// megabytes.
    pub memory_bytes: u64,
    /// Wall-clock duration in milliseconds.
    pub duration_ms: u64,
    /// Number of host function calls made.
    pub host_function_calls: u32,
}

impl Default for ExecMetrics {
    fn default() -> (r: Self)
        ensures
            r == (ExecMetrics { fuel_used: 0, memory_bytes: 0, duration_ms: 0, host_function_calls: 0 }),
    {
        ExecMetrics { fuel_used: 0, memory_bytes: 0, duration_ms: 0, host_function_calls: 0 }
    }
}

/// Why a receipt could not be checked or produced.
#[derive(Debug)]
pub enum ReceiptError {
    InvalidSignature,
    SignatureVerificationFailed,
    InvalidFormat { reason: String },
    CryptographicError { reason: String },
    SerializationError { reason: String },
}

/// A signed record of one execution.
#[derive(Debug)]
pub struct ExecutionReceipt {
    /// Commitment to the capsule bytes.
    pub capsule_id: String,
    /// Commitment to the input bytes.
    pub input_commit: String,
    /// Commitment to the output bytes.
    pub output_commit: String,
    /// What the execution consumed.
    pub exec_metrics: ExecMetrics,
    /// The signer's public key in lowercase hexadecimal.
    pub node_id: String,
    /// The signer's counter at the time of signing.
    pub nonce: u64,
    /// The signature over the signing payload, in lowercase hexadecimal.
    pub signature: String,
    /// RFC 3339 time of signing.
    pub timestamp: String,
    /// Format version.
    pub version: String,
}

/// A receipt as plain mathematical data.
pub struct ReceiptView {
    pub capsule_id: Seq<char>,
    pub input_commit: Seq<char>,
    pub output_commit: Seq<char>,
    pub exec_metrics: ExecMetrics,
    pub node_id: Seq<char>,
    pub nonce: u64,
    pub signature: Seq<char>,
    pub timestamp: Seq<char>,
    pub version: Seq<char>,
}

impl View for ExecutionReceipt {
    type V = ReceiptView;

    open spec fn view(&self) -> ReceiptView {
        ReceiptView {
            capsule_id: self.capsule_id@,
            input_commit: self.input_commit@,
            output_commit: self.output_commit@,
            exec_metrics: self.exec_metrics,
            node_id: self.node_id@,
            nonce: self.nonce,
            signature: self.signature@,
            timestamp: self.timestamp@,
            version: self.version@,
        }
    }
}

/// A memory size in thousandths of a megabyte (2^20 bytes), rounded to the
/// nearest thousandth, a tie going to the even one.
pub open spec fn memory_thousandths(bytes: u64) -> nat {
    rounded_quotient(bytes as nat * 1000, 1048576)
}

/// A memory size in megabytes with exactly three decimals.
pub open spec fn memory_mb_text(bytes: u64) -> Seq<char> {
    let t = memory_thousandths(bytes);
    decimal(t / 1000) + seq!['.'] + decimal_padded(t % 1000, 3)
}

/// The exact text that is signed for a receipt with these fields.
pub open spec fn signature_payload(
    capsule_id: Seq<char>,
    input_commit: Seq<char>,
    output_commit: Seq<char>,
    metrics: ExecMetrics,
    node_id: Seq<char>,
    nonce: u64,
    timestamp: Seq<char>,
) -> Seq<char> {
    "TENZIK_RECEIPT_V1\ncapsule_id:"@ + capsule_id + "\ninput_commit:"@ + input_commit
        + "\noutput_commit:"@ + output_commit + "\nfuel_used:"@ + decimal(metrics.fuel_used as nat)
        + "\nmemory_mb:"@ + memory_mb_text(metrics.memory_bytes) + "\nduration_ms:"@ + decimal(
        metrics.duration_ms as nat,
    ) + "\nhost_calls:"@ + decimal(metrics.host_function_calls as nat) + "\nnode_id:"@ + node_id
        + "\nnonce:"@ + decimal(nonce as nat) + "\ntimestamp:"@ + timestamp
}

impl ReceiptView {
    /// The text that this receipt's signature must cover.
    pub open spec fn payload(self) -> Seq<char> {
        signature_payload(
            self.capsule_id,
            self.input_commit,
            self.output_commit,
            self.exec_metrics,
            self.node_id,
            self.nonce,
            self.timestamp,
        )
    }

    /// The text whose commitment is the receipt's identifier.
    pub open spec fn id_text(self) -> Seq<char> {
        self.capsule_id + seq![':'] + self.input_commit + seq![':'] + self.output_commit + seq![
            ':',
        ] + self.node_id + seq![':'] + decimal(self.nonce as nat)
    }

    /// The receipt's identifier.
    pub open spec fn id(self) -> Seq<char> {
        commitment(encode_utf8(self.id_text()))
    }

    /// The stored signature is hexadecimal text for 64 bytes.
    pub open spec fn signature_well_formed(self) -> bool {
        is_hex_text(self.signature) && self.signature.len() == 128
    }

    /// The stored node identifier is hexadecimal text for 32 bytes.
    pub open spec fn node_id_well_formed(self) -> bool {
        is_hex_text(self.node_id) && self.node_id.len() == 64
    }

    /// What checking the stored signature against `key` gives: `None` where
    /// `key` is no public key, else whether the signature is accepted.
    pub open spec fn check(self, key: Seq<u8>) -> Option<bool> {
        ed25519_check(key, encode_utf8(self.payload()), hex_decoding(self.signature))
    }

    /// The verdict that `verify` owes on this receipt and `key`.
    pub open spec fn verdict(self, key: Seq<u8>, r: Result<bool, ReceiptError>) -> bool {
        if !self.signature_well_formed() {
            r matches Err(ReceiptError::InvalidFormat { .. })
        } else {
            match self.check(key) {
                None => r matches Err(ReceiptError::CryptographicError { .. }),
                Some(accepted) => r matches Ok(b) && b == accepted,
            }
        }
    }

    /// The verdict that `verify_node_signature` owes on this receipt.
    pub open spec fn node_verdict(self, r: Result<bool, ReceiptError>) -> bool {
        if !self.node_id_well_formed() {
            r matches Err(ReceiptError::InvalidFormat { .. })
        } else {
            self.verdict(hex_decoding(self.node_id), r)
        }
    }

    /// Whole seconds from the receipt's time to the instant
    /// (`now_seconds`, `now_nanos`), rounded toward zero; `None` where the
    /// timestamp is not RFC 3339.
    pub open spec fn age_seconds(self, now_seconds: int, now_nanos: int) -> Option<int> {
        match rfc3339_instant(self.timestamp) {
            None => None,
            Some((seconds, nanos)) => {
                let elapsed = (now_seconds - seconds) * 1000000000 + (now_nanos - nanos);
                if elapsed >= 0 {
                    Some(elapsed / 1000000000)
                } else {
                    Some(-((-elapsed) / 1000000000))
                }
            },
        }
    }

    /// A receipt is recent when its timestamp parses and its age is below
    /// `max_age_seconds`.
    pub open spec fn recent(self, max_age_seconds: u64, now_seconds: int, now_nanos: int) -> bool {
        match self.age_seconds(now_seconds, now_nanos) {
            None => false,
            Some(age) => age < max_age_seconds,
        }
    }
}

/// The receipt that a node with secret key `secret` issues at `timestamp`
/// for an execution of `capsule` on `input` that gave `output`.
pub open spec fn issued_receipt(
    capsule: Seq<u8>,
    input: Seq<u8>,
    output: Seq<u8>,
    metrics: ExecMetrics,
    secret: Seq<u8>,
    nonce: u64,
    timestamp: Seq<char>,
) -> ReceiptView {
    let capsule_id = commitment(capsule);
    let input_commit = commitment(input);
    let output_commit = commitment(output);
    let node_id = hex_encoding(ed25519_public_key(secret));
    let payload = signature_payload(
        capsule_id,
        input_commit,
        output_commit,
        metrics,
        node_id,
        nonce,
        timestamp,
    );
    ReceiptView {
        capsule_id,
        input_commit,
        output_commit,
        exec_metrics: metrics,
        node_id,
        nonce,
        signature: hex_encoding(ed25519_signature(secret, encode_utf8(payload))),
        timestamp,
        version: RECEIPT_VERSION@,
    }
}

/// Appends a memory size in megabytes with three decimals.
fn push_memory_mb(out: &mut String, bytes: u64)
    ensures
        final(out)@ == old(out)@ + memory_mb_text(bytes),
{
    let t: u128 = rounded_div(bytes as u128 * 1000, 1048576);
    push_decimal(out, t / 1000);
    out.push('.');
    push_decimal_padded(out, t % 1000, 3);
    proof {
        assert(old(out)@.push('.') =~= old(out)@ + seq!['.']);
        assert(final(out)@ =~= old(out)@ + memory_mb_text(bytes));
    }
}

/// Builds the text that is signed for a receipt with these fields.
pub fn signature_payload_text(
    capsule_id: &str,
    input_commit: &str,
    output_commit: &str,
    metrics: &ExecMetrics,
    node_id: &str,
    nonce: u64,
    timestamp: &str,
) -> (r: String)
    ensures
        r@ == signature_payload(
            capsule_id@,
            input_commit@,
            output_commit@,
            *metrics,
            node_id@,
            nonce,
            timestamp@,
        ),
{
    let mut out = String::new();
    out.append("TENZIK_RECEIPT_V1\ncapsule_id:");
    out.append(capsule_id);
    out.append("\ninput_commit:");
    out.append(input_commit);
    out.append("\noutput_commit:");
    out.append(output_commit);
    out.append("\nfuel_used:");
    push_decimal(&mut out, metrics.fuel_used as u128);
    out.append("\nmemory_mb:");
    push_memory_mb(&mut out, metrics.memory_bytes);
    out.append("\nduration_ms:");
    push_decimal(&mut out, metrics.duration_ms as u128);
    out.append("\nhost_calls:");
    push_decimal(&mut out, metrics.host_function_calls as u128);
    out.append("\nnode_id:");
    out.append(node_id);
    out.append("\nnonce:");
    push_decimal(&mut out, nonce as u128);
    out.append("\ntimestamp:");
    out.append(timestamp);
    proof {
        assert(out@ =~= signature_payload(
            capsule_id@,
            input_commit@,
            output_commit@,
            *metrics,
            node_id@,
            nonce,
            timestamp@,
        ));
    }
    out
}

impl ExecutionReceipt {
    /// Issues a receipt stamped with the current time.
    ///
    /// Every field but the timestamp is determined by the arguments, and the
    /// signature is the signer's over the payload that holds that timestamp.
    /// Verifying the receipt with the signer's public key, or with the key
    /// that its node identifier names, gives `Ok(true)`.
    pub fn new(
        capsule_bytes: &[u8],
        input_bytes: &[u8],
        output_bytes: &[u8],
        metrics: ExecMetrics,
        signing_key: &[u8; 32],
        nonce: u64,
    ) -> (r: Result<Self, ReceiptError>)
        ensures
            r matches Ok(receipt) && receipt@ == issued_receipt(
                capsule_bytes@,
                input_bytes@,
                output_bytes@,
                metrics,
                signing_key@,
                nonce,
                receipt.timestamp@,
            ) && receipt@.verdict(ed25519_public_key(signing_key@), Ok(true))
                && receipt@.node_verdict(Ok(true)),
    {
        let timestamp = current_timestamp_rfc3339();
        Ok(Self::with_timestamp(
            capsule_bytes,
            input_bytes,
            output_bytes,
            metrics,
            signing_key,
            nonce,
            timestamp,
        ))
    }

    /// Issues a receipt stamped with `timestamp`.
    ///
    /// Verifying the receipt with the signer's public key, or with the key
    /// that its node identifier names, gives `Ok(true)`.
    pub fn with_timestamp(
        capsule_bytes: &[u8],
        input_bytes: &[u8],
        output_bytes: &[u8],
        metrics: ExecMetrics,
        signing_key: &[u8; 32],
        nonce: u64,
        timestamp: String,
    ) -> (receipt: Self)
        ensures
            receipt@ == issued_receipt(
                capsule_bytes@,
                input_bytes@,
                output_bytes@,
                metrics,
                signing_key@,
                nonce,
                timestamp@,
            ),
            receipt@.verdict(ed25519_public_key(signing_key@), Ok(true)),
            receipt@.node_verdict(Ok(true)),
    {
        let capsule_id = commit(capsule_bytes);
        let input_commit = commit(input_bytes);
        let output_commit = commit(output_bytes);
        let public_key = derive_public_key(signing_key);
        let node_id = encode_hex(public_key.as_slice());
        let payload = signature_payload_text(
            capsule_id.as_str(),
            input_commit.as_str(),
            output_commit.as_str(),
            &metrics,
            node_id.as_str(),
            nonce,
            timestamp.as_str(),
        );
        let signature_bytes = sign_message(signing_key, payload.as_str().as_bytes());
        let signature = encode_hex(signature_bytes.as_slice());
        proof {
            lemma_hex_round_trip(signature_bytes@);
            lemma_hex_round_trip(public_key@);
        }
        ExecutionReceipt {
            capsule_id,
            input_commit,
            output_commit,
            exec_metrics: metrics,
            node_id,
            nonce,
            signature,
            timestamp,
            version: RECEIPT_VERSION.to_owned(),
        }
    }

    /// A copy of this receipt.
    pub fn duplicate(&self) -> (r: Self)
        ensures
            r@ == self@,
    {
        ExecutionReceipt {
            capsule_id: self.capsule_id.clone(),
            input_commit: self.input_commit.clone(),
            output_commit: self.output_commit.clone(),
            exec_metrics: self.exec_metrics,
            node_id: self.node_id.clone(),
            nonce: self.nonce,
            signature: self.signature.clone(),
            timestamp: self.timestamp.clone(),
            version: self.version.clone(),
        }
    }

    /// The text that this receipt's signature must cover.
    pub fn signing_payload(&self) -> (r: String)
        ensures
            r@ == self@.payload(),
    {
        signature_payload_text(
            self.capsule_id.as_str(),
            self.input_commit.as_str(),
            self.output_commit.as_str(),
            &self.exec_metrics,
            self.node_id.as_str(),
            self.nonce,
            self.timestamp.as_str(),
        )
    }

    /// Checks the stored signature against `verifying_key`.
    ///
    /// A signature that is not hexadecimal text for 64 bytes is an
    /// `InvalidFormat` error; 32 bytes that are no public key are a
    /// `CryptographicError`; otherwise the result says whether the key
    /// accepts the signature over the receipt's payload.
    pub fn verify(&self, verifying_key: &[u8; 32]) -> (r: Result<bool, ReceiptError>)
        ensures
            self@.verdict(verifying_key@, r),
    {
        self.verify_with(verifying_key.as_slice())
    }

    fn verify_with(&self, verifying_key: &[u8]) -> (r: Result<bool, ReceiptError>)
        requires
            verifying_key@.len() == 32,
        ensures
            self@.verdict(verifying_key@, r),
    {
        let payload = self.signing_payload();
        let signature_bytes = match decode_hex(self.signature.as_str()) {
            Ok(bytes) => bytes,
            Err(e) => {
                let mut reason = "Invalid signature hex: ".to_owned();
                reason.append(hex_error_message(&e).as_str());
                return Err(ReceiptError::InvalidFormat { reason });
            },
        };
        if signature_bytes.len() != 64 {
            return Err(
                ReceiptError::InvalidFormat { reason: "Invalid signature length".to_owned() },
            );
        }
        match check_signature(verifying_key, payload.as_str().as_bytes(), signature_bytes.as_slice()) {
            Some(accepted) => Ok(accepted),
            None => Err(
                ReceiptError::CryptographicError { reason: "Invalid public key".to_owned() },
            ),
        }
    }

    /// Checks the stored signature against the key that `node_id` names.
    ///
    /// A node identifier that is not hexadecimal text for 32 bytes is an
    /// `InvalidFormat` error; otherwise the result is that of `verify` with
    /// the decoded key.
    pub fn verify_node_signature(&self) -> (r: Result<bool, ReceiptError>)
        ensures
            self@.node_verdict(r),
    {
        let public_key_bytes = match decode_hex(self.node_id.as_str()) {
            Ok(bytes) => bytes,
            Err(e) => {
                let mut reason = "Invalid node_id hex: ".to_owned();
                reason.append(hex_error_message(&e).as_str());
                return Err(ReceiptError::InvalidFormat { reason });
            },
        };
        if public_key_bytes.len() != 32 {
            return Err(
                ReceiptError::InvalidFormat { reason: "Invalid public key length".to_owned() },
            );
        }
        self.verify_with(public_key_bytes.as_slice())
    }

    /// The receipt's identifier: the commitment to its capsule, input,
    /// output, node and nonce. Neither the timestamp nor the metrics enter.
    pub fn receipt_id(&self) -> (r: String)
        ensures
            r@ == self@.id(),
    {
        let mut content = String::new();
        content.append(self.capsule_id.as_str());
        content.push(':');
        content.append(self.input_commit.as_str());
        content.push(':');
        content.append(self.output_commit.as_str());
        content.push(':');
        content.append(self.node_id.as_str());
        content.push(':');
        push_decimal(&mut content, self.nonce as u128);
        proof {
            assert(content@ =~= self@.id_text());
        }
        commit(content.as_str().as_bytes())
    }

    /// Whether the receipt is younger than `max_age_seconds` now. The answer
    /// is that of `is_recent_at` for some current instant.
    pub fn is_recent(&self, max_age_seconds: u64) -> (r: bool)
        ensures
            r ==> rfc3339_instant(self@.timestamp) is Some,
            exists|now_seconds: int, now_nanos: int|
                r == #[trigger] self@.recent(max_age_seconds, now_seconds, now_nanos),
    {
        let (now_seconds, now_nanos) = current_instant();
        let r = self.is_recent_at(max_age_seconds, now_seconds, now_nanos);
        assert(r == self@.recent(max_age_seconds, now_seconds as int, now_nanos as int));
        r
    }

    /// Whether the receipt is younger than `max_age_seconds` at the instant
    /// of `now_seconds` seconds and `now_nanos` nanoseconds since the Unix
    /// epoch. A timestamp that does not parse is never recent.
    pub fn is_recent_at(&self, max_age_seconds: u64, now_seconds: i64, now_nanos: u32) -> (r: bool)
        ensures
            r == self@.recent(max_age_seconds, now_seconds as int, now_nanos as int),
    {
        match parse_rfc3339(self.timestamp.as_str()) {
            None => false,
            Some((seconds, nanos)) => {
                let elapsed: i128 = (now_seconds as i128 - seconds as i128) * 1000000000 + (
                now_nanos as i128 - nanos as i128);
                let age: i128 = if elapsed >= 0 {
                    elapsed / 1000000000
                } else {
                    -((-elapsed) / 1000000000)
                };
                age < max_age_seconds as i128
            },
        }
    }
}

/// Two receipts that agree on capsule, input, output, node and nonce have
/// the same identifier, whatever their timestamps, metrics and signatures.
pub proof fn lemma_receipt_id_ignores_time_and_metrics(a: ReceiptView, b: ReceiptView)
    requires
        a.capsule_id == b.capsule_id,
        a.input_commit == b.input_commit,
        a.output_commit == b.output_commit,
        a.node_id == b.node_id,
        a.nonce == b.nonce,
    ensures
        a.id() == b.id(),
{
}

/// Checks receipts for a valid node signature and for freshness.
pub struct ReceiptVerifier {
    /// Receipts of this age in seconds, or older, are refused.
    pub max_receipt_age_seconds: u64,
}

impl Default for ReceiptVerifier {
    fn default() -> (r: Self)
        ensures
            r.max_receipt_age_seconds == 3600,
    {
        ReceiptVerifier { max_receipt_age_seconds: 3600 }
    }
}

impl ReceiptVerifier {
    pub fn new(max_receipt_age_seconds: u64) -> (r: Self)
        ensures
            r.max_receipt_age_seconds == max_receipt_age_seconds,
    {
        ReceiptVerifier { max_receipt_age_seconds }
    }

    /// The answer that the verifier owes on `receipt` at the given instant:
    /// the signature error if the node signature cannot be checked, else
    /// whether the signature is accepted and the receipt is recent.
    pub open spec fn judgement(
        &self,
        receipt: ReceiptView,
        now_seconds: int,
        now_nanos: int,
        r: Result<bool, ReceiptError>,
    ) -> bool {
        if !receipt.node_id_well_formed() || !receipt.signature_well_formed() {
            r matches Err(ReceiptError::InvalidFormat { .. })
        } else {
            match receipt.check(hex_decoding(receipt.node_id)) {
                None => r matches Err(ReceiptError::CryptographicError { .. }),
                Some(accepted) => r matches Ok(b) && b == (accepted && receipt.recent(
                    self.max_receipt_age_seconds,
                    now_seconds,
                    now_nanos,
                )),
            }
        }
    }

    /// Verifies signature and freshness now. The answer is that of
    /// `verify_receipt_at` for some current instant.
    pub fn verify_receipt(&self, receipt: &ExecutionReceipt) -> (r: Result<bool, ReceiptError>)
        ensures
            exists|now_seconds: int, now_nanos: int| #[trigger]
                self.judgement(receipt@, now_seconds, now_nanos, r),
    {
        let (now_seconds, now_nanos) = current_instant();
        let r = self.verify_receipt_at(receipt, now_seconds, now_nanos);
        assert(self.judgement(receipt@, now_seconds as int, now_nanos as int, r));
        r
    }

    /// Verifies signature and freshness at a given instant.
    pub fn verify_receipt_at(
        &self,
        receipt: &ExecutionReceipt,
        now_seconds: i64,
        now_nanos: u32,
    ) -> (r: Result<bool, ReceiptError>)
        ensures
            self.judgement(receipt@, now_seconds as int, now_nanos as int, r),
    {
        match receipt.verify_node_signature() {
            Err(e) => Err(e),
            Ok(false) => Ok(false),
            Ok(true) => Ok(receipt.is_recent_at(self.max_receipt_age_seconds, now_seconds, now_nanos)),
        }
    }

    /// Each answer is the one owed on the receipt in the same place, all at
    /// one instant.
    pub open spec fn judgements(
        &self,
        receipts: Seq<ExecutionReceipt>,
        now_seconds: int,
        now_nanos: int,
        answers: Seq<Result<bool, ReceiptError>>,
    ) -> bool {
        &&& answers.len() == receipts.len()
        &&& forall|i: int|
            0 <= i < receipts.len() ==> #[trigger] self.judgement(
                receipts[i]@,
                now_seconds,
                now_nanos,
                answers[i],
            )
    }

    /// Verifies each receipt in turn, all at one current instant.
    pub fn verify_receipts(&self, receipts: &[ExecutionReceipt]) -> (r: Vec<Result<bool, ReceiptError>>)
        ensures
            exists|now_seconds: int, now_nanos: int| #[trigger]
                self.judgements(receipts@, now_seconds, now_nanos, r@),
    {
        let (now_seconds, now_nanos) = current_instant();
        let mut results: Vec<Result<bool, ReceiptError>> = Vec::new();
        let mut i: usize = 0;
        while i < receipts.len()
            invariant
                i <= receipts@.len(),
                results@.len() == i,
                forall|j: int|
                    0 <= j < i ==> #[trigger] self.judgement(
                        receipts@[j]@,
                        now_seconds as int,
                        now_nanos as int,
                        results@[j],
                    ),
            decreases receipts@.len() - i,
        {
            let verdict = self.verify_receipt_at(&receipts[i], now_seconds, now_nanos);
            results.push(verdict);
            i += 1;
        }
        assert(self.judgements(receipts@, now_seconds as int, now_nanos as int, results@));
        results
    }
}

/// A fresh random signing key, for tests and development.
pub fn generate_test_signing_key() -> (r: [u8; 32])
{
    generate_secret_key()
}

/// The public key that belongs to a signing key.
pub fn public_key_of(signing_key: &[u8; 32]) -> (r: [u8; 32])
    ensures
        r@ == ed25519_public_key(signing_key@),
{
    derive_public_key(signing_key)
}

} // verus!
