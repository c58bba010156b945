use ed25519_dalek::{Signature, Signer, SigningKey, Verifier, VerifyingKey};
use tenzik_core::hexcode::{hex_decode, hex_encode};
use tenzik_core::receipts::{
    generate_test_signing_key, public_key_of, signature_payload_text, ExecMetrics, ExecutionReceipt,
    ReceiptError, ReceiptVerifier, RECEIPT_VERSION,
};

const MB: u64 = 1024 * 1024;

fn fixed_receipt(key: &[u8; 32], nonce: u64, timestamp: &str) -> ExecutionReceipt {
    ExecutionReceipt::with_timestamp(
        b"test",
        b"input",
        b"output",
        ExecMetrics::default(),
        key,
        nonce,
        timestamp.to_string(),
    )
}

#[test]
fn test_receipt_creation_and_verification() {
    let signing_key = generate_test_signing_key();
    let verifying_key = public_key_of(&signing_key);

    let capsule_bytes = b"test capsule";
    let input_bytes = b"{\"test\": \"input\"}";
    let output_bytes = b"{\"test\": \"output\"}";
    let metrics = ExecMetrics {
        fuel_used: 1000,
        memory_bytes: 2 * MB + MB / 2,
        duration_ms: 50,
        host_function_calls: 3,
    };

    let receipt = ExecutionReceipt::new(
        capsule_bytes,
        input_bytes,
        output_bytes,
        metrics,
        &signing_key,
        12345,
    )
    .unwrap();

    assert!(receipt.verify(&verifying_key).unwrap());
    assert!(receipt.verify_node_signature().unwrap());
}

#[test]
fn test_receipt_id_generation() {
    let signing_key = generate_test_signing_key();

    let receipt1 =
        ExecutionReceipt::new(b"test", b"input", b"output", ExecMetrics::default(), &signing_key, 42)
            .unwrap();

    let receipt2 =
        ExecutionReceipt::new(b"test", b"input", b"output", ExecMetrics::default(), &signing_key, 42)
            .unwrap();

    // Same inputs should produce same receipt ID
    assert_eq!(receipt1.receipt_id(), receipt2.receipt_id());
}

#[test]
fn test_receipt_verification_failure() {
    let signing_key1 = generate_test_signing_key();
    let signing_key2 = generate_test_signing_key();
    let verifying_key2 = public_key_of(&signing_key2);

    let receipt =
        ExecutionReceipt::new(b"test", b"input", b"output", ExecMetrics::default(), &signing_key1, 42)
            .unwrap();

    // Verification with wrong key should fail
    assert!(!receipt.verify(&verifying_key2).unwrap());
}

#[test]
fn test_receipt_age_checking() {
    let signing_key = generate_test_signing_key();

    let receipt =
        ExecutionReceipt::new(b"test", b"input", b"output", ExecMetrics::default(), &signing_key, 42)
            .unwrap();

    // Fresh receipt should be recent
    assert!(receipt.is_recent(3600)); // 1 hour

    // Even very strict age limit should accept fresh receipt
    assert!(receipt.is_recent(60)); // 1 minute
}

#[test]
fn test_receipt_verifier() {
    let verifier = ReceiptVerifier::new(3600);
    let signing_key = generate_test_signing_key();

    let receipt =
        ExecutionReceipt::new(b"test", b"input", b"output", ExecMetrics::default(), &signing_key, 42)
            .unwrap();

    assert!(verifier.verify_receipt(&receipt).unwrap());
}

#[test]
fn receipt_fields_are_the_commitments_and_the_signer() {
    let key = [7u8; 32];
    let receipt = fixed_receipt(&key, 9, "2024-05-01T12:00:00+00:00");
    assert_eq!(receipt.capsule_id, blake3::hash(b"test").to_hex().to_string());
    assert_eq!(receipt.input_commit, blake3::hash(b"input").to_hex().to_string());
    assert_eq!(receipt.output_commit, blake3::hash(b"output").to_hex().to_string());
    assert_eq!(
        ExecutionReceipt::with_timestamp(b"", b"", b"", ExecMetrics::default(), &key, 1, String::new())
            .capsule_id,
        "af1349b9f5f9a1a6a0404dea36dcc9499bcb25c9adc112b7cc9a93cae41f3262"
    );
    let dalek = SigningKey::from_bytes(&key);
    assert_eq!(public_key_of(&key), dalek.verifying_key().to_bytes());
    assert_eq!(receipt.node_id, hex_encode(&dalek.verifying_key().to_bytes()));
    assert_eq!(receipt.node_id.len(), 64);
    assert_eq!(receipt.nonce, 9);
    assert_eq!(receipt.timestamp, "2024-05-01T12:00:00+00:00");
    assert_eq!(receipt.version, "1.0.0");
    assert_eq!(RECEIPT_VERSION, "1.0.0");
    assert_eq!(receipt.exec_metrics, ExecMetrics::default());
    assert_eq!(receipt.signature.len(), 128);
}

#[test]
fn signing_payload_is_the_exact_text() {
    let metrics = ExecMetrics {
        fuel_used: 1000,
        memory_bytes: 2 * MB + MB / 2,
        duration_ms: 50,
        host_function_calls: 3,
    };
    let payload = signature_payload_text("cap", "in", "out", &metrics, "node", 12345, "2024-05-01T12:00:00Z");
    assert_eq!(
        payload,
        "TENZIK_RECEIPT_V1\ncapsule_id:cap\ninput_commit:in\noutput_commit:out\nfuel_used:1000\n\
         memory_mb:2.500\nduration_ms:50\nhost_calls:3\nnode_id:node\nnonce:12345\n\
         timestamp:2024-05-01T12:00:00Z"
    );
    let receipt = fixed_receipt(&[1u8; 32], 5, "t");
    assert_eq!(
        receipt.signing_payload(),
        signature_payload_text(
            &receipt.capsule_id,
            &receipt.input_commit,
            &receipt.output_commit,
            &receipt.exec_metrics,
            &receipt.node_id,
            5,
            "t"
        )
    );
}

#[test]
fn memory_is_printed_as_the_float_would_be() {
    let sizes: [u64; 14] = [
        0,
        1,
        523,
        524,
        525,
        65536,
        3 * 65536,
        5 * 65536,
        MB,
        2 * MB + MB / 2,
        16 * MB + 3 * MB / 4,
        64 * MB,
        1_000_000_007,
        u32::MAX as u64,
    ];
    for bytes in sizes {
        let metrics = ExecMetrics { memory_bytes: bytes, ..ExecMetrics::default() };
        let payload = signature_payload_text("", "", "", &metrics, "", 0, "");
        let expected = format!("\nmemory_mb:{:.3}\n", bytes as f64 / (1024.0 * 1024.0));
        assert!(payload.contains(&expected), "{bytes}: {payload:?} lacks {expected:?}");
    }
    let metrics = ExecMetrics { memory_bytes: 65536, ..ExecMetrics::default() };
    assert!(signature_payload_text("", "", "", &metrics, "", 0, "").contains("\nmemory_mb:0.062\n"));
    let metrics = ExecMetrics { memory_bytes: 3 * 65536, ..ExecMetrics::default() };
    assert!(signature_payload_text("", "", "", &metrics, "", 0, "").contains("\nmemory_mb:0.188\n"));
}

#[test]
fn the_signature_is_the_signers_over_the_payload() {
    let key = [3u8; 32];
    let receipt = fixed_receipt(&key, 1, "2024-05-01T12:00:00Z");
    let dalek = SigningKey::from_bytes(&key);
    let payload = receipt.signing_payload();
    assert_eq!(receipt.signature, hex_encode(&dalek.sign(payload.as_bytes()).to_bytes()));
    let signature = Signature::from_slice(&hex_decode(&receipt.signature).unwrap()).unwrap();
    assert!(dalek.verifying_key().verify(payload.as_bytes(), &signature).is_ok());
    assert_eq!(receipt.verify(&dalek.verifying_key().to_bytes()).unwrap(), true);
    assert_eq!(receipt.verify_node_signature().unwrap(), true);
}

#[test]
fn a_changed_field_fails_verification_without_error() {
    let key = [3u8; 32];
    let public = public_key_of(&key);
    let mut receipt = fixed_receipt(&key, 1, "2024-05-01T12:00:00Z");
    receipt.nonce = 2;
    assert_eq!(receipt.verify(&public).unwrap(), false);
    assert_eq!(receipt.verify_node_signature().unwrap(), false);
    let mut receipt = fixed_receipt(&key, 1, "2024-05-01T12:00:00Z");
    receipt.exec_metrics.memory_bytes = MB;
    assert_eq!(receipt.verify(&public).unwrap(), false);
    let mut receipt = fixed_receipt(&key, 1, "2024-05-01T12:00:00Z");
    receipt.signature = receipt.signature.to_uppercase();
    assert_eq!(receipt.verify(&public).unwrap(), true);
}

#[test]
fn malformed_signatures_and_keys_are_errors() {
    let key = [3u8; 32];
    let public = public_key_of(&key);
    let mut receipt = fixed_receipt(&key, 1, "2024-05-01T12:00:00Z");
    receipt.signature = "zz".repeat(64);
    assert!(matches!(receipt.verify(&public), Err(ReceiptError::InvalidFormat { .. })));
    receipt.signature = "ab".repeat(63);
    assert!(matches!(receipt.verify(&public), Err(ReceiptError::InvalidFormat { .. })));
    receipt.signature = "abc".to_string();
    assert!(matches!(receipt.verify(&public), Err(ReceiptError::InvalidFormat { .. })));
    receipt.signature = String::new();
    assert!(matches!(receipt.verify_node_signature(), Err(ReceiptError::InvalidFormat { .. })));

    let mut receipt = fixed_receipt(&key, 1, "2024-05-01T12:00:00Z");
    receipt.node_id = "not hex".to_string();
    assert!(matches!(receipt.verify_node_signature(), Err(ReceiptError::InvalidFormat { .. })));
    receipt.node_id = "abcd".to_string();
    assert!(matches!(receipt.verify_node_signature(), Err(ReceiptError::InvalidFormat { .. })));

    // 32 bytes that are no point of the curve
    let mut bad = None;
    for candidate in 0u8..=255 {
        let mut bytes = [candidate; 32];
        bytes[31] &= 0x7f;
        if VerifyingKey::from_bytes(&bytes).is_err() {
            bad = Some(bytes);
            break;
        }
    }
    let bad = bad.expect("some byte pattern is no public key");
    let receipt = fixed_receipt(&key, 1, "2024-05-01T12:00:00Z");
    assert!(matches!(receipt.verify(&bad), Err(ReceiptError::CryptographicError { .. })));
    let mut receipt = fixed_receipt(&key, 1, "2024-05-01T12:00:00Z");
    receipt.node_id = hex_encode(&bad);
    assert!(matches!(
        receipt.verify_node_signature(),
        Err(ReceiptError::CryptographicError { .. })
    ));
}

#[test]
fn receipt_id_ignores_time_and_metrics() {
    let key = [5u8; 32];
    let a = fixed_receipt(&key, 7, "2024-05-01T12:00:00Z");
    let b = ExecutionReceipt::with_timestamp(
        b"test",
        b"input",
        b"output",
        ExecMetrics { fuel_used: 9, memory_bytes: 77, duration_ms: 3, host_function_calls: 1 },
        &key,
        7,
        "1999-01-01T00:00:00Z".to_string(),
    );
    assert_eq!(a.receipt_id(), b.receipt_id());
    let content = format!(
        "{}:{}:{}:{}:{}",
        a.capsule_id, a.input_commit, a.output_commit, a.node_id, a.nonce
    );
    assert_eq!(a.receipt_id(), blake3::hash(content.as_bytes()).to_hex().to_string());
    assert_ne!(a.receipt_id(), fixed_receipt(&key, 8, "2024-05-01T12:00:00Z").receipt_id());
    assert_ne!(a.receipt_id(), fixed_receipt(&[6u8; 32], 7, "2024-05-01T12:00:00Z").receipt_id());
    assert_eq!(a.duplicate().receipt_id(), a.receipt_id());
}

#[test]
fn age_is_counted_in_whole_seconds_from_the_timestamp() {
    let key = [5u8; 32];
    // 2024-05-01T12:00:00Z is 1714564800 seconds after the epoch
    let receipt = fixed_receipt(&key, 1, "2024-05-01T12:00:00Z");
    assert!(receipt.is_recent_at(60, 1714564800, 0));
    assert!(receipt.is_recent_at(60, 1714564859, 999_999_999));
    assert!(!receipt.is_recent_at(60, 1714564860, 0));
    assert!(!receipt.is_recent_at(0, 1714564800, 0));
    assert!(receipt.is_recent_at(1, 1714564800, 999_999_999));
    // a receipt from the future has a negative age
    assert!(receipt.is_recent_at(1, 1714564000, 0));
    assert!(!receipt.is_recent_at(0, 1714564800, 500));
    assert!(receipt.is_recent_at(0, 1714564798, 999_999_999));
    assert!(receipt.is_recent_at(u64::MAX, i64::MAX, 0));
    // offsets and fractions are honoured
    let shifted = fixed_receipt(&key, 1, "2024-05-01T14:00:00.500+02:00");
    assert!(shifted.is_recent_at(1, 1714564801, 499_999_999));
    assert!(!shifted.is_recent_at(1, 1714564801, 500_000_000));
    // a timestamp that does not parse is never recent
    let broken = fixed_receipt(&key, 1, "yesterday");
    assert!(!broken.is_recent_at(u64::MAX, 0, 0));
    assert!(!broken.is_recent(u64::MAX));
}

#[test]
fn the_verifier_asks_for_signature_and_freshness() {
    let key = [5u8; 32];
    let verifier = ReceiptVerifier::new(60);
    assert_eq!(verifier.max_receipt_age_seconds, 60);
    assert_eq!(ReceiptVerifier::default().max_receipt_age_seconds, 3600);
    let receipt = fixed_receipt(&key, 1, "2024-05-01T12:00:00Z");
    assert_eq!(verifier.verify_receipt_at(&receipt, 1714564830, 0).unwrap(), true);
    assert_eq!(verifier.verify_receipt_at(&receipt, 1714564860, 0).unwrap(), false);
    assert_eq!(verifier.verify_receipt(&receipt).unwrap(), false);
    let mut forged = fixed_receipt(&key, 1, "2024-05-01T12:00:00Z");
    forged.nonce = 2;
    assert_eq!(verifier.verify_receipt_at(&forged, 1714564830, 0).unwrap(), false);
    let mut broken = fixed_receipt(&key, 1, "2024-05-01T12:00:00Z");
    broken.signature = "xyz".to_string();
    assert!(matches!(
        verifier.verify_receipt_at(&broken, 1714564830, 0),
        Err(ReceiptError::InvalidFormat { .. })
    ));
    let fresh = ExecutionReceipt::new(b"c", b"i", b"o", ExecMetrics::default(), &key, 3).unwrap();
    let results = ReceiptVerifier::default().verify_receipts(&[fresh, forged, broken]);
    assert_eq!(results.len(), 3);
    assert_eq!(*results[0].as_ref().unwrap(), true);
    assert_eq!(*results[1].as_ref().unwrap(), false);
    assert!(results[2].is_err());
}

#[test]
fn default_metrics_are_zero() {
    let metrics = ExecMetrics::default();
    assert_eq!(metrics.fuel_used, 0);
    assert_eq!(metrics.memory_bytes, 0);
    assert_eq!(metrics.duration_ms, 0);
    assert_eq!(metrics.host_function_calls, 0);
}
