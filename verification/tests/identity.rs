use nyanpasu_core_manager::{
    payload_digest, ConfigInput, CoreCommand, CoreSpec, InstanceOptions, OperationId,
    ParseOperationIdError, ReconcileRequest, RevisionId,
};

fn reconcile() -> ReconcileRequest {
    ReconcileRequest {
        core: CoreSpec {
            kind: "mihomo".to_string(),
            binary_path: "/opt/mihomo".to_string(),
            version: Some("v1.19.0".to_string()),
            features: vec!["gvisor".to_string(), "lwip".to_string()],
        },
        config: ConfigInput::inline(b"mode: rule\n".to_vec()),
        options: InstanceOptions::default(),
        expected_applied: Some(RevisionId { name: "r7".to_string() }),
    }
}

fn digest_of(request: ReconcileRequest) -> String {
    CoreCommand::Reconcile(Box::new(request)).payload_digest()
}

#[test]
fn operation_ids_roundtrip_through_hex() {
    let id = OperationId::from_bytes([
        0x00, 0x01, 0x0a, 0x10, 0x7f, 0x80, 0xff, 0x42, 0x00, 0x01, 0x0a, 0x10, 0x7f, 0x80, 0xff,
        0x42,
    ]);
    let text = id.to_string();
    assert_eq!(text.len(), 32);
    assert_eq!(OperationId::from_str(&text).unwrap(), id);
}

#[test]
fn malformed_operation_ids_are_rejected() {
    for bad in ["", "abc", &"a".repeat(31), &"g".repeat(32), &"a".repeat(33)] {
        assert_eq!(OperationId::from_str(bad), Err(ParseOperationIdError));
    }
}

#[test]
fn generated_operation_ids_differ() {
    assert_ne!(
        OperationId::generate(1_700_000_000_000_000_000, 4242, 0),
        OperationId::generate(1_700_000_000_000_000_000, 4242, 1)
    );
}

#[test]
fn the_payload_digest_is_stable_and_content_sensitive() {
    assert_eq!(payload_digest(b"abc"), payload_digest(b"abc"));
    assert_ne!(payload_digest(b"abc"), payload_digest(b"abd"));
    // Pinned so a silent algorithm change cannot slip past the idempotency
    // registry's stored digests.
    assert_eq!(payload_digest(b""), "cbf29ce484222325");
}

#[test]
fn an_id_is_written_in_lowercase_digits() {
    let id = OperationId::from_bytes([
        0x00, 0x12, 0x34, 0x56, 0x78, 0x9a, 0xbc, 0xde, 0xf0, 0x0f, 0xa5, 0x5a, 0x01, 0x10, 0xfe,
        0xef,
    ]);
    assert_eq!(id.to_string(), "00123456789abcdef00fa55a0110feef");
    assert_eq!(id.as_bytes()[5], 0x9a);
    assert_eq!(
        OperationId::from_str("00123456789abcdef00fa55a0110feef").unwrap(),
        id
    );
}

#[test]
fn an_id_is_read_from_lowercase_digits_only() {
    for bad in [
        "00123456789ABCDEF00FA55A0110FEEF",
        "AAAAAAAAAAAAAAAAAAAAAAAAAAAAAAAA",
        "+a+a+a+a+a+a+a+a+a+a+a+a+a+a+a+a",
        "a+000000000000000000000000000000",
        "-1000000000000000000000000000000",
        " 1000000000000000000000000000000",
        "0000000000000000000000000000000g",
        "é000000000000000000000000000000",
        "éééééééééééééééé",
    ] {
        assert_eq!(OperationId::from_str(bad), Err(ParseOperationIdError));
    }
    let text = "0123456789abcdef0123456789abcdef";
    assert_eq!(OperationId::from_str(text).unwrap().to_string(), text);
}

#[test]
fn a_malformed_id_says_what_an_id_is() {
    assert_eq!(
        ParseOperationIdError.to_string(),
        "an operation id is exactly 32 lowercase hex characters"
    );
}

#[test]
fn a_generated_id_is_clock_process_and_counter() {
    let id = OperationId::generate(0x1122_3344_5566_7788, 0x0102_0304, 0xa0b0_c0d0);
    assert_eq!(id.to_string(), "112233445566778801020304a0b0c0d0");
    let wrapped = OperationId::generate(0x99_1122_3344_5566_7788, 0x0102_0304, 0xa0b0_c0d0);
    assert_eq!(wrapped, id);
    assert_ne!(OperationId::generate(1, 2, 3), OperationId::generate(1, 3, 3));
    assert_ne!(OperationId::generate(1, 2, 3), OperationId::generate(2, 2, 3));
}

#[test]
fn digests_have_their_known_values() {
    assert_eq!(payload_digest(b"abc"), "e71fa2190541574b");
    assert_eq!(payload_digest(b"mode: rule\n"), "66b10ec0d60ba874");
}

#[test]
fn one_changed_byte_changes_the_digest() {
    let payload = b"external-controller: 127.0.0.1:9090\n".to_vec();
    let digest = payload_digest(&payload);
    for i in 0..payload.len() {
        let mut changed = payload.clone();
        changed[i] ^= 0x20;
        assert_ne!(payload_digest(&changed), digest);
    }
}

#[test]
fn plain_commands_have_their_own_digests() {
    assert_eq!(CoreCommand::Stop.payload_digest(), "af1f52191db2bcc5");
    assert_eq!(CoreCommand::Recover.payload_digest(), "c6c273f1c63f0dfb");
    assert_eq!(CoreCommand::Shutdown.payload_digest(), "f87c7eeffc6c020b");
    assert!(CoreCommand::Shutdown.is_shutdown());
    assert!(!CoreCommand::Stop.is_shutdown());
}

#[test]
fn a_reconcile_is_identified_by_core_config_and_token() {
    assert_eq!(digest_of(reconcile()), "a70cec442231f676");
    let mut bare = reconcile();
    bare.core.version = None;
    bare.core.features.clear();
    bare.expected_applied = None;
    assert_eq!(digest_of(bare.clone()), "86d6b888b2758711");
    bare.config = ConfigInput::inline(vec![b'a'; 300]);
    assert_eq!(digest_of(bare), "16ec7638e6f2cbbf");
}

#[test]
fn tuning_and_a_declared_digest_are_not_identity() {
    let mut tuned = reconcile();
    tuned.options.settings.push(("grace".to_string(), "5s".to_string()));
    assert_eq!(digest_of(tuned), digest_of(reconcile()));
    let mut declared = reconcile();
    declared.config = ConfigInput::Inline {
        bytes: b"mode: rule\n".to_vec(),
        expected_digest: Some("66b10ec0d60ba874".to_string()),
    };
    assert_eq!(digest_of(declared), digest_of(reconcile()));
}

#[test]
fn each_identity_field_changes_the_digest() {
    let digest = digest_of(reconcile());
    let mut kind = reconcile();
    kind.core.kind = "clash-rs".to_string();
    assert_ne!(digest_of(kind), digest);
    let mut path = reconcile();
    path.core.binary_path = "/opt/other".to_string();
    assert_ne!(digest_of(path), digest);
    let mut version = reconcile();
    version.core.version = None;
    assert_ne!(digest_of(version), digest);
    let mut features = reconcile();
    features.core.features.swap(0, 1);
    assert_ne!(digest_of(features), digest);
    let mut token = reconcile();
    token.expected_applied = None;
    assert_ne!(digest_of(token), digest);
    let mut config = reconcile();
    config.config = ConfigInput::inline(b"mode: rulf\n".to_vec());
    assert_ne!(digest_of(config), digest);
}

#[test]
fn the_parts_of_an_identity_do_not_run_together() {
    let request = |features: Vec<&str>, config: &[u8]| {
        let mut request = reconcile();
        request.expected_applied = None;
        request.core.features = features.into_iter().map(|name| name.to_string()).collect();
        request.config = ConfigInput::inline(config.to_vec());
        request
    };
    assert_ne!(digest_of(request(vec![""], b"x")), digest_of(request(vec![], b"\0x")));
    assert_ne!(digest_of(request(vec!["ab"], b"")), digest_of(request(vec!["a", "b"], b"")));
    assert_ne!(digest_of(request(vec!["a"], b"")), digest_of(request(vec!["a", ""], b"")));
    assert_ne!(digest_of(request(vec!["a\0b"], b"")), digest_of(request(vec!["a", "b"], b"")));

    let mut absent = reconcile();
    absent.core.version = None;
    let mut empty = reconcile();
    empty.core.version = Some(String::new());
    assert_ne!(digest_of(absent), digest_of(empty));
    let mut absent = reconcile();
    absent.expected_applied = None;
    let mut empty = reconcile();
    empty.expected_applied = Some(RevisionId { name: String::new() });
    assert_ne!(digest_of(absent), digest_of(empty));
}

#[test]
fn a_common_tail_keeps_digests_apart() {
    assert_ne!(payload_digest(b"abc tail"), payload_digest(b"abd tail"));
    assert_ne!(payload_digest(b"a tail"), payload_digest(b"ab tail"));
}

#[test]
fn an_inline_config_declares_no_digest() {
    assert_eq!(
        ConfigInput::inline(vec![1, 2]),
        ConfigInput::Inline { bytes: vec![1, 2], expected_digest: None }
    );
}
