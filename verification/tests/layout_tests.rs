use multikey_layouts::envelope::AccountSignature;
use multikey_layouts::envelope::AccountSignatureKind;
use multikey_layouts::envelope::AnyPublicKey;
use multikey_layouts::envelope::IndexedSignature;
use multikey_layouts::envelope::MultiKeyPayload;
use multikey_layouts::envelope::SignatureEnvelope;
use multikey_layouts::envelope::SingleSenderPayload;
use multikey_layouts::envelope::TransactionSignatureKind;
use multikey_layouts::hexstr::decode_hex;
use multikey_layouts::layout::LayoutError;
use multikey_layouts::layout::MultiKeyLayout;

fn key(tag: i32, bytes: &[u8]) -> AnyPublicKey {
    AnyPublicKey { scheme_tag: tag, public_key: bytes.to_vec() }
}

fn payload(keys: Vec<AnyPublicKey>, slots: &[u32], required: u32) -> MultiKeyPayload {
    MultiKeyPayload {
        public_keys: keys,
        signatures: slots.iter().map(|&index| IndexedSignature { index }).collect(),
        signatures_required: required,
    }
}

fn multikey_envelope(p: MultiKeyPayload) -> SignatureEnvelope {
    SignatureEnvelope {
        signature: Some(TransactionSignatureKind::SingleSender(SingleSenderPayload {
            sender: Some(AccountSignature {
                signature: Some(AccountSignatureKind::MultiKey(p)),
            }),
        })),
    }
}

#[test]
fn expands_example_payload() {
    let p = payload(vec![key(1, &[0xAA]), key(2, &[0xBB])], &[1], 1);
    let records = MultiKeyLayout::parse_multikey_layout(&p, "0x1", 7, 3);
    assert_eq!(records.len(), 2);

    assert_eq!(records[0].transaction_version, 7);
    assert_eq!(records[0].transaction_block_height, 3);
    assert_eq!(records[0].signer, "0x1");
    assert_eq!(records[0].type_, "ed25519");
    assert_eq!(records[0].public_key, "0xaa");
    assert_eq!(records[0].public_key_index, 0);
    assert_eq!(records[0].threshold, 1);
    assert_eq!(records[0].total_public_keys, 2);
    assert!(!records[0].is_used);

    assert_eq!(records[1].signer, "0x1");
    assert_eq!(records[1].type_, "secp256k1_ecdsa");
    assert_eq!(records[1].public_key, "0xbb");
    assert_eq!(records[1].public_key_index, 1);
    assert_eq!(records[1].threshold, 1);
    assert_eq!(records[1].total_public_keys, 2);
    assert!(records[1].is_used);
}

#[test]
fn one_record_per_declared_key() {
    let p = payload(
        vec![key(1, &[1, 2]), key(4, &[3]), key(3, &[]), key(0, &[9, 9, 9])],
        &[0, 2],
        2,
    );
    let records = MultiKeyLayout::parse_multikey_layout(&p, "0xabc", 11, 5);
    assert_eq!(records.len(), 4);
    for (i, r) in records.iter().enumerate() {
        assert_eq!(r.public_key_index, i as i64);
        assert_eq!(r.total_public_keys, 4);
        assert_eq!(r.threshold, 2);
        assert_eq!(r.signer, "0xabc");
    }
    assert!(records[0].is_used);
    assert!(!records[1].is_used);
    assert!(records[2].is_used);
    assert!(!records[3].is_used);
}

#[test]
fn scheme_labels_cover_known_table_and_fallback() {
    let p = payload(
        vec![key(1, &[]), key(2, &[]), key(3, &[]), key(4, &[]), key(0, &[]), key(99, &[])],
        &[],
        0,
    );
    let records = MultiKeyLayout::parse_multikey_layout(&p, "0x1", 0, 0);
    let labels: Vec<&str> = records.iter().map(|r| r.type_.as_str()).collect();
    assert_eq!(
        labels,
        vec!["ed25519", "secp256k1_ecdsa", "secp256r1_ecdsa", "keyless", "unspecified", "unspecified"]
    );
}

#[test]
fn unknown_scheme_does_not_abort_expansion() {
    let p = payload(vec![key(77, &[0x01]), key(1, &[0x02])], &[1], 1);
    let records = MultiKeyLayout::parse_multikey_layout(&p, "0x1", 1, 1);
    assert_eq!(records.len(), 2);
    assert_eq!(records[0].type_, "unspecified");
    assert_eq!(records[1].type_, "ed25519");
    assert!(records[1].is_used);
}

#[test]
fn duplicate_slot_indices_collapse() {
    let keys = vec![key(1, &[0x01]), key(1, &[0x02])];
    let once =
        MultiKeyLayout::parse_multikey_layout(&payload(keys.clone(), &[1], 1), "0x1", 0, 0);
    let twice =
        MultiKeyLayout::parse_multikey_layout(&payload(keys, &[1, 1, 1], 1), "0x1", 0, 0);
    assert_eq!(once.len(), twice.len());
    for (a, b) in once.iter().zip(twice.iter()) {
        assert_eq!(a.is_used, b.is_used);
    }
}

#[test]
fn out_of_range_slot_indices_mark_nothing() {
    let p = payload(vec![key(1, &[0x01])], &[5], 1);
    let records = MultiKeyLayout::parse_multikey_layout(&p, "0x1", 0, 0);
    assert_eq!(records.len(), 1);
    assert!(!records[0].is_used);
}

#[test]
fn hex_round_trips_non_empty_key() {
    let raw: Vec<u8> = vec![0x00, 0x0f, 0xde, 0xad, 0xbe, 0xef, 0xff];
    let p = payload(vec![key(1, &raw)], &[], 1);
    let records = MultiKeyLayout::parse_multikey_layout(&p, "0x1", 0, 0);
    let pk = &records[0].public_key;
    assert_eq!(pk, "0x000fdeadbeefff");
    assert!(pk.starts_with("0x"));
    assert_eq!(decode_hex(&pk[2..]), Some(raw));
}

#[test]
fn hex_round_trips_empty_key() {
    let p = payload(vec![key(1, &[])], &[], 1);
    let records = MultiKeyLayout::parse_multikey_layout(&p, "0x1", 0, 0);
    assert_eq!(records[0].public_key, "0x");
    assert_eq!(decode_hex(&records[0].public_key[2..]), Some(vec![]));
}

#[test]
fn decode_hex_rejects_bad_input() {
    assert_eq!(decode_hex("a"), None);
    assert_eq!(decode_hex("abc"), None);
    assert_eq!(decode_hex("zz"), None);
    assert_eq!(decode_hex("AA"), None);
    assert_eq!(decode_hex("ab"), Some(vec![0xab]));
    assert_eq!(decode_hex(""), Some(vec![]));
}

#[test]
fn non_single_sender_envelope_is_not_applicable() {
    let env = SignatureEnvelope { signature: Some(TransactionSignatureKind::Other) };
    let r = MultiKeyLayout::from_user_transaction(&env, "0x1", 0, 0);
    assert_eq!(r.map(|v| v.len()), Ok(0));
}

#[test]
fn non_multikey_account_signature_is_not_applicable() {
    let env = SignatureEnvelope {
        signature: Some(TransactionSignatureKind::SingleSender(SingleSenderPayload {
            sender: Some(AccountSignature { signature: Some(AccountSignatureKind::Other) }),
        })),
    };
    let r = MultiKeyLayout::from_user_transaction(&env, "0x1", 0, 0);
    assert_eq!(r.map(|v| v.len()), Ok(0));

    let absent = SignatureEnvelope {
        signature: Some(TransactionSignatureKind::SingleSender(SingleSenderPayload {
            sender: Some(AccountSignature { signature: None }),
        })),
    };
    let r = MultiKeyLayout::from_user_transaction(&absent, "0x1", 0, 0);
    assert_eq!(r.map(|v| v.len()), Ok(0));
}

#[test]
fn absent_required_fields_are_malformed() {
    let env = SignatureEnvelope { signature: None };
    let r = MultiKeyLayout::from_user_transaction(&env, "0x1", 0, 0);
    assert_eq!(r.map(|v| v.len()), Err(LayoutError::MalformedInput));

    let env = SignatureEnvelope {
        signature: Some(TransactionSignatureKind::SingleSender(SingleSenderPayload {
            sender: None,
        })),
    };
    let r = MultiKeyLayout::from_user_transaction(&env, "0x1", 0, 0);
    assert_eq!(r.map(|v| v.len()), Err(LayoutError::MalformedInput));
}

#[test]
fn multikey_envelope_expands_like_the_payload() {
    let p = payload(vec![key(1, &[0xAA]), key(2, &[0xBB])], &[1], 1);
    let env = multikey_envelope(p);
    let records = MultiKeyLayout::from_user_transaction(&env, "0x1", 9, 2).unwrap();
    assert_eq!(records.len(), 2);
    assert_eq!(records[0].type_, "ed25519");
    assert_eq!(records[1].type_, "secp256k1_ecdsa");
    assert_eq!(records[0].transaction_version, 9);
    assert_eq!(records[0].transaction_block_height, 2);
}
