use vibra::cipher::decrypt_value;
use vibra::cipher::encrypt_value;
use vibra::record::build_stored_record;
use vibra::record::decode_stored_record;
use vibra::VibraError;

fn seal(plain: &[u8], layers: usize) -> (Vec<u8>, Vec<u8>, Vec<u8>) {
    encrypt_value(plain, layers).unwrap()
}

#[test]
fn test_round_trip_one_layer() {
    let plain = b"attack at dawn".to_vec();
    let (ct, keys, nonces) = seal(&plain, 1);
    assert_eq!(ct.len(), plain.len() + 16);
    assert_eq!(keys.len(), 32);
    assert_eq!(nonces.len(), 12);
    let back = decrypt_value(&ct, &keys, &nonces, 1).unwrap();
    assert_eq!(back, plain);
}

#[test]
fn test_round_trip_many_layers() {
    let plain = b"".to_vec();
    let (ct, keys, nonces) = seal(&plain, 25);
    assert_eq!(keys.len(), 25 * 32);
    assert_eq!(nonces.len(), 25 * 12);
    assert_eq!(ct.len(), 25 * 16);
    let back = decrypt_value(&ct, &keys, &nonces, 25).unwrap();
    assert_eq!(back, plain);
}

#[test]
fn test_tamper_ciphertext_detected() {
    let plain = b"tamper with me".to_vec();
    let (ct, keys, nonces) = seal(&plain, 3);
    for i in 0..ct.len() {
        let mut bad = ct.clone();
        bad[i] ^= 1;
        assert_eq!(
            decrypt_value(&bad, &keys, &nonces, 3),
            Err(VibraError::DecryptionFailure),
            "flipped ciphertext byte {} must not decrypt",
            i
        );
    }
}

#[test]
fn test_tamper_key_detected() {
    let plain = b"tamper with me".to_vec();
    let (ct, keys, nonces) = seal(&plain, 2);
    for i in 0..keys.len() {
        let mut bad = keys.clone();
        bad[i] ^= 1;
        assert_eq!(
            decrypt_value(&ct, &bad, &nonces, 2),
            Err(VibraError::DecryptionFailure),
            "flipped key byte {} must not decrypt",
            i
        );
    }
}

#[test]
fn test_tamper_nonce_detected() {
    let plain = b"tamper with me".to_vec();
    let (ct, keys, nonces) = seal(&plain, 2);
    for i in 0..nonces.len() {
        let mut bad = nonces.clone();
        bad[i] ^= 1;
        assert_eq!(
            decrypt_value(&ct, &keys, &bad, 2),
            Err(VibraError::DecryptionFailure),
            "flipped nonce byte {} must not decrypt",
            i
        );
    }
}

#[test]
fn test_record_too_short_is_decryption_failure() {
    let record = vec![0u8; 43];
    assert_eq!(decode_stored_record(&record, 1), Err(VibraError::DecryptionFailure));
}

#[test]
fn test_record_round_trip() {
    let payload = b"[[\"name\",\"John Doe\"]]".to_vec();
    let (ct, keys, nonces) = seal(&payload, 5);
    let record = build_stored_record(ct, &keys, &nonces);
    let (plain, columns) = decode_stored_record(&record, 5).unwrap();
    assert_eq!(plain, payload);
    assert_eq!(columns, vec![("name".to_string(), "John Doe".to_string())]);
}

#[test]
fn test_record_with_invalid_text_plaintext() {
    let payload = vec![0xffu8, 0xfe, 0x80];
    let (ct, keys, nonces) = seal(&payload, 2);
    let record = build_stored_record(ct, &keys, &nonces);
    assert_eq!(decode_stored_record(&record, 2), Err(VibraError::DecryptionFailure));
}

#[test]
fn test_record_with_unparsable_plaintext() {
    let payload = b"not a column list".to_vec();
    let (ct, keys, nonces) = seal(&payload, 2);
    let record = build_stored_record(ct, &keys, &nonces);
    assert_eq!(decode_stored_record(&record, 2), Err(VibraError::SerializationFailure));
}

#[test]
fn test_tampered_record_never_yields_rows() {
    let payload = b"[[\"name\",\"John Doe\"]]".to_vec();
    let (ct, keys, nonces) = seal(&payload, 2);
    let record = build_stored_record(ct, &keys, &nonces);
    for i in 0..record.len() {
        let mut bad = record.clone();
        bad[i] ^= 0x80;
        match decode_stored_record(&bad, 2) {
            Ok((_, columns)) => {
                // A flip inside the plaintext-length-free zone cannot happen:
                // every byte is covered by a layer's tag.
                panic!("tampered record byte {} decoded to {:?}", i, columns);
            },
            Err(e) => {
                assert!(
                    e == VibraError::DecryptionFailure || e == VibraError::SerializationFailure
                );
            },
        }
    }
}
