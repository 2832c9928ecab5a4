use std::collections::{BTreeMap, BTreeSet};
use bbsplus::bbs::{
    bbs_create_proof, bbs_generate_keypair, bbs_sign, bbs_verify_proof, bbs_verify_signature,
    deserialize_compressed, hash_message, hash_messages, proof_verdict, read_revealed_messages,
};
use bbsplus::crypto::Encoding;
use bbsplus::encoding::{message_domain_bytes, padding_message};
use bbsplus::status::{
    FfiError, BBS_ERROR_DESERIALIZE, BBS_ERROR_INVALID_INDEX, BBS_ERROR_INVALID_LENGTH,
    BBS_ERROR_NULL_POINTER, BBS_ERROR_TOO_MANY_MSGS, BBS_ERROR_VERIFY_FAILED, BBS_OK,
};
use bbsplus::types::{
    read_messages, read_revealed_indices, BbsByteBuffer, BbsByteSlice, BbsIndexedMessage,
    BbsKeyPair, BbsMessage,
};

fn status<T>(r: Result<T, FfiError>) -> i32 {
    status_of(&r)
}

fn status_of<T>(r: &Result<T, FfiError>) -> i32 {
    match r {
        Ok(_) => BBS_OK,
        Err(e) => e.code(),
    }
}

fn byte_slice(bytes: &[u8]) -> BbsByteSlice {
    BbsByteSlice { data: Some(bytes.to_vec()) }
}

fn buffer_slice(buffer: &BbsByteBuffer) -> BbsByteSlice {
    byte_slice(&buffer.data)
}

fn ffi_message(message: &[u8]) -> BbsMessage {
    BbsMessage { data: Some(message.to_vec()) }
}

fn ffi_indexed_message(index: u32, message: &[u8]) -> BbsIndexedMessage {
    BbsIndexedMessage { index, data: Some(message.to_vec()) }
}

fn keypair(count: u32) -> BbsKeyPair {
    bbs_generate_keypair(count).unwrap()
}

#[test]
fn sign_and_verify_round_trip() {
    let keypair = keypair(3);
    let messages = [
        b"alice".as_slice(),
        b"US".as_slice(),
        b"1716328800".as_slice(),
    ];
    let ffi_messages = Some(messages.iter().map(|m| ffi_message(m)).collect::<Vec<_>>());

    let signature = bbs_sign(
        &buffer_slice(&keypair.params),
        &buffer_slice(&keypair.secret_key),
        &ffi_messages,
    );
    assert_eq!(status_of(&signature), BBS_OK);
    let signature = signature.unwrap();

    assert_eq!(
        status(bbs_verify_signature(
            &buffer_slice(&keypair.params),
            &buffer_slice(&keypair.public_key),
            &ffi_messages,
            &buffer_slice(&signature),
        )),
        BBS_OK
    );

    let bad_messages = Some(vec![
        ffi_message(b"alice"),
        ffi_message(b"CA"),
        ffi_message(b"1716328800"),
    ]);
    assert_eq!(
        status(bbs_verify_signature(
            &buffer_slice(&keypair.params),
            &buffer_slice(&keypair.public_key),
            &bad_messages,
            &buffer_slice(&signature),
        )),
        BBS_ERROR_VERIFY_FAILED
    );
}

#[test]
fn create_and_verify_proof_round_trip() {
    let keypair = keypair(3);
    let messages = [
        b"alice".as_slice(),
        b"US".as_slice(),
        b"1716328800".as_slice(),
    ];
    let ffi_messages = Some(messages.iter().map(|m| ffi_message(m)).collect::<Vec<_>>());

    let signature = bbs_sign(
        &buffer_slice(&keypair.params),
        &buffer_slice(&keypair.secret_key),
        &ffi_messages,
    );
    assert_eq!(status_of(&signature), BBS_OK);
    let signature = signature.unwrap();

    let revealed = Some(vec![0_u32, 2_u32]);
    let proof = bbs_create_proof(
        &buffer_slice(&keypair.params),
        &buffer_slice(&keypair.public_key),
        &buffer_slice(&signature),
        &ffi_messages,
        &revealed,
    );
    assert_eq!(status_of(&proof), BBS_OK);
    let proof = proof.unwrap();

    let revealed_messages = Some(vec![
        ffi_indexed_message(0, b"alice"),
        ffi_indexed_message(2, b"1716328800"),
    ]);
    assert_eq!(
        status(bbs_verify_proof(
            &buffer_slice(&keypair.params),
            &buffer_slice(&keypair.public_key),
            &buffer_slice(&proof),
            &revealed_messages,
        )),
        BBS_OK
    );

    let tampered_revealed_messages = Some(vec![
        ffi_indexed_message(0, b"alice"),
        ffi_indexed_message(2, b"1716328801"),
    ]);
    assert_eq!(
        status(bbs_verify_proof(
            &buffer_slice(&keypair.params),
            &buffer_slice(&keypair.public_key),
            &buffer_slice(&proof),
            &tampered_revealed_messages,
        )),
        BBS_ERROR_VERIFY_FAILED
    );

    // The same disclosure given in another order is the same disclosure.
    let reordered = Some(vec![
        ffi_indexed_message(2, b"1716328800"),
        ffi_indexed_message(0, b"alice"),
    ]);
    assert_eq!(
        status(bbs_verify_proof(
            &buffer_slice(&keypair.params),
            &buffer_slice(&keypair.public_key),
            &buffer_slice(&proof),
            &reordered,
        )),
        BBS_OK
    );
}

#[test]
fn rejects_tampered_signature_bytes() {
    let keypair = keypair(1);
    let message = Some(vec![ffi_message(b"alice")]);
    let signature = bbs_sign(
        &buffer_slice(&keypair.params),
        &buffer_slice(&keypair.secret_key),
        &message,
    );
    assert_eq!(status_of(&signature), BBS_OK);
    let signature = signature.unwrap();

    let mut tampered = signature.data.clone();
    let last = tampered.len() - 1;
    tampered[last] ^= 1;

    assert_ne!(
        status(bbs_verify_signature(
            &buffer_slice(&keypair.params),
            &buffer_slice(&keypair.public_key),
            &message,
            &byte_slice(&tampered),
        )),
        BBS_OK
    );
}

#[test]
fn generate_keypair_rejects_zero_messages() {
    assert_eq!(status(bbs_generate_keypair(0)), BBS_ERROR_INVALID_LENGTH);
    let keypair = keypair(2);
    assert!(!keypair.params.data.is_empty());
    assert!(!keypair.secret_key.data.is_empty());
    assert!(!keypair.public_key.data.is_empty());
    assert_eq!(deserialize_compressed(Encoding::Params, &keypair.params.data), Ok(()));
    assert_eq!(deserialize_compressed(Encoding::SecretKey, &keypair.secret_key.data), Ok(()));
    assert_eq!(deserialize_compressed(Encoding::PublicKey, &keypair.public_key.data), Ok(()));
}

#[test]
fn decoding_rejects_garbage_and_trailing_bytes() {
    let keypair = keypair(1);
    let mut longer = keypair.public_key.data.clone();
    longer.push(0);
    assert_eq!(
        deserialize_compressed(Encoding::PublicKey, &longer),
        Err(FfiError::Deserialize)
    );
    assert_eq!(
        deserialize_compressed(Encoding::PublicKey, &keypair.public_key.data[1..]),
        Err(FfiError::Deserialize)
    );
    assert_eq!(deserialize_compressed(Encoding::Proof, &[1, 2, 3]), Err(FfiError::Deserialize));
    assert_eq!(deserialize_compressed(Encoding::Signature, &[]), Err(FfiError::Deserialize));
}

#[test]
fn inputs_are_checked_in_order() {
    let keypair = keypair(1);
    let message = Some(vec![ffi_message(b"alice")]);
    let null = BbsByteSlice { data: None };
    let garbage = byte_slice(&[7, 7, 7]);

    // Parameters are read first, then the secret key, then the messages.
    assert_eq!(status(bbs_sign(&null, &garbage, &None)), BBS_ERROR_NULL_POINTER);
    assert_eq!(status(bbs_sign(&garbage, &null, &None)), BBS_ERROR_DESERIALIZE);
    assert_eq!(
        status(bbs_sign(&buffer_slice(&keypair.params), &null, &message)),
        BBS_ERROR_NULL_POINTER
    );
    assert_eq!(
        status(bbs_sign(&buffer_slice(&keypair.params), &buffer_slice(&keypair.secret_key), &Some(vec![]))),
        BBS_ERROR_INVALID_LENGTH
    );
    assert_eq!(
        status(bbs_sign(&buffer_slice(&keypair.params), &buffer_slice(&keypair.secret_key), &None)),
        BBS_ERROR_NULL_POINTER
    );
    assert_eq!(
        status(bbs_verify_signature(
            &buffer_slice(&keypair.params),
            &buffer_slice(&keypair.public_key),
            &message,
            &garbage,
        )),
        BBS_ERROR_DESERIALIZE
    );
}

#[test]
fn create_proof_validates_revealed_indices() {
    let keypair = keypair(2);
    let messages = Some(vec![ffi_message(b"alice"), ffi_message(b"US")]);
    let signature = bbs_sign(
        &buffer_slice(&keypair.params),
        &buffer_slice(&keypair.secret_key),
        &messages,
    )
    .unwrap();
    let prove = |revealed: Option<Vec<u32>>| {
        status(bbs_create_proof(
            &buffer_slice(&keypair.params),
            &buffer_slice(&keypair.public_key),
            &buffer_slice(&signature),
            &messages,
            &revealed,
        ))
    };
    assert_eq!(prove(Some(vec![2])), BBS_ERROR_INVALID_INDEX);
    assert_eq!(prove(Some(vec![1, 1])), BBS_ERROR_INVALID_INDEX);
    assert_eq!(prove(None), BBS_ERROR_NULL_POINTER);
    assert_eq!(prove(Some(vec![])), BBS_OK);
    assert_eq!(prove(Some(vec![1, 0])), BBS_OK);
}

#[test]
fn reads_messages_and_indices() {
    assert_eq!(read_messages(&None), Err(FfiError::NullPointer));
    assert_eq!(read_messages(&Some(vec![])), Err(FfiError::InvalidLength));
    assert_eq!(
        read_messages(&Some(vec![ffi_message(b"a"), BbsMessage { data: None }])),
        Err(FfiError::NullPointer)
    );
    assert_eq!(
        read_messages(&Some(vec![ffi_message(b"a"), ffi_message(b"")])),
        Ok(vec![b"a".to_vec(), vec![]])
    );

    assert_eq!(read_revealed_indices(&Some(vec![3, 0, 2]), 4), Ok(BTreeSet::from([0, 2, 3])));
    assert_eq!(read_revealed_indices(&Some(vec![3, 0, 3]), 4), Err(FfiError::InvalidIndex));
    assert_eq!(read_revealed_indices(&Some(vec![4]), 4), Err(FfiError::InvalidIndex));
    assert_eq!(read_revealed_indices(&Some(vec![]), 0), Ok(BTreeSet::new()));
    assert_eq!(read_revealed_indices(&None, 4), Err(FfiError::NullPointer));
}

#[test]
fn revealed_messages_are_hashed_under_their_position() {
    let entries = read_revealed_messages(&Some(vec![
        ffi_indexed_message(5, b"x"),
        ffi_indexed_message(1, b"y"),
    ]))
    .unwrap();
    assert_eq!(
        entries,
        BTreeMap::from([(1, hash_message(1, b"y")), (5, hash_message(5, b"x"))])
    );

    // A repeated position is found before a null message that follows it.
    assert_eq!(
        read_revealed_messages(&Some(vec![
            ffi_indexed_message(1, b"y"),
            ffi_indexed_message(1, b"z"),
            BbsIndexedMessage { index: 2, data: None },
        ])),
        Err(FfiError::InvalidIndex)
    );
    assert_eq!(
        read_revealed_messages(&Some(vec![
            BbsIndexedMessage { index: 1, data: None },
            ffi_indexed_message(1, b"z"),
        ])),
        Err(FfiError::NullPointer)
    );
    assert_eq!(read_revealed_messages(&None), Err(FfiError::NullPointer));
    assert_eq!(read_revealed_messages(&Some(vec![])), Ok(BTreeMap::new()));
}

#[test]
fn message_domains_hold_the_position() {
    let mut expected = b"bbs-ffi/v1/message/".to_vec();
    expected.extend_from_slice(&[0, 0, 0, 0, 0, 0, 1, 2]);
    assert_eq!(message_domain_bytes(258), expected);
    assert_ne!(message_domain_bytes(1), message_domain_bytes(256));
}

#[test]
fn hashing_depends_on_message_and_position() {
    let a = hash_message(0, b"alice");
    assert_eq!(a.len(), 32);
    assert_eq!(a, hash_message(0, b"alice"));
    assert_ne!(a, hash_message(1, b"alice"));
    assert_ne!(a, hash_message(0, b"alicf"));
    assert_ne!(a, b"alice".to_vec());
    let all = hash_messages(&vec![b"alice".to_vec(), b"alice".to_vec()]);
    assert_eq!(all, vec![hash_message(0, b"alice"), hash_message(1, b"alice")]);
}

#[test]
fn generated_key_material_is_non_empty_and_decodes() {
    let keypair = keypair(2);
    assert!(!keypair.params.data.is_empty());
    assert!(!keypair.secret_key.data.is_empty());
    assert!(!keypair.public_key.data.is_empty());
    assert_eq!(status(deserialize_compressed(Encoding::Params, &keypair.params.data)), BBS_OK);
    assert_eq!(status(deserialize_compressed(Encoding::SecretKey, &keypair.secret_key.data)), BBS_OK);
    assert_eq!(status(deserialize_compressed(Encoding::PublicKey, &keypair.public_key.data)), BBS_OK);
}

fn sentinel() -> Vec<u8> {
    let mut bytes = vec![0xff_u8];
    bytes.extend_from_slice(b"bbsplus-padding-v1");
    bytes.push(0xfe);
    bytes
}

#[test]
fn padding_sentinel_bytes() {
    assert_eq!(padding_message(), sentinel());
    assert!(std::str::from_utf8(&padding_message()).is_err());
}

#[test]
fn sign_pads_missing_slots() {
    let keypair = keypair(4);
    let messages = Some(vec![ffi_message(b"alice"), ffi_message(b"US")]);
    let signature = bbs_sign(
        &buffer_slice(&keypair.params),
        &buffer_slice(&keypair.secret_key),
        &messages,
    )
    .unwrap();
    let verify = |messages: &Option<Vec<BbsMessage>>| {
        status(bbs_verify_signature(
            &buffer_slice(&keypair.params),
            &buffer_slice(&keypair.public_key),
            messages,
            &buffer_slice(&signature),
        ))
    };
    assert_eq!(verify(&messages), BBS_OK);
    let spelled_out = Some(vec![
        ffi_message(b"alice"),
        ffi_message(b"US"),
        ffi_message(&sentinel()),
        ffi_message(&sentinel()),
    ]);
    assert_eq!(verify(&spelled_out), BBS_OK);
    let other_third = Some(vec![ffi_message(b"alice"), ffi_message(b"US"), ffi_message(b"x")]);
    assert_eq!(verify(&other_third), BBS_ERROR_VERIFY_FAILED);
}

#[test]
fn too_many_messages_are_refused() {
    let keypair = keypair(2);
    let two = Some(vec![ffi_message(b"a"), ffi_message(b"b")]);
    let three = Some(vec![ffi_message(b"a"), ffi_message(b"b"), ffi_message(b"c")]);
    assert_eq!(
        status(bbs_sign(&buffer_slice(&keypair.params), &buffer_slice(&keypair.secret_key), &three)),
        BBS_ERROR_TOO_MANY_MSGS
    );
    let signature = bbs_sign(&buffer_slice(&keypair.params), &buffer_slice(&keypair.secret_key), &two)
        .unwrap();
    assert_eq!(
        status(bbs_verify_signature(
            &buffer_slice(&keypair.params),
            &buffer_slice(&keypair.public_key),
            &three,
            &buffer_slice(&signature),
        )),
        BBS_ERROR_TOO_MANY_MSGS
    );
    assert_eq!(
        status(bbs_create_proof(
            &buffer_slice(&keypair.params),
            &buffer_slice(&keypair.public_key),
            &buffer_slice(&signature),
            &three,
            &Some(vec![0]),
        )),
        BBS_ERROR_TOO_MANY_MSGS
    );
}

#[test]
fn proof_can_reveal_a_padding_slot() {
    let keypair = keypair(4);
    let messages = Some(vec![ffi_message(b"alice"), ffi_message(b"US")]);
    let signature = bbs_sign(
        &buffer_slice(&keypair.params),
        &buffer_slice(&keypair.secret_key),
        &messages,
    )
    .unwrap();
    let prove = |revealed: Vec<u32>| {
        bbs_create_proof(
            &buffer_slice(&keypair.params),
            &buffer_slice(&keypair.public_key),
            &buffer_slice(&signature),
            &messages,
            &Some(revealed),
        )
    };
    assert_eq!(status(prove(vec![4])), BBS_ERROR_INVALID_INDEX);
    let proof = prove(vec![3, 0]).unwrap();
    let verify = |revealed: Vec<BbsIndexedMessage>| {
        status(bbs_verify_proof(
            &buffer_slice(&keypair.params),
            &buffer_slice(&keypair.public_key),
            &buffer_slice(&proof),
            &Some(revealed),
        ))
    };
    assert_eq!(
        verify(vec![ffi_indexed_message(0, b"alice"), ffi_indexed_message(3, &sentinel())]),
        BBS_OK
    );
    assert_eq!(
        verify(vec![ffi_indexed_message(3, &sentinel()), ffi_indexed_message(0, b"alice")]),
        BBS_OK
    );
    assert_eq!(
        verify(vec![ffi_indexed_message(0, b"alice"), ffi_indexed_message(3, b"x")]),
        BBS_ERROR_VERIFY_FAILED
    );
}

#[test]
fn verify_proof_refuses_more_entries_than_positions() {
    let keypair = keypair(1);
    let messages = Some(vec![ffi_message(b"alice")]);
    let signature = bbs_sign(
        &buffer_slice(&keypair.params),
        &buffer_slice(&keypair.secret_key),
        &messages,
    )
    .unwrap();
    let proof = bbs_create_proof(
        &buffer_slice(&keypair.params),
        &buffer_slice(&keypair.public_key),
        &buffer_slice(&signature),
        &messages,
        &Some(vec![]),
    )
    .unwrap();
    assert_eq!(
        status(bbs_verify_proof(
            &buffer_slice(&keypair.params),
            &buffer_slice(&keypair.public_key),
            &buffer_slice(&proof),
            &Some(vec![]),
        )),
        BBS_OK
    );
    let crowded = Some(vec![
        ffi_indexed_message(5, b"x"),
        ffi_indexed_message(6, b"y"),
        ffi_indexed_message(7, b"z"),
        ffi_indexed_message(8, b"w"),
    ]);
    assert_eq!(
        status(bbs_verify_proof(
            &buffer_slice(&keypair.params),
            &buffer_slice(&keypair.public_key),
            &buffer_slice(&proof),
            &crowded,
        )),
        BBS_ERROR_VERIFY_FAILED
    );
}

#[test]
fn proof_verdicts() {
    assert_eq!(proof_verdict(Ok(())), Ok(true));
    assert_eq!(proof_verdict(Err(FfiError::VerifyFailed)), Ok(false));
    assert_eq!(proof_verdict(Err(FfiError::Deserialize)), Err(FfiError::Deserialize));
}
