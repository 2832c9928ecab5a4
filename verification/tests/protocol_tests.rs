use bbsplus::protocol::{pid_order, MAX_MESSAGE_COUNT, PID_ORDER};
use bbsplus::status::{
    status_message, FfiError, BBS_ERROR_CRYPTO, BBS_ERROR_DESERIALIZE, BBS_ERROR_INVALID_INDEX, BBS_ERROR_TOO_MANY_MSGS,
    BBS_ERROR_INVALID_LENGTH, BBS_ERROR_NULL_POINTER, BBS_ERROR_PANIC, BBS_ERROR_SERIALIZE,
    BBS_ERROR_VERIFY_FAILED, BBS_OK,
};
use bbsplus::types::{buffer_from_vec, BbsByteBuffer, BbsKeyPair};

#[test]
fn exposes_pid_order() {
    let values = pid_order();
    assert_eq!(values, PID_ORDER);
    assert_eq!(
        values,
        vec![
            "family_name",
            "given_name",
            "birth_date",
            "birth_place",
            "nationality",
            "derived_nationality",
        ]
    );
    assert_eq!(MAX_MESSAGE_COUNT, 20);
}

#[test]
fn error_codes_are_distinct_and_not_ok() {
    let all = [
        FfiError::NullPointer,
        FfiError::InvalidLength,
        FfiError::InvalidIndex,
        FfiError::Deserialize,
        FfiError::Serialize,
        FfiError::Crypto,
        FfiError::VerifyFailed,
        FfiError::TooManyMessages,
    ];
    let codes: Vec<i32> = all.iter().map(|e| e.code()).collect();
    assert_eq!(
        codes,
        vec![
            BBS_ERROR_NULL_POINTER,
            BBS_ERROR_INVALID_LENGTH,
            BBS_ERROR_INVALID_INDEX,
            BBS_ERROR_DESERIALIZE,
            BBS_ERROR_SERIALIZE,
            BBS_ERROR_CRYPTO,
            BBS_ERROR_VERIFY_FAILED,
            BBS_ERROR_TOO_MANY_MSGS,
        ]
    );
    assert_eq!(codes, vec![1, 2, 3, 4, 5, 6, 7, 8]);
    for (i, a) in codes.iter().enumerate() {
        assert_ne!(*a, BBS_OK);
        assert_ne!(status_message(*a), "unknown status");
        for b in codes.iter().skip(i + 1) {
            assert_ne!(status_message(*a), status_message(*b));
        }
    }
}

#[test]
fn status_messages_describe_codes() {
    assert_eq!(status_message(BBS_OK), "ok");
    assert_eq!(status_message(BBS_ERROR_NULL_POINTER), "null pointer");
    assert_eq!(status_message(BBS_ERROR_INVALID_LENGTH), "invalid length");
    assert_eq!(status_message(BBS_ERROR_INVALID_INDEX), "invalid index");
    assert_eq!(status_message(BBS_ERROR_DESERIALIZE), "deserialize error");
    assert_eq!(status_message(BBS_ERROR_SERIALIZE), "serialize error");
    assert_eq!(status_message(BBS_ERROR_CRYPTO), "cryptographic operation failed");
    assert_eq!(status_message(BBS_ERROR_VERIFY_FAILED), "verification failed");
    assert_eq!(status_message(BBS_ERROR_TOO_MANY_MSGS), "too many messages");
    assert_eq!(status_message(BBS_ERROR_PANIC), "panic");
    assert_eq!(status_message(42), "unknown status");
    assert_eq!(status_message(-1), "unknown status");
}

#[test]
fn buffers_hold_their_bytes() {
    assert_eq!(buffer_from_vec(vec![]).data, Vec::<u8>::new());
    assert_eq!(buffer_from_vec(vec![1, 2, 3]).data, vec![1, 2, 3]);
    assert_eq!(BbsByteBuffer::default().data, Vec::<u8>::new());
    let keypair = BbsKeyPair::default();
    assert!(keypair.params.data.is_empty());
    assert!(keypair.secret_key.data.is_empty());
    assert!(keypair.public_key.data.is_empty());
}
