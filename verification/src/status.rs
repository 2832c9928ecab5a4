//! Status codes reported across the C boundary, the library's error type and
//! the text that describes each status.
use vstd::prelude::*;

verus! {

/// The operation succeeded.
pub const BBS_OK: i32 = 0;

/// A required pointer was null.
pub const BBS_ERROR_NULL_POINTER: i32 = 1;

/// A length was invalid (no messages, or a malformed nationality code).
pub const BBS_ERROR_INVALID_LENGTH: i32 = 2;

/// A message index was out of range or repeated.
pub const BBS_ERROR_INVALID_INDEX: i32 = 3;

/// Bytes could not be decoded into the expected value.
pub const BBS_ERROR_DESERIALIZE: i32 = 4;

/// A value could not be encoded to bytes.
pub const BBS_ERROR_SERIALIZE: i32 = 5;

/// A cryptographic operation failed.
pub const BBS_ERROR_CRYPTO: i32 = 6;

/// A signature or proof did not verify.
pub const BBS_ERROR_VERIFY_FAILED: i32 = 7;

/// More messages were supplied than the signature parameters have slots for.
pub const BBS_ERROR_TOO_MANY_MSGS: i32 = 8;

/// A panic was caught at the boundary.
pub const BBS_ERROR_PANIC: i32 = 255;

/// The ways an operation of this library can fail.
#[derive(Debug, Clone, Copy, PartialEq, Eq, Structural)]
pub enum FfiError {
    NullPointer,
    InvalidLength,
    InvalidIndex,
    Deserialize,
    Serialize,
    Crypto,
    VerifyFailed,
    TooManyMessages,
}

/// The status code that stands for an error.
pub open spec fn error_code(err: FfiError) -> i32 {
    match err {
        FfiError::NullPointer => BBS_ERROR_NULL_POINTER,
        FfiError::InvalidLength => BBS_ERROR_INVALID_LENGTH,
        FfiError::InvalidIndex => BBS_ERROR_INVALID_INDEX,
        FfiError::Deserialize => BBS_ERROR_DESERIALIZE,
        FfiError::Serialize => BBS_ERROR_SERIALIZE,
        FfiError::Crypto => BBS_ERROR_CRYPTO,
        FfiError::VerifyFailed => BBS_ERROR_VERIFY_FAILED,
        FfiError::TooManyMessages => BBS_ERROR_TOO_MANY_MSGS,
    }
}

impl FfiError {
    /// The status code reported for this error.
    pub fn code(self) -> (r: i32)
        ensures
            r == error_code(self),
    {
        match self {
            FfiError::NullPointer => BBS_ERROR_NULL_POINTER,
            FfiError::InvalidLength => BBS_ERROR_INVALID_LENGTH,
            FfiError::InvalidIndex => BBS_ERROR_INVALID_INDEX,
            FfiError::Deserialize => BBS_ERROR_DESERIALIZE,
            FfiError::Serialize => BBS_ERROR_SERIALIZE,
            FfiError::Crypto => BBS_ERROR_CRYPTO,
            FfiError::VerifyFailed => BBS_ERROR_VERIFY_FAILED,
            FfiError::TooManyMessages => BBS_ERROR_TOO_MANY_MSGS,
        }
    }
}

/// The text that describes a status code.
pub open spec fn status_text(status: i32) -> Seq<char> {
    if status == BBS_OK {
        "ok"@
    } else if status == BBS_ERROR_NULL_POINTER {
        "null pointer"@
    } else if status == BBS_ERROR_INVALID_LENGTH {
        "invalid length"@
    } else if status == BBS_ERROR_INVALID_INDEX {
        "invalid index"@
    } else if status == BBS_ERROR_DESERIALIZE {
        "deserialize error"@
    } else if status == BBS_ERROR_SERIALIZE {
        "serialize error"@
    } else if status == BBS_ERROR_CRYPTO {
        "cryptographic operation failed"@
    } else if status == BBS_ERROR_VERIFY_FAILED {
        "verification failed"@
    } else if status == BBS_ERROR_TOO_MANY_MSGS {
        "too many messages"@
    } else if status == BBS_ERROR_PANIC {
        "panic"@
    } else {
        "unknown status"@
    }
}

/// Describes a status code; codes this library never reports read "unknown status".
pub fn status_message(status: i32) -> (r: &'static str)
    ensures
        r@ == status_text(status),
{
    if status == BBS_OK {
        "ok"
    } else if status == BBS_ERROR_NULL_POINTER {
        "null pointer"
    } else if status == BBS_ERROR_INVALID_LENGTH {
        "invalid length"
    } else if status == BBS_ERROR_INVALID_INDEX {
        "invalid index"
    } else if status == BBS_ERROR_DESERIALIZE {
        "deserialize error"
    } else if status == BBS_ERROR_SERIALIZE {
        "serialize error"
    } else if status == BBS_ERROR_CRYPTO {
        "cryptographic operation failed"
    } else if status == BBS_ERROR_VERIFY_FAILED {
        "verification failed"
    } else if status == BBS_ERROR_TOO_MANY_MSGS {
        "too many messages"
    } else if status == BBS_ERROR_PANIC {
        "panic"
    } else {
        "unknown status"
    }
}

/// No error is reported with the success code, and distinct errors are
/// reported with distinct codes.
pub proof fn lemma_error_codes_distinct(a: FfiError, b: FfiError)
    ensures
        error_code(a) != BBS_OK,
        error_code(a) != BBS_ERROR_PANIC,
        error_code(a) == error_code(b) <==> a == b,
{
}

/// Every code that an error is reported with has a description of its own,
/// different from the one of the success code and from "unknown status".
pub proof fn lemma_error_codes_described(a: FfiError, b: FfiError)
    ensures
        status_text(error_code(a)) != status_text(BBS_OK),
        status_text(error_code(a)) != "unknown status"@,
        a != b ==> status_text(error_code(a)) != status_text(error_code(b)),
{
    reveal_strlit("ok");
    reveal_strlit("null pointer");
    reveal_strlit("invalid length");
    reveal_strlit("invalid index");
    reveal_strlit("deserialize error");
    reveal_strlit("serialize error");
    reveal_strlit("cryptographic operation failed");
    reveal_strlit("verification failed");
    reveal_strlit("too many messages");
    reveal_strlit("unknown status");
    assert("ok"@.len() == 2);
    assert("null pointer"@.len() == 12);
    assert("invalid length"@.len() == 14);
    assert("invalid index"@.len() == 13);
    assert("invalid length"@[8] != "invalid index"@[8]);
    assert("deserialize error"@.len() == 17);
    assert("serialize error"@.len() == 15);
    assert("cryptographic operation failed"@.len() == 30);
    assert("verification failed"@.len() == 19);
    assert("unknown status"@.len() == 14);
    assert("invalid length"@[0] != "unknown status"@[0]);
    assert("too many messages"@.len() == 17);
    assert("too many messages"@[0] != "deserialize error"@[0]);
}

} // verus!
