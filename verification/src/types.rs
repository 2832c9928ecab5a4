//! The values that cross the C boundary, held as plain values: an input
//! whose pointer was null (with a nonzero length) is `None`.
use vstd::prelude::*;
use crate::status::FfiError;
use std::collections::BTreeSet;

verus! {

broadcast use vstd::laws_cmp::group_laws_cmp;

/// A borrowed byte slice handed in by the caller.
#[derive(Debug)]
pub struct BbsByteSlice {
    /// The bytes, or `None` when the pointer was null and the length nonzero.
    pub data: Option<Vec<u8>>,
}

/// A byte buffer handed back to the caller, who owns it.
#[derive(Debug)]
pub struct BbsByteBuffer {
    pub data: Vec<u8>,
}

/// One message to sign, verify or prove.
#[derive(Debug)]
pub struct BbsMessage {
    /// The bytes, or `None` when the pointer was null and the length nonzero.
    pub data: Option<Vec<u8>>,
}

/// A revealed message together with its zero-based position.
#[derive(Debug)]
pub struct BbsIndexedMessage {
    pub index: u32,
    /// The bytes, or `None` when the pointer was null and the length nonzero.
    pub data: Option<Vec<u8>>,
}

/// Serialized signature parameters, secret key and public key.
#[derive(Debug)]
pub struct BbsKeyPair {
    pub params: BbsByteBuffer,
    pub secret_key: BbsByteBuffer,
    pub public_key: BbsByteBuffer,
}

impl Default for BbsByteBuffer {
    /// An empty buffer.
    fn default() -> (r: Self)
        ensures
            r.data@ == Seq::<u8>::empty(),
    {
        BbsByteBuffer { data: Vec::new() }
    }
}

impl Default for BbsKeyPair {
    /// A key pair whose three buffers are empty.
    fn default() -> (r: Self)
        ensures
            r.params.data@ == Seq::<u8>::empty(),
            r.secret_key.data@ == Seq::<u8>::empty(),
            r.public_key.data@ == Seq::<u8>::empty(),
    {
        BbsKeyPair {
            params: BbsByteBuffer::default(),
            secret_key: BbsByteBuffer::default(),
            public_key: BbsByteBuffer::default(),
        }
    }
}

/// Hands bytes to the caller as a buffer; an empty vector gives the empty buffer.
pub fn buffer_from_vec(bytes: Vec<u8>) -> (r: BbsByteBuffer)
    ensures
        r.data@ == bytes@,
{
    if bytes.len() == 0 {
        return BbsByteBuffer::default();
    }
    BbsByteBuffer { data: bytes }
}

/// A copy of a byte vector.
pub fn copy_bytes(bytes: &[u8]) -> (r: Vec<u8>)
    ensures
        r@ == bytes@,
{
    vstd::slice::slice_to_vec(bytes)
}

/// Reads the bytes of a slice handed in by the caller.
pub fn read_byte_slice(slice: &BbsByteSlice) -> (r: Result<&[u8], FfiError>)
    ensures
        match slice.data {
            None => r == Err::<&[u8], FfiError>(FfiError::NullPointer),
            Some(v) => r matches Ok(b) && b@ == v@,
        },
{
    match &slice.data {
        Some(v) => Ok(v.as_slice()),
        None => Err(FfiError::NullPointer),
    }
}

/// The error that reading the messages gives, if any: none at all is an
/// invalid length, and a null array or message is a null pointer.
pub open spec fn read_messages_error(messages: Option<Vec<BbsMessage>>) -> Option<FfiError> {
    match messages {
        None => Some(FfiError::NullPointer),
        Some(v) => if v@.len() == 0 {
            Some(FfiError::InvalidLength)
        } else if exists|i: int| 0 <= i < v@.len() && (#[trigger] v@[i]).data is None {
            Some(FfiError::NullPointer)
        } else {
            None
        },
    }
}

/// The bytes of each message, in order.
pub open spec fn message_bytes(v: Seq<BbsMessage>) -> Seq<Seq<u8>> {
    v.map_values(|m: BbsMessage| m.data->0@)
}

/// Reads the messages handed in by the caller.
pub fn read_messages(messages: &Option<Vec<BbsMessage>>) -> (r: Result<Vec<Vec<u8>>, FfiError>)
    ensures
        match read_messages_error(*messages) {
            Some(e) => r == Err::<Vec<Vec<u8>>, FfiError>(e),
            None => r matches Ok(ms) && crate::crypto::byte_views(ms@) == message_bytes(
                messages->0@,
            ),
        },
{
    if messages.is_none() {
        return Err(FfiError::NullPointer);
    }
    let v = messages.as_ref().unwrap();
    if v.len() == 0 {
        return Err(FfiError::InvalidLength);
    }
    let mut out: Vec<Vec<u8>> = Vec::new();
    let mut i: usize = 0;
    while i < v.len()
        invariant
            i <= v.len(),
            v.len() > 0,
            *messages == Some(*v),
            forall|j: int| 0 <= j < i ==> (#[trigger] v@[j]).data is Some,
            crate::crypto::byte_views(out@) == message_bytes(v@.take(i as int)),
        decreases v.len() - i,
    {
        match &v[i].data {
            None => {
                assert(v@[i as int].data is None);
                return Err(FfiError::NullPointer);
            },
            Some(bytes) => {
                let copy = copy_bytes(bytes.as_slice());
                let ghost prev = out@;
                out.push(copy);
                proof {
                    assert(v@[i as int].data == Some(*bytes));
                    assert(crate::crypto::byte_views(out@) =~= crate::crypto::byte_views(prev).push(
                        copy@,
                    ));
                    assert(message_bytes(v@.take(i + 1)) =~= message_bytes(v@.take(i as int)).push(
                        v@[i as int].data->0@,
                    ));
                }
            },
        }
        i = i + 1;
    }
    assert(v@.take(v.len() as int) =~= v@);
    Ok(out)
}

/// The error that reading the revealed positions gives, if any: a null array
/// is a null pointer, and a position out of range or given twice an invalid index.
pub open spec fn revealed_indices_error(indices: Option<Vec<u32>>, message_count: nat) -> Option<
    FfiError,
> {
    match indices {
        None => Some(FfiError::NullPointer),
        Some(v) => if (exists|i: int| 0 <= i < v@.len() && #[trigger] v@[i] >= message_count) || (
        exists|i: int, j: int| 0 <= i < j < v@.len() && #[trigger] v@[i] == #[trigger] v@[j]) {
            Some(FfiError::InvalidIndex)
        } else {
            None
        },
    }
}

/// The positions as machine-sized indices.
pub open spec fn as_indices(v: Seq<u32>) -> Seq<usize> {
    v.map_values(|x: u32| x as usize)
}

/// Reads the positions of the messages to reveal into a set: positions below
/// `message_count`, none given twice.
pub fn read_revealed_indices(indices: &Option<Vec<u32>>, message_count: usize) -> (r: Result<
    BTreeSet<usize>,
    FfiError,
>)
    ensures
        match revealed_indices_error(*indices, message_count as nat) {
            Some(e) => r == Err::<BTreeSet<usize>, FfiError>(e),
            None => r matches Ok(s) && s@ == as_indices(indices->0@).to_set(),
        },
{
    if indices.is_none() {
        return Err(FfiError::NullPointer);
    }
    let v = indices.as_ref().unwrap();
    let mut out: BTreeSet<usize> = BTreeSet::new();
    let mut i: usize = 0;
    assert(as_indices(v@.take(0)).to_set() =~= Set::<usize>::empty());
    while i < v.len()
        invariant
            i <= v.len(),
            *indices == Some(*v),
            out@ == as_indices(v@.take(i as int)).to_set(),
            forall|j: int| 0 <= j < i ==> #[trigger] v@[j] < message_count,
            forall|a: int, b: int| 0 <= a < b < i ==> #[trigger] v@[a] != #[trigger] v@[b],
        decreases v.len() - i,
    {
        let index = v[i] as usize;
        if index >= message_count {
            assert(v@[i as int] >= message_count);
            assert(indices->0 == *v);
            assert(indices->0@[i as int] >= message_count as nat);
            return Err(FfiError::InvalidIndex);
        }
        let ghost before = out@;
        let fresh = out.insert(index);
        if !fresh {
            proof {
                assert(before.contains(index));
                let k = choose|k: int|
                    0 <= k < as_indices(v@.take(i as int)).len() && as_indices(v@.take(i as int))[k]
                        == index;
                assert(as_indices(v@.take(i as int))[k] == v@[k] as usize);
                assert(v@[k] == v@[i as int]);
                assert(indices->0 == *v);
                assert(indices->0@[k] == indices->0@[i as int]);
            }
            return Err(FfiError::InvalidIndex);
        }
        assert forall|a: int| 0 <= a < i implies v@[a] != v@[i as int] by {
            if v@[a] == v@[i as int] {
                assert(as_indices(v@.take(i as int))[a] == index);
                assert(before.contains(index));
            }
        }
        assert(as_indices(v@.take(i + 1)) =~= as_indices(v@.take(i as int)).push(index));
        assert(out@ =~= as_indices(v@.take(i + 1)).to_set()) by {
            let t = as_indices(v@.take(i + 1));
            assert forall|x: usize| out@.contains(x) implies t.to_set().contains(x) by {
                if x == index {
                    assert(t[i as int] == x);
                } else {
                    let k = choose|k: int|
                        0 <= k < as_indices(v@.take(i as int)).len() && as_indices(
                            v@.take(i as int),
                        )[k] == x;
                    assert(t[k] == x);
                }
            }
            assert forall|x: usize| t.to_set().contains(x) implies out@.contains(x) by {
                let k = choose|k: int| 0 <= k < t.len() && t[k] == x;
                if k < i {
                    assert(as_indices(v@.take(i as int))[k] == x);
                    assert(before.contains(x));
                }
            }
        }
        i = i + 1;
    }
    assert(v@.take(v.len() as int) =~= v@);
    Ok(out)
}

} // verus!
