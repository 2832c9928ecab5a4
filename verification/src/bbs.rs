//! Key generation, signing, signature verification, and selective-disclosure
//! proofs over raw byte messages. Each message is hashed to a field element
//! under a domain separation tag that holds its zero-based position.
use vstd::prelude::*;
use crate::crypto::{
    byte_views, challenge_contribution, challenge_scalar, decodes_exactly, hash_to_scalar,
    hashed_scalar, keypair_generate, open_protocol, oracle_challenge, params_are_valid, params_count,
    params_generate, params_message_count, params_unread, params_valid, proof_accepted,
    proof_commitment, proof_contribution, proof_unread, proof_verify, protocol_contribution,
    protocol_gen_proof, public_key_is_valid, public_key_of, public_key_reencode,
    public_key_reencoding, public_key_unread, public_key_valid, revealed_map, scalar_map,
    secret_key_unread, signature_accepted, signature_is_non_zero, signature_new, signature_non_zero,
    signature_unread, signature_verify, Encoding, ProverState,
};
use crate::encoding::{
    lemma_padding_keeps_messages, message_domain, message_domain_bytes, pad_messages, padded,
    padding_sentinel,
};
use ark_serialize::SerializationError;
use crate::status::FfiError;
use std::collections::{BTreeMap, BTreeSet};
use crate::types::{
    as_indices, buffer_from_vec, copy_bytes, message_bytes, read_byte_slice, read_messages,
    read_messages_error, read_revealed_indices, revealed_indices_error, BbsByteBuffer,
    BbsByteSlice, BbsIndexedMessage, BbsKeyPair, BbsMessage,
};

verus! {

broadcast use vstd::laws_cmp::group_laws_cmp;

/// The first of two possible errors.
pub open spec fn first_error(a: Option<FfiError>, b: Option<FfiError>) -> Option<FfiError> {
    if a is Some {
        a
    } else {
        b
    }
}

/// Accepts a decoding that left no byte unread.
pub fn decoding_exact(unread: Result<usize, SerializationError>) -> (r: Result<(), FfiError>)
    ensures
        r == (if unread matches Ok(rest) && rest == 0 {
            Ok::<(), FfiError>(())
        } else {
            Err(FfiError::Deserialize)
        }),
{
    match unread {
        Ok(rest) => if rest == 0 {
            Ok(())
        } else {
            Err(FfiError::Deserialize)
        },
        Err(_) => Err(FfiError::Deserialize),
    }
}

/// Checks that `bytes` is one whole encoding of a value of the kind, with no
/// bytes left over.
pub fn deserialize_compressed(kind: Encoding, bytes: &[u8]) -> (r: Result<(), FfiError>)
    ensures
        r == (if decodes_exactly(kind, bytes@) {
            Ok::<(), FfiError>(())
        } else {
            Err(FfiError::Deserialize)
        }),
{
    let unread = match kind {
        Encoding::Params => params_unread(bytes),
        Encoding::SecretKey => secret_key_unread(bytes),
        Encoding::PublicKey => public_key_unread(bytes),
        Encoding::Signature => signature_unread(bytes),
        Encoding::Proof => proof_unread(bytes),
    };
    decoding_exact(unread)
}

/// The error that reading and decoding an input gives, if any.
pub open spec fn input_error(slice: BbsByteSlice, kind: Encoding) -> Option<FfiError> {
    match slice.data {
        None => Some(FfiError::NullPointer),
        Some(v) => if decodes_exactly(kind, v@) {
            None
        } else {
            Some(FfiError::Deserialize)
        },
    }
}

/// Reads an input slice and checks that it encodes a value of the kind.
pub fn read_encoded(slice: &BbsByteSlice, kind: Encoding) -> (r: Result<&[u8], FfiError>)
    ensures
        match input_error(*slice, kind) {
            Some(e) => r == Err::<&[u8], FfiError>(e),
            None => r matches Ok(b) && b@ == slice.data->0@,
        },
{
    let bytes = read_byte_slice(slice)?;
    deserialize_compressed(kind, bytes)?;
    Ok(bytes)
}

/// Hashes the message at position `index` to a field element.
pub fn hash_message(index: usize, message: &[u8]) -> (r: Vec<u8>)
    ensures
        r@ == hashed_scalar(message_domain(index), message@),
{
    let domain = message_domain_bytes(index);
    hash_to_scalar(domain.as_slice(), message)
}

/// The field element of each message, each hashed under its own position.
pub open spec fn hashed_messages(messages: Seq<Seq<u8>>) -> Seq<Seq<u8>> {
    Seq::new(messages.len(), |i: int| hashed_scalar(message_domain(i as usize), messages[i]))
}

/// Hashes each message under its own position.
pub fn hash_messages(messages: &Vec<Vec<u8>>) -> (r: Vec<Vec<u8>>)
    ensures
        byte_views(r@) == hashed_messages(byte_views(messages@)),
{
    let mut out: Vec<Vec<u8>> = Vec::new();
    let mut i: usize = 0;
    while i < messages.len()
        invariant
            i <= messages.len(),
            out@.len() == i,
            forall|j: int|
                0 <= j < i ==> (#[trigger] out@[j])@ == hashed_scalar(
                    message_domain(j as usize),
                    messages@[j]@,
                ),
        decreases messages.len() - i,
    {
        let scalar = hash_message(i, messages[i].as_slice());
        out.push(scalar);
        i = i + 1;
    }
    assert(byte_views(out@) =~= hashed_messages(byte_views(messages@)));
    out
}

/// The error that reading the revealed message at position `i` of the list
/// gives: a position given before is an invalid index, null bytes a null pointer.
pub open spec fn revealed_message_error(v: Seq<BbsIndexedMessage>, i: int) -> Option<FfiError> {
    if exists|j: int| 0 <= j < i && (#[trigger] v[j]).index == v[i].index {
        Some(FfiError::InvalidIndex)
    } else if v[i].data is None {
        Some(FfiError::NullPointer)
    } else {
        None
    }
}

/// The first error that reading the first `n` revealed messages gives.
pub open spec fn revealed_prefix_error(v: Seq<BbsIndexedMessage>, n: nat) -> Option<FfiError>
    decreases n,
{
    if n == 0 {
        None
    } else {
        first_error(revealed_prefix_error(v, (n - 1) as nat), revealed_message_error(v, n - 1))
    }
}

/// The error that reading the revealed messages gives, if any.
pub open spec fn revealed_messages_error(messages: Option<Vec<BbsIndexedMessage>>) -> Option<
    FfiError,
> {
    match messages {
        None => Some(FfiError::NullPointer),
        Some(v) => revealed_prefix_error(v@, v@.len()),
    }
}

/// The map that reading the first `n` revealed messages builds: each position
/// to the field element of its message, hashed under that position.
pub open spec fn revealed_scalar_map(v: Seq<BbsIndexedMessage>, n: nat) -> Map<usize, Seq<u8>>
    decreases n,
{
    if n == 0 {
        Map::empty()
    } else {
        revealed_scalar_map(v, (n - 1) as nat).insert(
            v[n - 1].index as usize,
            hashed_scalar(message_domain(v[n - 1].index as usize), v[n - 1].data->0@),
        )
    }
}

/// The positions of the map are those of the first `n` messages, and each
/// message whose position occurs once maps to its field element.
pub proof fn lemma_revealed_scalar_map(v: Seq<BbsIndexedMessage>, n: nat)
    requires
        n <= v.len(),
    ensures
        forall|k: usize|
            #[trigger] revealed_scalar_map(v, n).contains_key(k) <==> exists|j: int|
                0 <= j < n && v[j].index as usize == k,
        (forall|i: int, j: int| 0 <= i < j < n ==> #[trigger] v[i].index != #[trigger] v[j].index)
            ==> forall|j: int|
            0 <= j < n ==> revealed_scalar_map(v, n)[#[trigger] v[j].index as usize] == hashed_scalar(
                message_domain(v[j].index as usize),
                v[j].data->0@,
            ),
        revealed_scalar_map(v, n).dom().finite(),
        revealed_scalar_map(v, n).len() <= n,
    decreases n,
{
    if n > 0 {
        lemma_revealed_scalar_map(v, (n - 1) as nat);
        let m = revealed_scalar_map(v, (n - 1) as nat);
        let last = n - 1;
        assert forall|k: usize| #[trigger] revealed_scalar_map(v, n).contains_key(k) <==> exists|j: int|
            0 <= j < n && v[j].index as usize == k by {
            if k == v[last].index as usize {
                assert(v[last].index as usize == k);
            } else if revealed_scalar_map(v, n).contains_key(k) {
                assert(m.contains_key(k));
            } else {
                if exists|j: int| 0 <= j < n && v[j].index as usize == k {
                    let j = choose|j: int| 0 <= j < n && v[j].index as usize == k;
                    assert(j != last);
                    assert(m.contains_key(k));
                }
            }
        }
        if forall|i: int, j: int| 0 <= i < j < n ==> #[trigger] v[i].index != #[trigger] v[j].index {
            assert forall|j: int| 0 <= j < n implies revealed_scalar_map(v, n)[#[trigger] v[j].index
                as usize] == hashed_scalar(message_domain(v[j].index as usize), v[j].data->0@) by {
                if j < last {
                    assert(v[j].index != v[last].index);
                    assert(forall|a: int, b: int|
                        0 <= a < b < (n - 1) as nat ==> #[trigger] v[a].index != #[trigger] v[b].index);
                }
            }
        }
        if m.contains_key(v[last].index as usize) {
            assert(m.insert(v[last].index as usize, hashed_scalar(message_domain(v[last].index as usize), v[last].data->0@)).dom() =~= m.dom());
        } else {
            assert(m.insert(v[last].index as usize, hashed_scalar(message_domain(v[last].index as usize), v[last].data->0@)).dom() =~= m.dom().insert(v[last].index as usize));
        }
    } else {
        assert(revealed_scalar_map(v, 0).dom() =~= Set::<usize>::empty());
    }
}

/// Reads the revealed messages and hashes each under its own position into a
/// map by position.
pub fn read_revealed_messages(messages: &Option<Vec<BbsIndexedMessage>>) -> (r: Result<
    BTreeMap<usize, Vec<u8>>,
    FfiError,
>)
    ensures
        match revealed_messages_error(*messages) {
            Some(e) => r == Err::<BTreeMap<usize, Vec<u8>>, FfiError>(e),
            None => r matches Ok(m) && scalar_map(m@) == revealed_scalar_map(
                messages->0@,
                messages->0@.len(),
            ),
        },
{
    if messages.is_none() {
        return Err(FfiError::NullPointer);
    }
    let v = messages.as_ref().unwrap();
    let mut out: BTreeMap<usize, Vec<u8>> = BTreeMap::new();
    let mut i: usize = 0;
    assert(scalar_map(out@) =~= revealed_scalar_map(v@, 0));
    while i < v.len()
        invariant
            i <= v.len(),
            *messages == Some(*v),
            revealed_prefix_error(v@, i as nat) is None,
            scalar_map(out@) == revealed_scalar_map(v@, i as nat),
        decreases v.len() - i,
    {
        let index = v[i].index as usize;
        proof {
            lemma_revealed_scalar_map(v@, i as nat);
        }
        assert(scalar_map(out@).dom() =~= out@.dom());
        if out.contains_key(&index) {
            proof {
                assert(revealed_scalar_map(v@, i as nat).contains_key(index));
                let j = choose|j: int| 0 <= j < i && v@[j].index as usize == index;
                assert(v@[j].index == v@[i as int].index);
                assert(revealed_message_error(v@, i as int) == Some(FfiError::InvalidIndex));
                lemma_prefix_error_stops(v@, (i + 1) as nat, v@.len());
            }
            return Err(FfiError::InvalidIndex);
        }
        match &v[i].data {
            None => {
                proof {
                    if exists|j: int| 0 <= j < i && (#[trigger] v@[j]).index == v@[i as int].index {
                        let j = choose|j: int| 0 <= j < i && (#[trigger] v@[j]).index == v@[i as int].index;
                        assert(v@[j].index as usize == index);
                    }
                    assert(revealed_message_error(v@, i as int) == Some(FfiError::NullPointer));
                    lemma_prefix_error_stops(v@, (i + 1) as nat, v@.len());
                }
                return Err(FfiError::NullPointer);
            },
            Some(bytes) => {
                let scalar = hash_message(index, bytes.as_slice());
                let ghost prev = out@;
                out.insert(index, scalar);
                proof {
                    assert(v@[i as int].data == Some(*bytes));
                    if exists|j: int| 0 <= j < i && (#[trigger] v@[j]).index == v@[i as int].index {
                        let j = choose|j: int| 0 <= j < i && (#[trigger] v@[j]).index == v@[i as int].index;
                        assert(v@[j].index as usize == index);
                    }
                    assert(revealed_message_error(v@, i as int) is None);
                    assert(scalar_map(out@) =~= scalar_map(prev).insert(index, scalar@));
                }
            },
        }
        i = i + 1;
    }
    Ok(out)
}

/// Reading the first `n` revealed messages succeeds exactly when their
/// positions are distinct and none of their bytes is null.
pub proof fn lemma_revealed_read_clean(v: Seq<BbsIndexedMessage>, n: nat)
    requires
        n <= v.len(),
    ensures
        revealed_prefix_error(v, n) is None <==> (forall|i: int, j: int|
            0 <= i < j < n ==> #[trigger] v[i].index != #[trigger] v[j].index) && (forall|i: int|
            0 <= i < n ==> (#[trigger] v[i]).data is Some),
    decreases n,
{
    if n > 0 {
        lemma_revealed_read_clean(v, (n - 1) as nat);
        let last = n - 1;
        if revealed_prefix_error(v, n) is None {
            assert(revealed_message_error(v, last) is None);
            assert forall|i: int, j: int| 0 <= i < j < n implies #[trigger] v[i].index
                != #[trigger] v[j].index by {
                if j == last {
                    if v[i].index == v[j].index {
                        assert(exists|k: int| 0 <= k < last && (#[trigger] v[k]).index == v[last].index);
                    }
                }
            }
        }
    }
}

/// Once reading the revealed messages fails, it fails with the same error
/// however many more messages follow.
proof fn lemma_prefix_error_stops(v: Seq<BbsIndexedMessage>, n: nat, m: nat)
    requires
        n <= m,
        revealed_prefix_error(v, n) is Some,
    ensures
        revealed_prefix_error(v, m) == revealed_prefix_error(v, n),
    decreases m - n,
{
    if n < m {
        lemma_prefix_error_stops(v, n, (m - 1) as nat);
    }
}


/// Generates signature parameters and a key pair for `message_count` messages,
/// each serialized: parameters, secret key, public key.
pub fn generate_keypair(message_count: u32) -> (r: Result<(Vec<u8>, Vec<u8>, Vec<u8>), FfiError>)
    ensures
        message_count == 0 <==> r == Err::<(Vec<u8>, Vec<u8>, Vec<u8>), FfiError>(
            FfiError::InvalidLength,
        ),
        r matches Err(e) ==> e == FfiError::InvalidLength || e == FfiError::Crypto,
        r == Err::<(Vec<u8>, Vec<u8>, Vec<u8>), FfiError>(FfiError::Crypto) ==> invalid_key_draw(
            message_count as nat,
        ),
        r matches Ok(t) ==> key_material(t.0@, t.1@, t.2@, message_count as nat),
{
    if message_count == 0 {
        return Err(FfiError::InvalidLength);
    }
    let params = params_generate(message_count);
    let (secret_key, public_key) = keypair_generate(params.as_slice());
    let ghost (p, k) = (params@, secret_key@);
    let r = checked_key_material(params, secret_key, public_key);
    proof {
        if r is Err {
            assert(key_draw_invalid(p, k));
        }
    }
    r
}

/// Whether parameters drawn for some number of messages, with a secret key
/// drawn under them, fail the validity check: the parameters, or the public
/// key derived from the secret key, are not valid.
pub open spec fn key_draw_invalid(params: Seq<u8>, secret_key: Seq<u8>) -> bool {
    &&& decodes_exactly(Encoding::Params, params)
    &&& decodes_exactly(Encoding::SecretKey, secret_key)
    &&& decodes_exactly(Encoding::PublicKey, public_key_of(secret_key, params))
    &&& !(params_are_valid(params) && public_key_is_valid(public_key_of(secret_key, params)))
}

/// Whether key generation for `message_count` messages can draw material that
/// fails the validity check: key generation reports a cryptographic failure
/// only then, whatever the count.
pub open spec fn invalid_key_draw(message_count: nat) -> bool {
    message_count > 0 && exists|params: Seq<u8>, secret_key: Seq<u8>|
        params_message_count(params) == message_count && #[trigger] key_draw_invalid(
            params,
            secret_key,
        )
}

/// Accepts generated key material only when both the parameters and the
/// public key are valid; otherwise reports a cryptographic failure.
pub fn checked_key_material(params: Vec<u8>, secret_key: Vec<u8>, public_key: Vec<u8>) -> (r: Result<
    (Vec<u8>, Vec<u8>, Vec<u8>),
    FfiError,
>)
    requires
        decodes_exactly(Encoding::Params, params@),
        decodes_exactly(Encoding::PublicKey, public_key@),
    ensures
        r is Ok <==> params_are_valid(params@) && public_key_is_valid(public_key@),
        r matches Err(e) ==> e == FfiError::Crypto,
        r matches Ok(t) ==> t == (params, secret_key, public_key),
{
    if !params_valid(params.as_slice()) || !public_key_valid(public_key.as_slice()) {
        return Err(FfiError::Crypto);
    }
    Ok((params, secret_key, public_key))
}

/// What holds of generated key material: each part is one whole non-empty
/// encoding, the parameters sign `message_count` messages and are valid, and
/// the public key is the valid one that belongs to the secret key.
pub open spec fn key_material(
    params: Seq<u8>,
    secret_key: Seq<u8>,
    public_key: Seq<u8>,
    message_count: nat,
) -> bool {
    &&& decodes_exactly(Encoding::Params, params)
    &&& decodes_exactly(Encoding::SecretKey, secret_key)
    &&& decodes_exactly(Encoding::PublicKey, public_key)
    &&& params_message_count(params) == message_count
    &&& public_key == public_key_of(secret_key, params)
    &&& params_are_valid(params)
    &&& public_key_is_valid(public_key)
    &&& params.len() > 0
    &&& secret_key.len() > 0
    &&& public_key.len() > 0
}

/// Whether `signature` is a signature that signing the scalars with the secret
/// key under the parameters gives and keeps: one whole non-empty encoding
/// whose point `A` is not the identity, which verifies under the public key of
/// the secret key.
pub open spec fn signed_with(
    params: Seq<u8>,
    secret_key: Seq<u8>,
    messages: Seq<Seq<u8>>,
    signature: Seq<u8>,
) -> bool {
    &&& decodes_exactly(Encoding::Signature, signature)
    &&& signature.len() > 0
    &&& signature_is_non_zero(signature)
    &&& signature_accepted(params, public_key_of(secret_key, params), messages, signature)
}

/// Keeps a new signature only when its point `A` is not the identity (a
/// signature with a zero `A` never verifies); otherwise reports a
/// cryptographic failure.
pub fn checked_signature(signature: Vec<u8>) -> (r: Result<Vec<u8>, FfiError>)
    requires
        decodes_exactly(Encoding::Signature, signature@),
    ensures
        r is Ok <==> signature_is_non_zero(signature@),
        r matches Err(e) ==> e == FfiError::Crypto,
        r matches Ok(s) ==> s == signature,
{
    if !signature_non_zero(signature.as_slice()) {
        return Err(FfiError::Crypto);
    }
    Ok(signature)
}

/// Whether signing can draw a signature whose point `A` is the identity: the
/// one way signing fails when the message count fits the parameters.
pub open spec fn zero_signature_drawn() -> bool {
    exists|signature: Seq<u8>|
        decodes_exactly(Encoding::Signature, signature) && !#[trigger] signature_is_non_zero(
            signature,
        )
}

/// Signs field elements with the secret key under the parameters. It fails
/// when there is no message or their number is not the parameters' count, and
/// when the signature drawn has a zero point `A`.
pub fn sign(params: &[u8], secret_key: &[u8], messages: &[Vec<u8>]) -> (r: Result<Vec<u8>, FfiError>)
    requires
        decodes_exactly(Encoding::Params, params@),
        decodes_exactly(Encoding::SecretKey, secret_key@),
    ensures
        r is Ok ==> messages@.len() > 0 && messages@.len() == params_message_count(params@),
        r matches Err(e) ==> e == FfiError::Crypto,
        r is Err && messages@.len() > 0 && messages@.len() == params_message_count(params@)
            ==> zero_signature_drawn(),
        r matches Ok(s) ==> signed_with(params@, secret_key@, byte_views(messages@), s@),
{
    match signature_new(params, secret_key, messages) {
        Ok(signature) => checked_signature(signature),
        Err(_) => Err(FfiError::Crypto),
    }
}

/// The outcome of verifying a signature over field elements.
pub open spec fn signature_outcome(
    params: Seq<u8>,
    public_key: Seq<u8>,
    messages: Seq<Seq<u8>>,
    signature: Seq<u8>,
) -> Result<(), FfiError> {
    if signature_accepted(params, public_key, messages, signature) {
        Ok(())
    } else {
        Err(FfiError::VerifyFailed)
    }
}

/// Verifies a signature over field elements.
pub fn verify_signature(
    params: &[u8],
    public_key: &[u8],
    messages: &[Vec<u8>],
    signature: &[u8],
) -> (r: Result<(), FfiError>)
    requires
        decodes_exactly(Encoding::Params, params@),
        decodes_exactly(Encoding::PublicKey, public_key@),
        decodes_exactly(Encoding::Signature, signature@),
    ensures
        r == signature_outcome(params@, public_key@, byte_views(messages@), signature@),
{
    match signature_verify(params, public_key, messages, signature) {
        Ok(()) => Ok(()),
        Err(_) => Err(FfiError::VerifyFailed),
    }
}

/// The revealed field elements by position: each position of the set, with
/// the element there.
pub open spec fn disclosed_map(messages: Seq<Seq<u8>>, revealed: Set<usize>) -> Map<usize, Seq<u8>> {
    Map::new(|i: usize| revealed.contains(i), |i: usize| messages[i as int])
}

/// The revealed field elements: each revealed position with the element there.
pub fn revealed_scalars(messages: &Vec<Vec<u8>>, revealed: &BTreeSet<usize>) -> (r: BTreeMap<
    usize,
    Vec<u8>,
>)
    requires
        forall|i: usize| #[trigger] revealed@.contains(i) ==> i < messages@.len(),
    ensures
        scalar_map(r@) == disclosed_map(byte_views(messages@), revealed@),
        scalar_map(r@).len() <= messages@.len(),
{
    let ghost msgs = byte_views(messages@);
    let mut out: BTreeMap<usize, Vec<u8>> = BTreeMap::new();
    let mut i: usize = 0;
    assert(scalar_map(out@) =~= Map::new(
        |k: usize| k < 0 && revealed@.contains(k),
        |k: usize| msgs[k as int],
    ));
    assert(scalar_map(out@).dom() =~= Set::<usize>::empty());
    while i < messages.len()
        invariant
            i <= messages.len(),
            msgs == byte_views(messages@),
            scalar_map(out@) == Map::new(
                |k: usize| k < i && revealed@.contains(k),
                |k: usize| msgs[k as int],
            ),
            scalar_map(out@).dom().finite(),
            scalar_map(out@).len() <= i,
        decreases messages.len() - i,
    {
        let ghost before = scalar_map(out@);
        if revealed.contains(&i) {
            let copy = copy_bytes(messages[i].as_slice());
            out.insert(i, copy);
            assert(scalar_map(out@) =~= before.insert(i, msgs[i as int]));
            assert(!before.dom().contains(i));
            assert(scalar_map(out@).dom() =~= before.dom().insert(i));
        }
        assert(scalar_map(out@) =~= Map::new(
            |k: usize| k < i + 1 && revealed@.contains(k),
            |k: usize| msgs[k as int],
        ));
        i = i + 1;
    }
    assert(scalar_map(out@) =~= disclosed_map(msgs, revealed@));
    out
}

/// For each of `count` positions, whether it is revealed.
pub fn reveal_flags(count: usize, revealed: &BTreeSet<usize>) -> (r: Vec<bool>)
    ensures
        r@ == Seq::new(count as nat, |j: int| revealed@.contains(j as usize)),
{
    let mut out: Vec<bool> = Vec::new();
    let mut j: usize = 0;
    while j < count
        invariant
            j <= count,
            out@ == Seq::new(j as nat, |i: int| revealed@.contains(i as usize)),
        decreases count - j,
    {
        let shown = revealed.contains(&j);
        out.push(shown);
        assert(out@ =~= Seq::new((j + 1) as nat, |i: int| revealed@.contains(i as usize)));
        j = j + 1;
    }
    out
}

/// The prover's challenge: the oracle over the encoded public key followed by
/// the contribution of the protocol's commitment.
pub open spec fn protocol_challenge(
    public_key: Seq<u8>,
    state: ProverState,
    revealed: Map<usize, Seq<u8>>,
    params: Seq<u8>,
) -> Seq<u8> {
    oracle_challenge(
        public_key_reencoding(public_key) + challenge_contribution(state.commitment(), revealed, params),
    )
}

/// Computes the prover's challenge: the oracle over the encoded public key
/// followed by the protocol's contribution.
pub fn proof_challenge_from_protocol(
    public_key: &[u8],
    protocol: &ProverState,
    revealed: &BTreeMap<usize, Vec<u8>>,
    params: &[u8],
) -> (r: Vec<u8>)
    requires
        decodes_exactly(Encoding::PublicKey, public_key@),
        decodes_exactly(Encoding::Params, params@),
    ensures
        r@ == protocol_challenge(public_key@, *protocol, scalar_map(revealed@), params@),
{
    let mut bytes = public_key_reencode(public_key);
    let ghost key_bytes = bytes@;
    let mut contribution = protocol_contribution(protocol, revealed, params);
    let ghost tail = contribution@;
    bytes.append(&mut contribution);
    assert(bytes@ == key_bytes + tail);
    challenge_scalar(bytes.as_slice())
}

/// Creates a proof of knowledge of the signature over the field elements,
/// revealing those at the given positions and hiding the others. It fails
/// exactly when the number of elements is not the parameters' count; a proof
/// it creates for a signature that verifies verifies for the disclosed
/// positions and elements.
pub fn create_proof(
    params: &[u8],
    public_key: &[u8],
    signature: &[u8],
    messages: &Vec<Vec<u8>>,
    revealed: &BTreeSet<usize>,
) -> (r: Result<Vec<u8>, FfiError>)
    requires
        decodes_exactly(Encoding::Params, params@),
        decodes_exactly(Encoding::PublicKey, public_key@),
        decodes_exactly(Encoding::Signature, signature@),
        forall|i: usize| #[trigger] revealed@.contains(i) ==> i < messages@.len(),
    ensures
        r is Ok <==> messages@.len() == params_message_count(params@),
        r matches Err(e) ==> e == FfiError::Crypto,
        r matches Ok(p) ==> proof_created(
            params@,
            public_key@,
            signature@,
            byte_views(messages@),
            revealed@,
            p@,
        ),
{
    let shown = revealed_scalars(messages, revealed);
    let flags = reveal_flags(messages.len(), revealed);
    let ghost msgs = byte_views(messages@);
    let state = match open_protocol(params, signature, messages.as_slice(), flags.as_slice()) {
        Ok(s) => s,
        Err(_) => return Err(FfiError::Crypto),
    };
    let challenge = proof_challenge_from_protocol(public_key, &state, &shown, params);
    let ghost opened = state;
    let proof = protocol_gen_proof(state, challenge.as_slice());
    proof {
        let m = scalar_map(shown@);
        assert(revealed_map(opened.messages(), opened.disclose()) =~= m);
        if signature_accepted(params@, public_key@, msgs, signature@) {
            assert(proof_accepted(params@, public_key@, proof@, m, challenge@));
        }
    }
    Ok(proof)
}

/// What holds of a proof created for the signature over the field elements,
/// revealing those at the given positions: it is one whole non-empty encoding
/// and, when the signature verifies under the public key, the proof verifies
/// for the disclosed positions and elements.
pub open spec fn proof_created(
    params: Seq<u8>,
    public_key: Seq<u8>,
    signature: Seq<u8>,
    messages: Seq<Seq<u8>>,
    revealed: Set<usize>,
    proof: Seq<u8>,
) -> bool {
    &&& decodes_exactly(Encoding::Proof, proof)
    &&& proof.len() > 0
    &&& signature_accepted(params, public_key, messages, signature) ==> proof_outcome(
        params,
        public_key,
        proof,
        disclosed_map(messages, revealed),
    ) == Ok::<(), FfiError>(())
}

/// The verifier's challenge for a proof: the oracle over the encoded public
/// key followed by the proof's contribution.
pub open spec fn proof_challenge(
    public_key: Seq<u8>,
    proof: Seq<u8>,
    revealed: Map<usize, Seq<u8>>,
    params: Seq<u8>,
) -> Seq<u8> {
    oracle_challenge(
        public_key_reencoding(public_key) + challenge_contribution(proof_commitment(proof), revealed, params),
    )
}

/// The verifier recomputes the prover's challenge: for a proof that carries
/// the commitment of the prover's protocol state, the challenge computed from
/// the proof is the one computed from the state, for the same public key,
/// disclosed elements and parameters.
pub proof fn lemma_verifier_recomputes_challenge(
    state: ProverState,
    proof: Seq<u8>,
    public_key: Seq<u8>,
    revealed: Map<usize, Seq<u8>>,
    params: Seq<u8>,
)
    requires
        proof_commitment(proof) == state.commitment(),
    ensures
        proof_challenge(public_key, proof, revealed, params) == protocol_challenge(
            public_key,
            state,
            revealed,
            params,
        ),
{
}

/// Computes the verifier's challenge for a proof.
pub fn proof_challenge_from_proof(
    public_key: &[u8],
    proof: &[u8],
    revealed: &BTreeMap<usize, Vec<u8>>,
    params: &[u8],
) -> (r: Vec<u8>)
    requires
        decodes_exactly(Encoding::PublicKey, public_key@),
        decodes_exactly(Encoding::Proof, proof@),
        decodes_exactly(Encoding::Params, params@),
    ensures
        r@ == proof_challenge(public_key@, proof@, scalar_map(revealed@), params@),
{
    let mut bytes = public_key_reencode(public_key);
    let ghost key_bytes = bytes@;
    let mut contribution = proof_contribution(proof, revealed, params);
    let ghost tail = contribution@;
    bytes.append(&mut contribution);
    assert(bytes@ == key_bytes + tail);
    challenge_scalar(bytes.as_slice())
}

/// The outcome of verifying a proof for the revealed field elements by
/// position: more of them than two past the parameters' count are refused as
/// a failed verification.
pub open spec fn proof_outcome(
    params: Seq<u8>,
    public_key: Seq<u8>,
    proof: Seq<u8>,
    revealed: Map<usize, Seq<u8>>,
) -> Result<(), FfiError> {
    if revealed.len() > params_message_count(params) + 2 {
        Err(FfiError::VerifyFailed)
    } else if proof_accepted(
        params,
        public_key,
        proof,
        revealed,
        proof_challenge(public_key, proof, revealed, params),
    ) {
        Ok(())
    } else {
        Err(FfiError::VerifyFailed)
    }
}

/// Verifies a proof for the revealed field elements. More entries than two
/// past the parameters' count are refused as a failed verification before the
/// outside verifier runs: `PoKOfSignatureG1Proof::verify` would panic on them
/// once its first Schnorr check passed (a panic the C boundary reports as
/// `BBS_ERROR_PANIC`), and fail verification otherwise.
pub fn verify_proof(
    params: &[u8],
    public_key: &[u8],
    proof: &[u8],
    revealed: &BTreeMap<usize, Vec<u8>>,
) -> (r: Result<(), FfiError>)
    requires
        decodes_exactly(Encoding::Params, params@),
        decodes_exactly(Encoding::PublicKey, public_key@),
        decodes_exactly(Encoding::Proof, proof@),
    ensures
        r == proof_outcome(params@, public_key@, proof@, scalar_map(revealed@)),
{
    let count = params_count(params);
    let entries = revealed.len();
    assert(scalar_map(revealed@).dom() =~= revealed@.dom());
    if count < entries && entries - count > 2 {
        return Err(FfiError::VerifyFailed);
    }
    let challenge = proof_challenge_from_proof(public_key, proof, revealed, params);
    match proof_verify(params, public_key, proof, revealed, challenge.as_slice()) {
        Ok(()) => Ok(()),
        Err(_) => Err(FfiError::VerifyFailed),
    }
}


/// The error for more messages than the parameters (encoded in `params`) have slots.
pub open spec fn too_many_error(params: Seq<u8>, messages: Option<Vec<BbsMessage>>) -> Option<FfiError> {
    if messages->0@.len() > params_message_count(params) {
        Some(FfiError::TooManyMessages)
    } else {
        None
    }
}

/// The field elements that messages are signed as under the parameters: the
/// messages padded with the sentinel to every slot of the parameters, each
/// hashed under its own position.
pub open spec fn slot_scalars(params: Seq<u8>, messages: Seq<BbsMessage>) -> Seq<Seq<u8>> {
    hashed_messages(padded(message_bytes(messages), params_message_count(params)))
}

/// The field elements messages are signed as: one per slot of the
/// parameters; each supplied message is hashed in its own slot under that
/// slot's position, and each slot after them holds the hashed sentinel. So a
/// message changed at any supplied position changes what is signed there.
pub proof fn lemma_slot_scalars(params: Seq<u8>, messages: Seq<BbsMessage>)
    requires
        messages.len() <= params_message_count(params),
    ensures
        slot_scalars(params, messages).len() == params_message_count(params),
        forall|i: int|
            0 <= i < messages.len() ==> #[trigger] slot_scalars(params, messages)[i] == hashed_scalar(
                message_domain(i as usize),
                messages[i].data->0@,
            ),
        forall|i: int|
            messages.len() <= i < params_message_count(params) ==> #[trigger] slot_scalars(
                params,
                messages,
            )[i] == hashed_scalar(message_domain(i as usize), padding_sentinel()),
{
    lemma_padding_keeps_messages(message_bytes(messages), params_message_count(params));
    let p = padded(message_bytes(messages), params_message_count(params));
    assert forall|i: int| 0 <= i < messages.len() implies #[trigger] slot_scalars(params, messages)[i]
        == hashed_scalar(message_domain(i as usize), messages[i].data->0@) by {
        assert(p.take(messages.len() as int)[i] == p[i]);
    }
}

/// Reads the messages, refuses more than the parameters have slots for, pads
/// them to every slot and hashes each under its own position.
pub fn read_slot_scalars(params: &[u8], messages: &Option<Vec<BbsMessage>>) -> (r: Result<
    Vec<Vec<u8>>,
    FfiError,
>)
    requires
        decodes_exactly(Encoding::Params, params@),
    ensures
        match first_error(read_messages_error(*messages), too_many_error(params@, *messages)) {
            Some(e) => r == Err::<Vec<Vec<u8>>, FfiError>(e),
            None => r matches Ok(v) && byte_views(v@) == slot_scalars(params@, messages->0@) && v@.len()
                == params_message_count(params@),
        },
{
    let raw_messages = read_messages(messages)?;
    assert(byte_views(raw_messages@).len() == raw_messages@.len());
    let slots = params_count(params);
    if raw_messages.len() > slots {
        return Err(FfiError::TooManyMessages);
    }
    let filled = pad_messages(raw_messages, slots);
    let scalars = hash_messages(&filled);
    assert(byte_views(scalars@).len() == scalars@.len());
    assert(byte_views(filled@).len() == filled@.len());
    Ok(scalars)
}

/// Generates signature parameters and a BBS+ key pair for `message_count`
/// messages, each handed back as a buffer of compressed bytes.
pub fn bbs_generate_keypair(message_count: u32) -> (r: Result<BbsKeyPair, FfiError>)
    ensures
        message_count == 0 <==> r == Err::<BbsKeyPair, FfiError>(FfiError::InvalidLength),
        r matches Err(e) ==> e == FfiError::InvalidLength || e == FfiError::Crypto,
        r == Err::<BbsKeyPair, FfiError>(FfiError::Crypto) ==> invalid_key_draw(message_count as nat),
        r matches Ok(k) ==> key_material(
            k.params.data@,
            k.secret_key.data@,
            k.public_key.data@,
            message_count as nat,
        ),
{
    let (params, secret_key, public_key) = generate_keypair(message_count)?;
    Ok(
        BbsKeyPair {
            params: buffer_from_vec(params),
            secret_key: buffer_from_vec(secret_key),
            public_key: buffer_from_vec(public_key),
        },
    )
}

/// The error that `bbs_sign` gives before it signs, if any.
pub open spec fn sign_input_error(
    params: BbsByteSlice,
    secret_key: BbsByteSlice,
    messages: Option<Vec<BbsMessage>>,
) -> Option<FfiError> {
    first_error(
        input_error(params, Encoding::Params),
        first_error(
            input_error(secret_key, Encoding::SecretKey),
            first_error(read_messages_error(messages), too_many_error(params.data->0@, messages)),
        ),
    )
}

/// Signs raw byte messages: fewer messages than the parameters have slots are
/// padded with the sentinel, each slot is hashed to a field element under its
/// own position, and the signature is handed back as compressed bytes. More
/// messages than slots are refused.
pub fn bbs_sign(
    params: &BbsByteSlice,
    secret_key: &BbsByteSlice,
    messages: &Option<Vec<BbsMessage>>,
) -> (r: Result<BbsByteBuffer, FfiError>)
    ensures
        match sign_input_error(*params, *secret_key, *messages) {
            Some(e) => r == Err::<BbsByteBuffer, FfiError>(e),
            None => {
                &&& r is Err ==> r == Err::<BbsByteBuffer, FfiError>(FfiError::Crypto)
                    && zero_signature_drawn()
                &&& r matches Ok(b) ==> signed_with(
                    params.data->0@,
                    secret_key.data->0@,
                    slot_scalars(params.data->0@, messages->0@),
                    b.data@,
                )
            },
        },
{
    let params = read_encoded(params, Encoding::Params)?;
    let secret_key = read_encoded(secret_key, Encoding::SecretKey)?;
    let scalars = read_slot_scalars(params, messages)?;
    let signature = sign(params, secret_key, scalars.as_slice())?;
    Ok(buffer_from_vec(signature))
}

/// A signature that `bbs_sign` gives verifies: under the public key of the
/// secret key, with any list of messages that holds the same byte strings in
/// the same order.
pub proof fn lemma_signature_verifies(
    params: BbsByteSlice,
    secret_key: BbsByteSlice,
    public_key: BbsByteSlice,
    messages: Vec<BbsMessage>,
    same_messages: Vec<BbsMessage>,
    signature: BbsByteSlice,
)
    requires
        sign_input_error(params, secret_key, Some(messages)) is None,
        signature.data matches Some(s) && signed_with(
            params.data->0@,
            secret_key.data->0@,
            slot_scalars(params.data->0@, messages@),
            s@,
        ),
        public_key.data matches Some(k) && k@ == public_key_of(secret_key.data->0@, params.data->0@),
        decodes_exactly(Encoding::PublicKey, public_key.data->0@),
        read_messages_error(Some(same_messages)) is None,
        message_bytes(same_messages@) == message_bytes(messages@),
    ensures
        signature_check(params, public_key, Some(same_messages), signature) == Ok::<(), FfiError>(()),
{
    assert(same_messages@.len() == message_bytes(same_messages@).len());
    assert(messages@.len() == message_bytes(messages@).len());
}

/// What `bbs_verify_signature` reports.
pub open spec fn signature_check(
    params: BbsByteSlice,
    public_key: BbsByteSlice,
    messages: Option<Vec<BbsMessage>>,
    signature: BbsByteSlice,
) -> Result<(), FfiError> {
    match first_error(
        first_error(input_error(params, Encoding::Params), input_error(public_key, Encoding::PublicKey)),
        first_error(
            input_error(signature, Encoding::Signature),
            first_error(read_messages_error(messages), too_many_error(params.data->0@, messages)),
        ),
    ) {
        Some(e) => Err(e),
        None => signature_outcome(
            params.data->0@,
            public_key.data->0@,
            slot_scalars(params.data->0@, messages->0@),
            signature.data->0@,
        ),
    }
}

/// Verifies a BBS+ signature over raw byte messages, padded and hashed as
/// `bbs_sign` pads and hashes them; `Ok` only when the signature verifies.
pub fn bbs_verify_signature(
    params: &BbsByteSlice,
    public_key: &BbsByteSlice,
    messages: &Option<Vec<BbsMessage>>,
    signature: &BbsByteSlice,
) -> (r: Result<(), FfiError>)
    ensures
        r == signature_check(*params, *public_key, *messages, *signature),
{
    let params = read_encoded(params, Encoding::Params)?;
    let public_key = read_encoded(public_key, Encoding::PublicKey)?;
    let signature = read_encoded(signature, Encoding::Signature)?;
    let scalars = read_slot_scalars(params, messages)?;
    verify_signature(params, public_key, scalars.as_slice(), signature)
}

/// The error that `bbs_create_proof` gives before it proves, if any. The
/// positions to reveal address the padded slots of the parameters.
pub open spec fn proof_input_error(
    params: BbsByteSlice,
    public_key: BbsByteSlice,
    signature: BbsByteSlice,
    messages: Option<Vec<BbsMessage>>,
    revealed_indices: Option<Vec<u32>>,
) -> Option<FfiError> {
    first_error(
        first_error(input_error(params, Encoding::Params), input_error(public_key, Encoding::PublicKey)),
        first_error(
            first_error(
                input_error(signature, Encoding::Signature),
                first_error(read_messages_error(messages), too_many_error(params.data->0@, messages)),
            ),
            revealed_indices_error(revealed_indices, params_message_count(params.data->0@)),
        ),
    )
}

/// Creates a proof of knowledge of a BBS+ signature over raw byte messages,
/// padded and hashed as `bbs_sign` does, that discloses the slots at the
/// given zero-based positions of the padded layout and hides the others; the
/// proof is handed back as compressed bytes.
pub fn bbs_create_proof(
    params: &BbsByteSlice,
    public_key: &BbsByteSlice,
    signature: &BbsByteSlice,
    messages: &Option<Vec<BbsMessage>>,
    revealed_indices: &Option<Vec<u32>>,
) -> (r: Result<BbsByteBuffer, FfiError>)
    ensures
        match proof_input_error(*params, *public_key, *signature, *messages, *revealed_indices) {
            Some(e) => r == Err::<BbsByteBuffer, FfiError>(e),
            None => r matches Ok(b) && proof_created(
                params.data->0@,
                public_key.data->0@,
                signature.data->0@,
                slot_scalars(params.data->0@, messages->0@),
                as_indices(revealed_indices->0@).to_set(),
                b.data@,
            ),
        },
{
    let params = read_encoded(params, Encoding::Params)?;
    let public_key = read_encoded(public_key, Encoding::PublicKey)?;
    let signature = read_encoded(signature, Encoding::Signature)?;
    let scalars = read_slot_scalars(params, messages)?;
    let revealed = read_revealed_indices(revealed_indices, scalars.len())?;
    assert forall|i: usize| #[trigger] revealed@.contains(i) implies i < scalars@.len() by {
        let v = revealed_indices->0@;
        let k = choose|k: int| 0 <= k < as_indices(v).len() && as_indices(v)[k] == i;
        assert(as_indices(v)[k] == v[k] as usize);
        if v[k] >= scalars@.len() {
            assert(revealed_indices_error(*revealed_indices, scalars.len() as nat) is Some);
        }
    }
    match create_proof(params, public_key, signature, &scalars, &revealed) {
        Ok(proof) => Ok(buffer_from_vec(proof)),
        Err(e) => Err(e),
    }
}

/// What `bbs_verify_proof` reports.
pub open spec fn proof_check(
    params: BbsByteSlice,
    public_key: BbsByteSlice,
    proof: BbsByteSlice,
    revealed_messages: Option<Vec<BbsIndexedMessage>>,
) -> Result<(), FfiError> {
    match first_error(
        first_error(input_error(params, Encoding::Params), input_error(public_key, Encoding::PublicKey)),
        first_error(input_error(proof, Encoding::Proof), revealed_messages_error(revealed_messages)),
    ) {
        Some(e) => Err(e),
        None => proof_outcome(
            params.data->0@,
            public_key.data->0@,
            proof.data->0@,
            revealed_scalar_map(revealed_messages->0@, revealed_messages->0@.len()),
        ),
    }
}

/// Verifies a selective-disclosure BBS+ proof against the disclosed messages,
/// each given with its zero-based position in the padded layout; `Ok` only
/// when the proof verifies (see `verify_proof` for too many entries).
pub fn bbs_verify_proof(
    params: &BbsByteSlice,
    public_key: &BbsByteSlice,
    proof: &BbsByteSlice,
    revealed_messages: &Option<Vec<BbsIndexedMessage>>,
) -> (r: Result<(), FfiError>)
    ensures
        r == proof_check(*params, *public_key, *proof, *revealed_messages),
{
    let params = read_encoded(params, Encoding::Params)?;
    let public_key = read_encoded(public_key, Encoding::PublicKey)?;
    let proof = read_encoded(proof, Encoding::Proof)?;
    let revealed = read_revealed_messages(revealed_messages)?;
    verify_proof(params, public_key, proof, &revealed)
}


/// The answer a binding gives for the outcome of verifying a proof: `true`
/// when it verifies, `false` when verification fails, the error otherwise.
pub fn proof_verdict(outcome: Result<(), FfiError>) -> (r: Result<bool, FfiError>)
    ensures
        match outcome {
            Ok(()) => r == Ok::<bool, FfiError>(true),
            Err(e) => if e == FfiError::VerifyFailed {
                r == Ok::<bool, FfiError>(false)
            } else {
                r == Err::<bool, FfiError>(e)
            },
        },
{
    match outcome {
        Ok(()) => Ok(true),
        Err(FfiError::VerifyFailed) => Ok(false),
        Err(e) => Err(e),
    }
}

/// A proof is checked against the disclosed (position, message) pairs, not
/// against the order in which they are listed: two lists that hold the same
/// pairs, each read without error, give the same outcome.
pub proof fn lemma_proof_check_order_independent(
    params: BbsByteSlice,
    public_key: BbsByteSlice,
    proof: BbsByteSlice,
    a: Vec<BbsIndexedMessage>,
    b: Vec<BbsIndexedMessage>,
)
    requires
        revealed_messages_error(Some(a)) is None,
        revealed_messages_error(Some(b)) is None,
        a@.to_set() == b@.to_set(),
    ensures
        proof_check(params, public_key, proof, Some(a)) == proof_check(
            params,
            public_key,
            proof,
            Some(b),
        ),
{
    lemma_revealed_read_clean(a@, a@.len());
    lemma_revealed_read_clean(b@, b@.len());
    lemma_revealed_scalar_map(a@, a@.len());
    lemma_revealed_scalar_map(b@, b@.len());
    let ma = revealed_scalar_map(a@, a@.len());
    let mb = revealed_scalar_map(b@, b@.len());
    assert forall|k: usize| ma.contains_key(k) implies mb.contains_key(k) && ma[k] == mb[k] by {
        let j = choose|j: int| 0 <= j < a@.len() && a@[j].index as usize == k;
        assert(a@.to_set().contains(a@[j]));
        let l = choose|l: int| 0 <= l < b@.len() && b@[l] == a@[j];
        assert(b@[l].index as usize == k);
        assert(ma[a@[j].index as usize] == mb[b@[l].index as usize]);
    }
    assert forall|k: usize| mb.contains_key(k) implies ma.contains_key(k) by {
        let l = choose|l: int| 0 <= l < b@.len() && b@[l].index as usize == k;
        assert(b@.to_set().contains(b@[l]));
        let j = choose|j: int| 0 <= j < a@.len() && a@[j] == b@[l];
        assert(a@[j].index as usize == k);
    }
    assert(ma =~= mb);
}

/// A proof that `bbs_create_proof` gives for a signature that verifies is
/// accepted by `bbs_verify_proof` with the disclosed slots listed in the order
/// of the requested positions: each with its position and the bytes of that
/// slot of the padded layout (a supplied message, or the sentinel).
pub proof fn lemma_created_proof_verifies(
    params: BbsByteSlice,
    public_key: BbsByteSlice,
    signature: BbsByteSlice,
    messages: Vec<BbsMessage>,
    indices: Vec<u32>,
    proof: BbsByteSlice,
    disclosed: Vec<BbsIndexedMessage>,
)
    requires
        proof_input_error(params, public_key, signature, Some(messages), Some(indices)) is None,
        proof.data matches Some(p) && proof_created(
            params.data->0@,
            public_key.data->0@,
            signature.data->0@,
            slot_scalars(params.data->0@, messages@),
            as_indices(indices@).to_set(),
            p@,
        ),
        signature_check(params, public_key, Some(messages), signature) == Ok::<(), FfiError>(()),
        disclosed@.len() == indices@.len(),
        forall|k: int|
            0 <= k < disclosed@.len() ==> (#[trigger] disclosed@[k]).index == indices@[k]
                && disclosed@[k].data is Some && disclosed@[k].data->0@ == padded(
                message_bytes(messages@),
                params_message_count(params.data->0@),
            )[indices@[k] as int],
    ensures
        revealed_messages_error(Some(disclosed)) is None,
        proof_check(params, public_key, proof, Some(disclosed)) == Ok::<(), FfiError>(()),
{
    let n = params_message_count(params.data->0@);
    let h = slot_scalars(params.data->0@, messages@);
    let idx = as_indices(indices@);
    assert forall|k: int| 0 <= k < indices@.len() implies #[trigger] indices@[k] < n by {
        if indices@[k] >= n {
            let v = Some(indices)->0@;
            assert(v[k] >= n);
            assert(revealed_indices_error(Some(indices), n) is Some);
        }
    }
    assert forall|i: int, j: int| 0 <= i < j < disclosed@.len() implies #[trigger] disclosed@[i].index
        != #[trigger] disclosed@[j].index by {
        if indices@[i] == indices@[j] {
            let v = Some(indices)->0@;
            assert(v[i] == v[j]);
            assert(revealed_indices_error(Some(indices), n) is Some);
        }
    }
    assert forall|i: int| 0 <= i < disclosed@.len() implies (#[trigger] disclosed@[i]).data is Some by {}
    lemma_revealed_read_clean(disclosed@, disclosed@.len());
    lemma_revealed_scalar_map(disclosed@, disclosed@.len());
    let got = revealed_scalar_map(disclosed@, disclosed@.len());
    let want = disclosed_map(h, idx.to_set());
    assert forall|k: usize| got.contains_key(k) implies want.contains_key(k) && got[k] == want[k] by {
        let j = choose|j: int| 0 <= j < disclosed@.len() && disclosed@[j].index as usize == k;
        assert(idx[j] == k);
        assert(idx.to_set().contains(k));
        assert(got[disclosed@[j].index as usize] == hashed_scalar(
            message_domain(disclosed@[j].index as usize),
            disclosed@[j].data->0@,
        ));
        assert(indices@[j] < n);
    }
    assert forall|k: usize| want.contains_key(k) implies got.contains_key(k) by {
        let j = choose|j: int| 0 <= j < idx.len() && idx[j] == k;
        assert(disclosed@[j].index as usize == k);
    }
    assert(got =~= want);
}

/// The same, with the disclosed slots listed in any order: a list that holds
/// the same (position, bytes) entries and reads without error is accepted too.
pub proof fn lemma_created_proof_verifies_in_any_order(
    params: BbsByteSlice,
    public_key: BbsByteSlice,
    signature: BbsByteSlice,
    messages: Vec<BbsMessage>,
    indices: Vec<u32>,
    proof: BbsByteSlice,
    disclosed: Vec<BbsIndexedMessage>,
    listed: Vec<BbsIndexedMessage>,
)
    requires
        proof_input_error(params, public_key, signature, Some(messages), Some(indices)) is None,
        proof.data matches Some(p) && proof_created(
            params.data->0@,
            public_key.data->0@,
            signature.data->0@,
            slot_scalars(params.data->0@, messages@),
            as_indices(indices@).to_set(),
            p@,
        ),
        signature_check(params, public_key, Some(messages), signature) == Ok::<(), FfiError>(()),
        disclosed@.len() == indices@.len(),
        forall|k: int|
            0 <= k < disclosed@.len() ==> (#[trigger] disclosed@[k]).index == indices@[k]
                && disclosed@[k].data is Some && disclosed@[k].data->0@ == padded(
                message_bytes(messages@),
                params_message_count(params.data->0@),
            )[indices@[k] as int],
        revealed_messages_error(Some(listed)) is None,
        listed@.to_set() == disclosed@.to_set(),
    ensures
        proof_check(params, public_key, proof, Some(listed)) == Ok::<(), FfiError>(()),
{
    lemma_created_proof_verifies(params, public_key, signature, messages, indices, proof, disclosed);
    lemma_proof_check_order_independent(params, public_key, proof, listed, disclosed);
}

} // verus!
