//! The boundary with the BBS+ implementation of `bbs_plus` over BLS12-381.
//!
//! Scalars (BLS12-381 field elements) travel through the library as their
//! canonical 32-byte little-endian encoding; parameters, keys, signatures and
//! proofs travel as their canonical compressed encoding. Each item below makes
//! one call into the outside crates, decoding its arguments from their
//! encodings and encoding its result; what it claims of that call is stated
//! in its contract and doc comment.
use vstd::prelude::*;
use ark_bls12_381::{Bls12_381, Fr};
use ark_ff::{BigInteger, PrimeField};
use ark_serialize::{CanonicalDeserialize, CanonicalSerialize, SerializationError};
use bbs_plus::error::BBSPlusError;
use bbs_plus::proof::{PoKOfSignatureG1Proof, PoKOfSignatureG1Protocol};
use bbs_plus::setup::{KeypairG2, PublicKeyG2, SecretKey, SignatureParamsG1};
use bbs_plus::signature::SignatureG1;
use blake2::Blake2b512;
use dock_crypto_utils::hashing_utils::hash_to_field;
use dock_crypto_utils::signature::{MessageOrBlinding, MultiMessageSignatureParams};
use rand::rngs::OsRng;
use schnorr_pok::compute_random_oracle_challenge;
use std::collections::BTreeMap;

verus! {

/// `ark_serialize::SerializationError`, the error of encoding and decoding.
#[verifier::external_type_specification]
#[verifier::external_body]
pub struct ExSerializationError(SerializationError);

/// `bbs_plus::error::BBSPlusError`, the error of the signature scheme.
#[verifier::external_type_specification]
#[verifier::external_body]
pub struct ExBBSPlusError(BBSPlusError);

/// The prover's state between commitment and response,
/// `PoKOfSignatureG1Protocol<Bls12_381>`. (The generic outside types cannot
/// be declared to Verus, as their bounds name outside traits, so this one is
/// held in an opaque struct of the library.)
#[verifier::external_body]
pub struct ProofProtocol {
    inner: PoKOfSignatureG1Protocol<Bls12_381>,
}

/// The kinds of value that travel as their compressed encoding.
#[derive(Clone, Copy, PartialEq, Eq, Structural)]
pub enum Encoding {
    Params,
    SecretKey,
    PublicKey,
    Signature,
    Proof,
}

/// How many bytes `SignatureParamsG1::<Bls12_381>::deserialize_compressed`
/// reads from the front of `bytes` when it succeeds; `None` when it fails.
pub uninterp spec fn params_decoded_len(bytes: Seq<u8>) -> Option<nat>;

/// The same for `SecretKey::<Fr>::deserialize_compressed`.
pub uninterp spec fn secret_key_decoded_len(bytes: Seq<u8>) -> Option<nat>;

/// The same for `PublicKeyG2::<Bls12_381>::deserialize_compressed`.
pub uninterp spec fn public_key_decoded_len(bytes: Seq<u8>) -> Option<nat>;

/// The same for `SignatureG1::<Bls12_381>::deserialize_compressed`.
pub uninterp spec fn signature_decoded_len(bytes: Seq<u8>) -> Option<nat>;

/// The same for `PoKOfSignatureG1Proof::<Bls12_381>::deserialize_compressed`.
pub uninterp spec fn proof_decoded_len(bytes: Seq<u8>) -> Option<nat>;

/// How many bytes the decoder of a kind reads from the front of `bytes`.
pub open spec fn decoded_len(kind: Encoding, bytes: Seq<u8>) -> Option<nat> {
    match kind {
        Encoding::Params => params_decoded_len(bytes),
        Encoding::SecretKey => secret_key_decoded_len(bytes),
        Encoding::PublicKey => public_key_decoded_len(bytes),
        Encoding::Signature => signature_decoded_len(bytes),
        Encoding::Proof => proof_decoded_len(bytes),
    }
}

/// Whether `bytes` is one whole encoding of a value of the kind, with nothing after it.
pub open spec fn decodes_exactly(kind: Encoding, bytes: Seq<u8>) -> bool {
    decoded_len(kind, bytes) == Some(bytes.len())
}

/// What a decoder that reports the unread length says, against its name.
pub open spec fn decoding_reported(
    r: Result<usize, SerializationError>,
    bytes: Seq<u8>,
    decoded: Option<nat>,
) -> bool {
    match r {
        Ok(unread) => unread <= bytes.len() && decoded == Some((bytes.len() - unread) as nat),
        Err(_) => decoded is None,
    }
}

/// `SignatureParamsG1::<Bls12_381>::deserialize_compressed` reading from the
/// slice: whether it succeeds, and how many bytes it leaves unread.
#[verifier::external_body]
pub(crate) fn params_unread(bytes: &[u8]) -> (r: Result<usize, SerializationError>)
    ensures
        decoding_reported(r, bytes@, params_decoded_len(bytes@)),
{
    let mut reader = bytes;
    SignatureParamsG1::<Bls12_381>::deserialize_compressed(&mut reader).map(|_| reader.len())
}

/// `SecretKey::<Fr>::deserialize_compressed` reading from the slice: whether
/// it succeeds, and how many bytes it leaves unread.
#[verifier::external_body]
pub(crate) fn secret_key_unread(bytes: &[u8]) -> (r: Result<usize, SerializationError>)
    ensures
        decoding_reported(r, bytes@, secret_key_decoded_len(bytes@)),
{
    let mut reader = bytes;
    SecretKey::<Fr>::deserialize_compressed(&mut reader).map(|_| reader.len())
}

/// `PublicKeyG2::<Bls12_381>::deserialize_compressed` reading from the slice:
/// whether it succeeds, and how many bytes it leaves unread.
#[verifier::external_body]
pub(crate) fn public_key_unread(bytes: &[u8]) -> (r: Result<usize, SerializationError>)
    ensures
        decoding_reported(r, bytes@, public_key_decoded_len(bytes@)),
{
    let mut reader = bytes;
    PublicKeyG2::<Bls12_381>::deserialize_compressed(&mut reader).map(|_| reader.len())
}

/// `SignatureG1::<Bls12_381>::deserialize_compressed` reading from the slice:
/// whether it succeeds, and how many bytes it leaves unread.
#[verifier::external_body]
pub(crate) fn signature_unread(bytes: &[u8]) -> (r: Result<usize, SerializationError>)
    ensures
        decoding_reported(r, bytes@, signature_decoded_len(bytes@)),
{
    let mut reader = bytes;
    SignatureG1::<Bls12_381>::deserialize_compressed(&mut reader).map(|_| reader.len())
}

/// `PoKOfSignatureG1Proof::<Bls12_381>::deserialize_compressed` reading from
/// the slice: whether it succeeds, and how many bytes it leaves unread.
#[verifier::external_body]
pub(crate) fn proof_unread(bytes: &[u8]) -> (r: Result<usize, SerializationError>)
    ensures
        decoding_reported(r, bytes@, proof_decoded_len(bytes@)),
{
    let mut reader = bytes;
    PoKOfSignatureG1Proof::<Bls12_381>::deserialize_compressed(&mut reader).map(|_| reader.len())
}

/// The encoding of the field element that
/// `hash_to_field::<Fr, Blake2b512>(domain, message)` returns.
pub uninterp spec fn hashed_scalar(domain: Seq<u8>, message: Seq<u8>) -> Seq<u8>;

/// `dock_crypto_utils::hashing_utils::hash_to_field::<Fr, Blake2b512>`: hashes
/// `message` under the domain separation tag `domain` to a field element,
/// returned encoded; the result is named by `hashed_scalar`.
#[verifier::external_body]
pub(crate) fn hash_to_scalar(domain: &[u8], message: &[u8]) -> (r: Vec<u8>)
    ensures
        r@ == hashed_scalar(domain@, message@),
{
    hash_to_field::<Fr, Blake2b512>(domain, message).into_bigint().to_bytes_le()
}

/// The encoding of the field element that
/// `compute_random_oracle_challenge::<Fr, Blake2b512>(bytes)` returns.
pub uninterp spec fn oracle_challenge(bytes: Seq<u8>) -> Seq<u8>;

/// `schnorr_pok::compute_random_oracle_challenge::<Fr, Blake2b512>`: the
/// Fiat-Shamir challenge for the given bytes, returned encoded; the result is
/// named by `oracle_challenge`.
#[verifier::external_body]
pub(crate) fn challenge_scalar(bytes: &[u8]) -> (r: Vec<u8>)
    ensures
        r@ == oracle_challenge(bytes@),
{
    compute_random_oracle_challenge::<Fr, Blake2b512>(bytes).into_bigint().to_bytes_le()
}

/// The views of a sequence of byte vectors.
pub open spec fn byte_views(s: Seq<Vec<u8>>) -> Seq<Seq<u8>> {
    s.map_values(|v: Vec<u8>| v@)
}

/// The scalars of a map from position to encoded scalar, by their views.
pub open spec fn scalar_map(m: Map<usize, Vec<u8>>) -> Map<usize, Seq<u8>> {
    m.map_values(|v: Vec<u8>| v@)
}

/// How many messages the parameters decoded from `bytes` sign,
/// `SignatureParamsG1::supported_message_count` (the number of `h` elements).
pub uninterp spec fn params_message_count(bytes: Seq<u8>) -> nat;

/// `MultiMessageSignatureParams::supported_message_count` of the decoded
/// parameters; the result is named by `params_message_count`.
#[verifier::external_body]
pub(crate) fn params_count(params: &[u8]) -> (r: usize)
    requires
        decodes_exactly(Encoding::Params, params@),
    ensures
        r == params_message_count(params@),
{
    let p = SignatureParamsG1::<Bls12_381>::deserialize_compressed(params).expect("decodable");
    p.supported_message_count()
}

/// `SignatureParamsG1::<Bls12_381>::generate_using_rng` with `OsRng`, written
/// with `CanonicalSerialize::serialize_compressed` into a new vector: fresh
/// random parameters for `message_count` messages. The parameters are random;
/// what is claimed is that the bytes are one whole encoding (the round trip
/// of ark-serialize), of parameters that sign `message_count` messages.
/// Writing into a vector cannot fail.
#[verifier::external_body]
pub(crate) fn params_generate(message_count: u32) -> (r: Vec<u8>)
    requires
        message_count > 0,
    ensures
        decodes_exactly(Encoding::Params, r@),
        params_message_count(r@) == message_count,
        r@.len() > 0,
{
    let params = SignatureParamsG1::<Bls12_381>::generate_using_rng(&mut OsRng, message_count);
    let mut bytes = Vec::new();
    params.serialize_compressed(&mut bytes).expect("writing into a vector");
    bytes
}

/// Whether `SignatureParamsG1::is_valid` holds of the parameters decoded from
/// `bytes`: none of `g1`, `g2`, `h_0` and the `h` elements is the identity.
pub uninterp spec fn params_are_valid(bytes: Seq<u8>) -> bool;

/// `SignatureParamsG1::is_valid` of the decoded parameters; the answer is
/// named by `params_are_valid`.
#[verifier::external_body]
pub(crate) fn params_valid(params: &[u8]) -> (r: bool)
    requires
        decodes_exactly(Encoding::Params, params@),
    ensures
        r == params_are_valid(params@),
{
    let p = SignatureParamsG1::<Bls12_381>::deserialize_compressed(params).expect("decodable");
    p.is_valid()
}

/// The compressed encoding of `PublicKeyG2::generate_using_secret_key` for the
/// secret key and the parameters decoded from the given bytes (`g2` raised to
/// the secret key).
pub uninterp spec fn public_key_of(secret_key: Seq<u8>, params: Seq<u8>) -> Seq<u8>;

/// `KeypairG2::<Bls12_381>::generate_using_rng` with `OsRng` for the decoded
/// parameters, the secret key and the public key each written with
/// `CanonicalSerialize::serialize_compressed` into a new vector. The secret
/// key is random; what is claimed is that both are whole encodings and that
/// the public key is the one `generate_using_secret_key` derives from the
/// secret key, as `generate_using_rng` does.
#[verifier::external_body]
pub(crate) fn keypair_generate(params: &[u8]) -> (r: (Vec<u8>, Vec<u8>))
    requires
        decodes_exactly(Encoding::Params, params@),
    ensures
        decodes_exactly(Encoding::SecretKey, r.0@),
        decodes_exactly(Encoding::PublicKey, r.1@),
        r.1@ == public_key_of(r.0@, params@),
        r.0@.len() > 0,
        r.1@.len() > 0,
{
    let p = SignatureParamsG1::<Bls12_381>::deserialize_compressed(params).expect("decodable");
    let keypair = KeypairG2::<Bls12_381>::generate_using_rng(&mut OsRng, &p);
    let (mut secret, mut public) = (Vec::new(), Vec::new());
    keypair.secret_key.serialize_compressed(&mut secret).expect("writing into a vector");
    keypair.public_key.serialize_compressed(&mut public).expect("writing into a vector");
    (secret, public)
}

/// Whether `PublicKeyG2::is_valid` holds of the public key decoded from
/// `bytes`: it is not the identity.
pub uninterp spec fn public_key_is_valid(bytes: Seq<u8>) -> bool;

/// `PublicKeyG2::is_valid` of the decoded public key; the answer is named by
/// `public_key_is_valid`.
#[verifier::external_body]
pub(crate) fn public_key_valid(public_key: &[u8]) -> (r: bool)
    requires
        decodes_exactly(Encoding::PublicKey, public_key@),
    ensures
        r == public_key_is_valid(public_key@),
{
    let k = PublicKeyG2::<Bls12_381>::deserialize_compressed(public_key).expect("decodable");
    k.is_valid()
}

/// The compressed encoding that `CanonicalSerialize::serialize_compressed`
/// gives of the public key decoded from `bytes`.
pub uninterp spec fn public_key_reencoding(bytes: Seq<u8>) -> Seq<u8>;

/// Decodes a public key and `CanonicalSerialize::serialize_compressed` it into
/// a new vector, which cannot fail; the bytes are named by `public_key_reencoding`.
#[verifier::external_body]
pub(crate) fn public_key_reencode(public_key: &[u8]) -> (r: Vec<u8>)
    requires
        decodes_exactly(Encoding::PublicKey, public_key@),
    ensures
        r@ == public_key_reencoding(public_key@),
{
    let key = PublicKeyG2::<Bls12_381>::deserialize_compressed(public_key).expect("decodable");
    let mut bytes = Vec::new();
    key.serialize_compressed(&mut bytes).expect("writing into a vector");
    bytes
}

/// Whether `SignatureG1::<Bls12_381>::verify` accepts the signature over the
/// scalars under the public key and parameters, all given encoded.
pub uninterp spec fn signature_accepted(
    params: Seq<u8>,
    public_key: Seq<u8>,
    messages: Seq<Seq<u8>>,
    signature: Seq<u8>,
) -> bool;

/// Whether the point `A` of the signature decoded from `bytes` is not the
/// identity, `SignatureG1::is_non_zero`.
pub uninterp spec fn signature_is_non_zero(bytes: Seq<u8>) -> bool;

/// `SignatureG1::is_non_zero` of the decoded signature; the answer is named by
/// `signature_is_non_zero`.
#[verifier::external_body]
pub(crate) fn signature_non_zero(signature: &[u8]) -> (r: bool)
    requires
        decodes_exactly(Encoding::Signature, signature@),
    ensures
        r == signature_is_non_zero(signature@),
{
    let s = SignatureG1::<Bls12_381>::deserialize_compressed(signature).expect("decodable");
    s.is_non_zero()
}

/// `SignatureG1::<Bls12_381>::new` with `OsRng`, the signature written with
/// `CanonicalSerialize::serialize_compressed` into a new vector: signs the
/// scalars with the secret key under the parameters. `new` fails exactly when
/// there is no message or their number is not the parameters' count (the
/// indices it then hands on are those of the parameters, so the commitment
/// cannot fail). The signature is random; what is claimed of it is that it is
/// one whole encoding and that, when its point `A` is not the identity,
/// `verify` accepts it under the public key of the secret key (BBS+
/// correctness: `A` is `b` divided by `e + x`, so the pairing check holds, and
/// `pre_verify` refuses only a count mismatch, no message or a zero `A`).
#[verifier::external_body]
pub(crate) fn signature_new(params: &[u8], secret_key: &[u8], messages: &[Vec<u8>]) -> (r: Result<Vec<u8>, BBSPlusError>)
    requires
        decodes_exactly(Encoding::Params, params@),
        decodes_exactly(Encoding::SecretKey, secret_key@),
    ensures
        r is Ok <==> (messages@.len() > 0 && messages@.len() == params_message_count(params@)),
        r matches Ok(s) ==> decodes_exactly(Encoding::Signature, s@) && s@.len() > 0 && (
        signature_is_non_zero(s@) ==> signature_accepted(
            params@,
            public_key_of(secret_key@, params@),
            byte_views(messages@),
            s@,
        )),
{
    let p = SignatureParamsG1::<Bls12_381>::deserialize_compressed(params).expect("decodable");
    let k = SecretKey::<Fr>::deserialize_compressed(secret_key).expect("decodable");
    let m: Vec<Fr> = messages.iter().map(|b| Fr::from_le_bytes_mod_order(b)).collect();
    let signature = SignatureG1::<Bls12_381>::new(&mut OsRng, &m, &k, &p)?;
    let mut bytes = Vec::new();
    signature.serialize_compressed(&mut bytes).expect("writing into a vector");
    Ok(bytes)
}

/// `SignatureG1::<Bls12_381>::verify`: checks the signature over the scalars;
/// the outcome is named by `signature_accepted`.
#[verifier::external_body]
pub(crate) fn signature_verify(
    params: &[u8],
    public_key: &[u8],
    messages: &[Vec<u8>],
    signature: &[u8],
) -> (r: Result<(), BBSPlusError>)
    requires
        decodes_exactly(Encoding::Params, params@),
        decodes_exactly(Encoding::PublicKey, public_key@),
        decodes_exactly(Encoding::Signature, signature@),
    ensures
        r is Ok <==> signature_accepted(params@, public_key@, byte_views(messages@), signature@),
{
    let p = SignatureParamsG1::<Bls12_381>::deserialize_compressed(params).expect("decodable");
    let k = PublicKeyG2::<Bls12_381>::deserialize_compressed(public_key).expect("decodable");
    let s = SignatureG1::<Bls12_381>::deserialize_compressed(signature).expect("decodable");
    let m: Vec<Fr> = messages.iter().map(|b| Fr::from_le_bytes_mod_order(b)).collect();
    s.verify(&m, k, p)
}

/// `PoKOfSignatureG1Protocol::<Bls12_381>::init` with `OsRng`: commits to the
/// signature, revealing the scalar at position `i` when `disclose[i]` holds and
/// blinding it at random otherwise. Beside the state it hands back the
/// compressed encoding of the list of the state's commitment points
/// `[A_prime, A_bar, d, sc_comm_1.t, sc_comm_2.t]`, which writing into a
/// vector cannot fail. `init` fails exactly when the number of scalars is not
/// the parameters' count (the indices it then hands to `b` are those of the
/// parameters). The state is random; nothing else is claimed here.
#[verifier::external_body]
fn protocol_init(
    params: &[u8],
    signature: &[u8],
    messages: &[Vec<u8>],
    disclose: &[bool],
) -> (r: Result<(ProofProtocol, Vec<u8>), BBSPlusError>)
    requires
        decodes_exactly(Encoding::Params, params@),
        decodes_exactly(Encoding::Signature, signature@),
        messages@.len() == disclose@.len(),
    ensures
        r is Ok <==> messages@.len() == params_message_count(params@),
{
    let p = SignatureParamsG1::<Bls12_381>::deserialize_compressed(params).expect("decodable");
    let s = SignatureG1::<Bls12_381>::deserialize_compressed(signature).expect("decodable");
    let m: Vec<Fr> = messages.iter().map(|b| Fr::from_le_bytes_mod_order(b)).collect();
    let choices = m.iter().zip(disclose).map(|(msg, shown)| match shown {
        true => MessageOrBlinding::RevealMessage(msg),
        false => MessageOrBlinding::BlindMessageRandomly(msg),
    });
    let inner = PoKOfSignatureG1Protocol::init(&mut OsRng, &s, &p, choices)?;
    let mut commitment = Vec::new();
    vec![inner.A_prime, inner.A_bar, inner.d, inner.sc_comm_1.t, inner.sc_comm_2.t].serialize_compressed(&mut commitment).expect("writing into a vector");
    Ok((ProofProtocol { inner }, commitment))
}

/// The prover's state of a proof of knowledge of a signature, with what it
/// was opened for: the parameters, the signature, the scalars and which of
/// them are revealed. Only `open_protocol` makes one, so its commitment bytes
/// are always those of its protocol state.
pub struct ProverState {
    protocol: ProofProtocol,
    commitment: Vec<u8>,
    params: Ghost<Seq<u8>>,
    signature: Ghost<Seq<u8>>,
    messages: Ghost<Seq<Seq<u8>>>,
    disclose: Ghost<Seq<bool>>,
}

impl ProverState {
    /// The encoding of the state's commitment points.
    pub closed spec fn commitment(&self) -> Seq<u8> {
        self.commitment@
    }

    /// The encoded parameters the state was opened with.
    pub closed spec fn params(&self) -> Seq<u8> {
        self.params@
    }

    /// The encoded signature the state was opened with.
    pub closed spec fn signature(&self) -> Seq<u8> {
        self.signature@
    }

    /// The scalars the state was opened with.
    pub closed spec fn messages(&self) -> Seq<Seq<u8>> {
        self.messages@
    }

    /// For each scalar, whether it is revealed.
    pub closed spec fn disclose(&self) -> Seq<bool> {
        self.disclose@
    }
}

/// The scalars that are revealed, by position.
pub open spec fn revealed_map(messages: Seq<Seq<u8>>, disclose: Seq<bool>) -> Map<usize, Seq<u8>> {
    Map::new(|i: usize| i < messages.len() && disclose[i as int], |i: usize| messages[i as int])
}

/// Opens the prover's protocol for the signature over the scalars, revealing
/// those whose flag is set; it fails exactly when the number of scalars is not
/// the parameters' count.
pub(crate) fn open_protocol(
    params: &[u8],
    signature: &[u8],
    messages: &[Vec<u8>],
    disclose: &[bool],
) -> (r: Result<ProverState, BBSPlusError>)
    requires
        decodes_exactly(Encoding::Params, params@),
        decodes_exactly(Encoding::Signature, signature@),
        messages@.len() == disclose@.len(),
    ensures
        r is Ok <==> messages@.len() == params_message_count(params@),
        r matches Ok(s) ==> s.params() == params@ && s.signature() == signature@ && s.messages()
            == byte_views(messages@) && s.disclose() == disclose@,
{
    let (protocol, commitment) = protocol_init(params, signature, messages, disclose)?;
    Ok(
        ProverState {
            protocol,
            commitment,
            params: Ghost(params@),
            signature: Ghost(signature@),
            messages: Ghost(byte_views(messages@)),
            disclose: Ghost(disclose@),
        },
    )
}

/// The bytes that `compute_challenge_contribution` writes for the commitment
/// points encoded in `commitment` (as the list `[A_prime, A_bar, d, T1, T2]`),
/// the revealed scalars by position and the parameters, all given encoded.
pub uninterp spec fn challenge_contribution(
    commitment: Seq<u8>,
    revealed: Map<usize, Seq<u8>>,
    params: Seq<u8>,
) -> Seq<u8>;

/// The encoding of the list `[A_prime, A_bar, d, sc_resp_1.t, T2]` of the proof
/// decoded from `bytes`: the commitment points its challenge is computed from.
pub uninterp spec fn proof_commitment(bytes: Seq<u8>) -> Seq<u8>;

/// `PoKOfSignatureG1Protocol::challenge_contribution` written into a new
/// vector, with the revealed scalars converted to field elements by position.
/// It is `compute_challenge_contribution` over the state's commitment points,
/// so the bytes are named by `challenge_contribution` over the commitment
/// encoding held beside the state; writing into a vector cannot fail.
#[verifier::external_body]
pub(crate) fn protocol_contribution(
    state: &ProverState,
    revealed: &BTreeMap<usize, Vec<u8>>,
    params: &[u8],
) -> (r: Vec<u8>)
    requires
        decodes_exactly(Encoding::Params, params@),
    ensures
        r@ == challenge_contribution(state.commitment(), scalar_map(revealed@), params@),
{
    let p = SignatureParamsG1::<Bls12_381>::deserialize_compressed(params).expect("decodable");
    let shown: BTreeMap<usize, Fr> = revealed.iter().map(|(i, b)| (*i, Fr::from_le_bytes_mod_order(b))).collect();
    let mut bytes = Vec::new();
    state.protocol.inner.challenge_contribution(&shown, &p, &mut bytes).expect("writing into a vector");
    bytes
}

/// `PoKOfSignatureG1Protocol::gen_proof` with the encoded challenge, the proof
/// written with `CanonicalSerialize::serialize_compressed` into a new vector.
/// `gen_proof` cannot fail on a state that `init` made (its blindings and
/// witnesses come in equal numbers). The proof carries the state's
/// commitment points (`sc_resp_1.t` is `sc_comm_1.t`, `T2` is `sc_comm_2.t`).
/// Completeness of the protocol: for any public key under which the signature
/// verifies, `verify` accepts the proof for the revealed scalars and this
/// challenge (the pairing check of `A_prime` and `A_bar` is the signature's
/// own; both Schnorr relations hold of the witnesses by construction).
#[verifier::external_body]
pub(crate) fn protocol_gen_proof(state: ProverState, challenge: &[u8]) -> (r: Vec<u8>)
    ensures
        decodes_exactly(Encoding::Proof, r@),
        r@.len() > 0,
        proof_commitment(r@) == state.commitment(),
        forall|public_key: Seq<u8>|
            decodes_exactly(Encoding::PublicKey, public_key) && #[trigger] signature_accepted(
                state.params(),
                public_key,
                state.messages(),
                state.signature(),
            ) ==> proof_accepted(
                state.params(),
                public_key,
                r@,
                revealed_map(state.messages(), state.disclose()),
                challenge@,
            ),
{
    let c = Fr::from_le_bytes_mod_order(challenge);
    let proof = state.protocol.inner.gen_proof(&c).expect("a state that init made");
    let mut bytes = Vec::new();
    proof.serialize_compressed(&mut bytes).expect("writing into a vector");
    bytes
}

/// `PoKOfSignatureG1Proof::challenge_contribution` written into a new vector,
/// with the revealed scalars converted to field elements by position. It is
/// `compute_challenge_contribution` over the proof's commitment points, so the
/// bytes are named by `challenge_contribution` over `proof_commitment`;
/// writing into a vector cannot fail.
#[verifier::external_body]
pub(crate) fn proof_contribution(
    proof: &[u8],
    revealed: &BTreeMap<usize, Vec<u8>>,
    params: &[u8],
) -> (r: Vec<u8>)
    requires
        decodes_exactly(Encoding::Proof, proof@),
        decodes_exactly(Encoding::Params, params@),
    ensures
        r@ == challenge_contribution(proof_commitment(proof@), scalar_map(revealed@), params@),
{
    let p = SignatureParamsG1::<Bls12_381>::deserialize_compressed(params).expect("decodable");
    let q = PoKOfSignatureG1Proof::<Bls12_381>::deserialize_compressed(proof).expect("decodable");
    let shown: BTreeMap<usize, Fr> = revealed.iter().map(|(i, b)| (*i, Fr::from_le_bytes_mod_order(b))).collect();
    let mut bytes = Vec::new();
    q.challenge_contribution(&shown, &p, &mut bytes).expect("writing into a vector");
    bytes
}

/// Whether `PoKOfSignatureG1Proof::<Bls12_381>::verify` accepts the proof for
/// the revealed scalars by position and the challenge, under the public key
/// and parameters, all given encoded.
pub uninterp spec fn proof_accepted(
    params: Seq<u8>,
    public_key: Seq<u8>,
    proof: Seq<u8>,
    revealed: Map<usize, Seq<u8>>,
    challenge: Seq<u8>,
) -> bool;

/// `PoKOfSignatureG1Proof::<Bls12_381>::verify`, with the revealed scalars
/// converted to field elements by position: checks the proof; the outcome is
/// named by `proof_accepted`. `verify` sizes a vector as two more than the
/// parameters' count less the number of revealed scalars, and panics on the
/// underflow, so no more entries than that are handed to it.
#[verifier::external_body]
pub(crate) fn proof_verify(
    params: &[u8],
    public_key: &[u8],
    proof: &[u8],
    revealed: &BTreeMap<usize, Vec<u8>>,
    challenge: &[u8],
) -> (r: Result<(), BBSPlusError>)
    requires
        decodes_exactly(Encoding::Params, params@),
        decodes_exactly(Encoding::PublicKey, public_key@),
        decodes_exactly(Encoding::Proof, proof@),
        scalar_map(revealed@).len() <= params_message_count(params@) + 2,
    ensures
        r is Ok <==> proof_accepted(
            params@,
            public_key@,
            proof@,
            scalar_map(revealed@),
            challenge@,
        ),
{
    let p = SignatureParamsG1::<Bls12_381>::deserialize_compressed(params).expect("decodable");
    let k = PublicKeyG2::<Bls12_381>::deserialize_compressed(public_key).expect("decodable");
    let q = PoKOfSignatureG1Proof::<Bls12_381>::deserialize_compressed(proof).expect("decodable");
    let shown: BTreeMap<usize, Fr> = revealed.iter().map(|(i, b)| (*i, Fr::from_le_bytes_mod_order(b))).collect();
    q.verify(&shown, &Fr::from_le_bytes_mod_order(challenge), k, p)
}

} // verus!
