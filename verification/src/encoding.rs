//! The domain separation tag under which each message is hashed to a field
//! element: a fixed prefix followed by the message's zero-based position; and
//! the padding of a message list to the slots of the signature parameters.
use vstd::prelude::*;
use crate::crypto::byte_views;

verus! {

/// The ASCII bytes of `bbs-ffi/v1/message/`.
pub open spec fn message_domain_prefix() -> Seq<u8> {
    seq![
        0x62u8, 0x62u8, 0x73u8, 0x2du8, 0x66u8, 0x66u8, 0x69u8, 0x2fu8, 0x76u8, 0x31u8,
        0x2fu8, 0x6du8, 0x65u8, 0x73u8, 0x73u8, 0x61u8, 0x67u8, 0x65u8, 0x2fu8,
    ]
}

/// The eight bytes of a 64-bit integer, most significant first.
pub open spec fn u64_be_bytes(n: u64) -> Seq<u8> {
    seq![
        (n >> 56u64) as u8,
        (n >> 48u64) as u8,
        (n >> 40u64) as u8,
        (n >> 32u64) as u8,
        (n >> 24u64) as u8,
        (n >> 16u64) as u8,
        (n >> 8u64) as u8,
        n as u8,
    ]
}

/// The domain separation tag for the message at position `index`.
pub open spec fn message_domain(index: usize) -> Seq<u8> {
    message_domain_prefix() + u64_be_bytes(index as u64)
}

/// Builds the domain separation tag for the message at position `index`.
pub fn message_domain_bytes(index: usize) -> (r: Vec<u8>)
    ensures
        r@ == message_domain(index),
{
    let mut domain: Vec<u8> = vec![
        0x62u8, 0x62u8, 0x73u8, 0x2du8, 0x66u8, 0x66u8, 0x69u8, 0x2fu8, 0x76u8, 0x31u8,
        0x2fu8, 0x6du8, 0x65u8, 0x73u8, 0x73u8, 0x61u8, 0x67u8, 0x65u8, 0x2fu8,
    ];
    let n: u64 = index as u64;
    domain.push((n >> 56u64) as u8);
    domain.push((n >> 48u64) as u8);
    domain.push((n >> 40u64) as u8);
    domain.push((n >> 32u64) as u8);
    domain.push((n >> 24u64) as u8);
    domain.push((n >> 16u64) as u8);
    domain.push((n >> 8u64) as u8);
    domain.push(n as u8);
    assert(domain@ =~= message_domain(index));
    domain
}

/// Two 64-bit integers with the same big-endian bytes are equal.
pub proof fn lemma_u64_be_bytes_injective(n: u64, m: u64)
    requires
        u64_be_bytes(n) == u64_be_bytes(m),
    ensures
        n == m,
{
    let a = u64_be_bytes(n);
    let b = u64_be_bytes(m);
    assert(a[0] == b[0] && a[1] == b[1] && a[2] == b[2] && a[3] == b[3]);
    assert(a[4] == b[4] && a[5] == b[5] && a[6] == b[6] && a[7] == b[7]);
    assert(n == m) by (bit_vector)
        requires
            (n >> 56u64) as u8 == (m >> 56u64) as u8,
            (n >> 48u64) as u8 == (m >> 48u64) as u8,
            (n >> 40u64) as u8 == (m >> 40u64) as u8,
            (n >> 32u64) as u8 == (m >> 32u64) as u8,
            (n >> 24u64) as u8 == (m >> 24u64) as u8,
            (n >> 16u64) as u8 == (m >> 16u64) as u8,
            (n >> 8u64) as u8 == (m >> 8u64) as u8,
            n as u8 == m as u8,
    ;
}

/// Messages at different positions are hashed under different domain
/// separation tags.
pub proof fn lemma_message_domain_injective(i: usize, j: usize)
    requires
        i != j,
    ensures
        message_domain(i) != message_domain(j),
{
    if message_domain(i) == message_domain(j) {
        let p = message_domain_prefix().len() as int;
        assert(message_domain(i).subrange(p, p + 8) =~= u64_be_bytes(i as u64));
        assert(message_domain(j).subrange(p, p + 8) =~= u64_be_bytes(j as u64));
        lemma_u64_be_bytes_injective(i as u64, j as u64);
    }
}

/// The message that fills a slot no message was supplied for:
/// `0xff`, the ASCII bytes of `bbsplus-padding-v1`, then `0xfe` (never valid UTF-8).
pub open spec fn padding_sentinel() -> Seq<u8> {
    seq![
        0xffu8, 0x62u8, 0x62u8, 0x73u8, 0x70u8, 0x6cu8, 0x75u8, 0x73u8, 0x2du8, 0x70u8,
        0x61u8, 0x64u8, 0x64u8, 0x69u8, 0x6eu8, 0x67u8, 0x2du8, 0x76u8, 0x31u8, 0xfeu8,
    ]
}

/// The messages padded to `slots` positions: the supplied messages first, the
/// sentinel in every slot after them.
pub open spec fn padded(messages: Seq<Seq<u8>>, slots: nat) -> Seq<Seq<u8>> {
    Seq::new(slots, |i: int| if i < messages.len() { messages[i] } else { padding_sentinel() })
}

/// Builds the padding sentinel.
pub fn padding_message() -> (r: Vec<u8>)
    ensures
        r@ == padding_sentinel(),
{
    let sentinel: Vec<u8> = vec![
        0xffu8, 0x62u8, 0x62u8, 0x73u8, 0x70u8, 0x6cu8, 0x75u8, 0x73u8, 0x2du8, 0x70u8,
        0x61u8, 0x64u8, 0x64u8, 0x69u8, 0x6eu8, 0x67u8, 0x2du8, 0x76u8, 0x31u8, 0xfeu8,
    ];
    assert(sentinel@ =~= padding_sentinel());
    sentinel
}

/// Pads the messages with the sentinel up to `slots` positions.
pub fn pad_messages(messages: Vec<Vec<u8>>, slots: usize) -> (r: Vec<Vec<u8>>)
    requires
        messages@.len() <= slots,
    ensures
        byte_views(r@) == padded(byte_views(messages@), slots as nat),
        r@.len() == slots,
        forall|i: int| 0 <= i < messages@.len() ==> (#[trigger] r@[i])@ == messages@[i]@,
        forall|i: int| messages@.len() <= i < slots ==> (#[trigger] r@[i])@ == padding_sentinel(),
{
    let ghost given = byte_views(messages@);
    let mut out = messages;
    while out.len() < slots
        invariant
            given.len() <= out@.len() <= slots,
            forall|i: int| 0 <= i < out@.len() ==> (#[trigger] out@[i])@ == (if i < given.len() {
                given[i]
            } else {
                padding_sentinel()
            }),
        decreases slots - out.len(),
    {
        out.push(padding_message());
    }
    assert(byte_views(out@) =~= padded(given, slots as nat));
    assert(given.len() == messages@.len());
    assert forall|i: int| 0 <= i < messages@.len() implies (#[trigger] out@[i])@ == messages@[i]@ by {
        assert(given[i] == messages@[i]@);
    }
    out
}

/// Padding keeps every supplied message in its own slot and fills only the
/// slots after them, each with the sentinel: the padded list has exactly
/// `slots` entries, begins with the messages unchanged, and is the sentinel
/// from the first missing slot on.
pub proof fn lemma_padding_keeps_messages(messages: Seq<Seq<u8>>, slots: nat)
    requires
        messages.len() <= slots,
    ensures
        padded(messages, slots).len() == slots,
        padded(messages, slots).take(messages.len() as int) == messages,
        forall|i: int| messages.len() <= i < slots ==> #[trigger] padded(messages, slots)[i] == seq![
            0xffu8, 0x62u8, 0x62u8, 0x73u8, 0x70u8, 0x6cu8, 0x75u8, 0x73u8, 0x2du8, 0x70u8,
            0x61u8, 0x64u8, 0x64u8, 0x69u8, 0x6eu8, 0x67u8, 0x2du8, 0x76u8, 0x31u8, 0xfeu8,
        ],
        messages.len() == slots ==> padded(messages, slots) == messages,
{
    assert(padded(messages, slots).take(messages.len() as int) =~= messages);
    if messages.len() == slots {
        assert(padded(messages, slots) =~= messages);
    }
}

} // verus!
