//! Canonical encoding of the tuple that a mint authorization signs:
//! {contract identity, user identity, period, archetype, content hash}.
//!
//! The admin signs `canonical_payload(..)` off-ledger and the registry
//! verifies the detached signature over the very same bytes, so the encoding
//! must be deterministic and injective: two distinct tuples must never
//! produce the same byte string. Every variable-length field is
//! length-prefixed (eight big-endian bytes) and the content hash is fixed
//! width, which makes each field self-delimiting; `lemma_canonical_injective`
//! proves injectivity. Embedding the contract identity binds a signature to
//! one deployed instance, so it cannot be replayed against another.

use vstd::prelude::*;

verus! {

/// The eight big-endian bytes of a 64-bit value.
pub open spec fn be_bytes(x: u64) -> Seq<u8> {
    seq![
        (x >> 56) as u8,
        (x >> 48) as u8,
        (x >> 40) as u8,
        (x >> 32) as u8,
        (x >> 24) as u8,
        (x >> 16) as u8,
        (x >> 8) as u8,
        x as u8,
    ]
}

/// A variable-length field is encoded self-delimiting: eight big-endian
/// length bytes, then the field itself.
pub open spec fn len_prefixed(b: Seq<u8>) -> Seq<u8> {
    be_bytes(b.len() as u64) + b
}

/// The canonical byte string for one mint authorization. Field order is
/// fixed: contract, user, period, archetype, hash.
pub open spec fn canonical_bytes(
    contract: Seq<u8>,
    user: Seq<u8>,
    period: u64,
    archetype: Seq<u8>,
    hash: Seq<u8>,
) -> Seq<u8> {
    len_prefixed(contract) + len_prefixed(user) + be_bytes(period) + len_prefixed(archetype) + hash
}

/// Two byte strings that agree and both start with an eight-byte field
/// agree on that field and on the rest.
proof fn lemma_be_prefix(x: u64, r1: Seq<u8>, y: u64, r2: Seq<u8>)
    requires
        be_bytes(x) + r1 == be_bytes(y) + r2,
    ensures
        x == y,
        r1 == r2,
{
    let s1 = be_bytes(x) + r1;
    let s2 = be_bytes(y) + r2;
    assert(s1[0] == (x >> 56) as u8 && s1[1] == (x >> 48) as u8 && s1[2] == (x >> 40) as u8
        && s1[3] == (x >> 32) as u8 && s1[4] == (x >> 24) as u8 && s1[5] == (x >> 16) as u8
        && s1[6] == (x >> 8) as u8 && s1[7] == x as u8);
    assert(s2[0] == (y >> 56) as u8 && s2[1] == (y >> 48) as u8 && s2[2] == (y >> 40) as u8
        && s2[3] == (y >> 32) as u8 && s2[4] == (y >> 24) as u8 && s2[5] == (y >> 16) as u8
        && s2[6] == (y >> 8) as u8 && s2[7] == y as u8);
    assert(x == y) by (bit_vector)
        requires
            (x >> 56) as u8 == (y >> 56) as u8,
            (x >> 48) as u8 == (y >> 48) as u8,
            (x >> 40) as u8 == (y >> 40) as u8,
            (x >> 32) as u8 == (y >> 32) as u8,
            (x >> 24) as u8 == (y >> 24) as u8,
            (x >> 16) as u8 == (y >> 16) as u8,
            (x >> 8) as u8 == (y >> 8) as u8,
            x as u8 == y as u8,
    ;
    assert(s1.len() == s2.len());
    assert(r1.len() == r2.len());
    assert(forall|i: int| 0 <= i < r1.len() ==> #[trigger] r1[i] == s1[i + 8]);
    assert(forall|i: int| 0 <= i < r2.len() ==> #[trigger] r2[i] == s2[i + 8]);
    assert(r1 =~= r2);
}

/// A length-prefixed field can be peeled off unambiguously: if two encoded
/// streams agree, the first fields agree and the remainders agree.
proof fn lemma_len_prefixed_peel(b1: Seq<u8>, r1: Seq<u8>, b2: Seq<u8>, r2: Seq<u8>)
    requires
        b1.len() <= u64::MAX,
        b2.len() <= u64::MAX,
        len_prefixed(b1) + r1 == len_prefixed(b2) + r2,
    ensures
        b1 == b2,
        r1 == r2,
{
    assert(len_prefixed(b1) + r1 =~= be_bytes(b1.len() as u64) + (b1 + r1));
    assert(len_prefixed(b2) + r2 =~= be_bytes(b2.len() as u64) + (b2 + r2));
    lemma_be_prefix(b1.len() as u64, b1 + r1, b2.len() as u64, b2 + r2);
    assert(b1.len() == b2.len());
    let t1 = b1 + r1;
    let t2 = b2 + r2;
    assert(forall|i: int| 0 <= i < b1.len() ==> #[trigger] b1[i] == t1[i]);
    assert(forall|i: int| 0 <= i < b2.len() ==> #[trigger] b2[i] == t2[i]);
    assert(b1 =~= b2);
    assert(forall|i: int| 0 <= i < r1.len() ==> #[trigger] r1[i] == t1[i + b1.len()]);
    assert(forall|i: int| 0 <= i < r2.len() ==> #[trigger] r2[i] == t2[i + b2.len()]);
    assert(r1 =~= r2);
}

/// The canonical encoding is injective: two tuples with the same encoding
/// are the same tuple. Contrapositive: any change to the contract identity,
/// the user, the period, the archetype or the hash changes the signed bytes.
pub proof fn lemma_canonical_injective(
    c1: Seq<u8>,
    u1: Seq<u8>,
    p1: u64,
    a1: Seq<u8>,
    h1: Seq<u8>,
    c2: Seq<u8>,
    u2: Seq<u8>,
    p2: u64,
    a2: Seq<u8>,
    h2: Seq<u8>,
)
    requires
        c1.len() <= u64::MAX,
        u1.len() <= u64::MAX,
        a1.len() <= u64::MAX,
        c2.len() <= u64::MAX,
        u2.len() <= u64::MAX,
        a2.len() <= u64::MAX,
        canonical_bytes(c1, u1, p1, a1, h1) == canonical_bytes(c2, u2, p2, a2, h2),
    ensures
        c1 == c2,
        u1 == u2,
        p1 == p2,
        a1 == a2,
        h1 == h2,
{
    let tail1 = len_prefixed(u1) + be_bytes(p1) + len_prefixed(a1) + h1;
    let tail2 = len_prefixed(u2) + be_bytes(p2) + len_prefixed(a2) + h2;
    assert(canonical_bytes(c1, u1, p1, a1, h1) =~= len_prefixed(c1) + tail1);
    assert(canonical_bytes(c2, u2, p2, a2, h2) =~= len_prefixed(c2) + tail2);
    lemma_len_prefixed_peel(c1, tail1, c2, tail2);

    let mid1 = be_bytes(p1) + len_prefixed(a1) + h1;
    let mid2 = be_bytes(p2) + len_prefixed(a2) + h2;
    assert(tail1 =~= len_prefixed(u1) + mid1);
    assert(tail2 =~= len_prefixed(u2) + mid2);
    lemma_len_prefixed_peel(u1, mid1, u2, mid2);

    let end1 = len_prefixed(a1) + h1;
    let end2 = len_prefixed(a2) + h2;
    assert(mid1 =~= be_bytes(p1) + end1);
    assert(mid2 =~= be_bytes(p2) + end2);
    lemma_be_prefix(p1, end1, p2, end2);

    lemma_len_prefixed_peel(a1, h1, a2, h2);
}

/// Appends the eight big-endian bytes of `x`.
fn push_be(out: &mut Vec<u8>, x: u64)
    ensures
        final(out)@ == old(out)@ + be_bytes(x),
{
    out.push((x >> 56) as u8);
    out.push((x >> 48) as u8);
    out.push((x >> 40) as u8);
    out.push((x >> 32) as u8);
    out.push((x >> 24) as u8);
    out.push((x >> 16) as u8);
    out.push((x >> 8) as u8);
    out.push(x as u8);
    assert(out@ =~= old(out)@ + be_bytes(x));
}

/// Appends a whole byte vector.
fn push_bytes(out: &mut Vec<u8>, b: &Vec<u8>)
    ensures
        final(out)@ == old(out)@ + b@,
{
    let ghost base = out@;
    let mut i: usize = 0;
    while i < b.len()
        invariant
            i <= b.len(),
            out@ == base + b@.subrange(0, i as int),
        decreases b.len() - i,
    {
        out.push(b[i]);
        assert(out@ =~= base + b@.subrange(0, i + 1));
        i = i + 1;
    }
    assert(out@ =~= base + b@);
}

/// Appends the 32 bytes of a content hash.
fn push_hash(out: &mut Vec<u8>, h: &[u8; 32])
    ensures
        final(out)@ == old(out)@ + h@,
{
    let ghost base = out@;
    let mut i: usize = 0;
    while i < 32
        invariant
            i <= 32,
            out@ == base + h@.subrange(0, i as int),
        decreases 32 - i,
    {
        out.push(h[i]);
        assert(out@ =~= base + h@.subrange(0, i + 1));
        i = i + 1;
    }
    assert(out@ =~= base + h@);
}

/// Builds the canonical byte string for one mint authorization. This is
/// what the admin signs off-ledger and what the registry checks a detached
/// signature against.
pub fn canonical_payload(
    contract: &Vec<u8>,
    user: &Vec<u8>,
    period: u64,
    archetype: &Vec<u8>,
    hash: &[u8; 32],
) -> (out: Vec<u8>)
    ensures
        out@ == canonical_bytes(contract@, user@, period, archetype@, hash@),
{
    let mut out: Vec<u8> = Vec::new();
    push_be(&mut out, contract.len() as u64);
    push_bytes(&mut out, contract);
    push_be(&mut out, user.len() as u64);
    push_bytes(&mut out, user);
    push_be(&mut out, period);
    push_be(&mut out, archetype.len() as u64);
    push_bytes(&mut out, archetype);
    push_hash(&mut out, hash);
    assert(out@ =~= canonical_bytes(contract@, user@, period, archetype@, hash@));
    out
}

} // verus!
