use vstd::prelude::*;

verus! {

/// A 32-byte digest: a commitment, or the SHA-256 hash that is checked
/// against one.
#[derive(Debug, Clone, Copy)]
pub struct Digest {
    pub bytes: [u8; 32],
}

/// The SHA-256 digest of `data`.
pub uninterp spec fn sha256_of(data: Seq<u8>) -> Seq<u8>;

/// Relies on solana_program::hash::hash: the SHA-256 digest of the bytes,
/// which depends on the bytes alone.
#[verifier::external_body]
fn sha256(data: &Vec<u8>) -> (r: Digest)
    ensures
        r.bytes@ == sha256_of(data@),
{
    Digest { bytes: solana_program::hash::hash(data.as_slice()).to_bytes() }
}

/// The `width` low-order bytes of `n`, least significant first.
pub open spec fn le_bytes(n: nat, width: nat) -> Seq<u8>
    decreases width,
{
    if width == 0 {
        seq![]
    } else {
        seq![(n % 256) as u8] + le_bytes(n / 256, (width - 1) as nat)
    }
}

/// The bytes that are hashed to authorize a reward: the recipient's
/// balance as 8 little-endian bytes, then the commitment's bytes.
pub open spec fn verification_message(user_balance: u64, commitment: Seq<u8>) -> Seq<u8> {
    le_bytes(user_balance as nat, 8) + commitment
}

/// Encodes `n` as 8 little-endian bytes.
pub fn encode_u64_le(n: u64) -> (r: Vec<u8>)
    ensures
        r@ == le_bytes(n as nat, 8),
{
    let mut out: Vec<u8> = Vec::new();
    let mut rest: u64 = n;
    let mut i: usize = 0;
    while i < 8
        invariant
            i <= 8,
            out@ + le_bytes(rest as nat, (8 - i) as nat) == le_bytes(n as nat, 8),
        decreases 8 - i,
    {
        let ghost before = out@;
        let byte = (rest % 256) as u8;
        assert(le_bytes(rest as nat, (8 - i) as nat) == seq![byte] + le_bytes(
            (rest / 256) as nat,
            (8 - i - 1) as nat,
        ));
        out.push(byte);
        assert(out@ + le_bytes((rest / 256) as nat, (8 - i - 1) as nat) == before + (seq![byte]
            + le_bytes((rest / 256) as nat, (8 - i - 1) as nat)));
        rest = rest / 256;
        i = i + 1;
    }
    assert(le_bytes(rest as nat, 0) == Seq::<u8>::empty());
    assert(out@ + Seq::<u8>::empty() == out@);
    out
}

/// Builds the message whose digest authorizes a reward.
pub fn build_verification_message(user_balance: u64, commitment: &Digest) -> (r: Vec<u8>)
    ensures
        r@ == verification_message(user_balance, commitment.bytes@),
{
    let mut out = encode_u64_le(user_balance);
    let ghost prefix = out@;
    let mut i: usize = 0;
    while i < 32
        invariant
            i <= 32,
            out@ == prefix + commitment.bytes@.take(i as int),
        decreases 32 - i,
    {
        out.push(commitment.bytes[i]);
        assert(commitment.bytes@.take(i + 1) == commitment.bytes@.take(i as int).push(
            commitment.bytes@[i as int],
        ));
        i = i + 1;
    }
    assert(commitment.bytes@.take(32) == commitment.bytes@);
    out
}

/// Whether two digests are equal byte for byte.
pub fn digest_matches(computed: &Digest, expected: &Digest) -> (r: bool)
    ensures
        r == (computed.bytes@ == expected.bytes@),
{
    let mut i: usize = 0;
    while i < 32
        invariant
            i <= 32,
            forall|j: int| 0 <= j < i ==> computed.bytes@[j] == expected.bytes@[j],
        decreases 32 - i,
    {
        if computed.bytes[i] != expected.bytes[i] {
            return false;
        }
        i = i + 1;
    }
    assert(computed.bytes@ =~= expected.bytes@);
    true
}

/// Hashes the verification message of `user_balance` and `commitment`.
pub fn verification_digest(user_balance: u64, commitment: &Digest) -> (r: Digest)
    ensures
        r.bytes@ == sha256_of(verification_message(user_balance, commitment.bytes@)),
{
    let message = build_verification_message(user_balance, commitment);
    sha256(&message)
}

} // verus!
