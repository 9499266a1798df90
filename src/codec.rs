//! Byte encodings of a vote, and the calls into the hashing, signature, randomness
//! and clock collaborators that the engine relies on.
use vstd::prelude::*;
use crate::types::{Vote, VoteView};

verus! {

// ---------------------------------------------------------------------------
// Outside types that pass through the wrappers below.

#[verifier::external_type_specification]
#[verifier::external_body]
pub struct ExSignatureError(alloy::primitives::SignatureError);

#[verifier::external_type_specification]
#[verifier::external_body]
pub struct ExSystemTime(std::time::SystemTime);

#[verifier::external_type_specification]
#[verifier::external_body]
pub struct ExSystemTimeError(std::time::SystemTimeError);

// ---------------------------------------------------------------------------
// Integer encodings.

/// LEB128 (protobuf varint) encoding of `v`: seven bits per byte, low bits first,
/// the high bit set on every byte but the last.
pub open spec fn varint_bytes(v: nat) -> Seq<u8>
    decreases v,
{
    if v < 128 {
        seq![v as u8]
    } else {
        seq![((v % 128) + 128) as u8] + varint_bytes(v / 128)
    }
}

/// The `n` low bytes of `x`, least significant first.
pub open spec fn le_bytes(x: nat, n: nat) -> Seq<u8>
    decreases n,
{
    if n == 0 {
        Seq::empty()
    } else {
        seq![(x % 256) as u8] + le_bytes(x / 256, (n - 1) as nat)
    }
}

/// Relies on prost::encoding::encode_varint: appends the LEB128 bytes of `value`
/// to the buffer (a `Vec<u8>` is a `BufMut` whose `put_u8` pushes one byte).
#[verifier::external_body]
fn put_varint(value: u64, buf: &mut Vec<u8>)
    ensures
        final(buf)@ == old(buf)@ + varint_bytes(value as nat),
{
    prost::encoding::encode_varint(value, buf)
}

/// Appends every byte of `src` to `buf`.
fn put_bytes(buf: &mut Vec<u8>, src: &Vec<u8>)
    ensures
        final(buf)@ == old(buf)@ + src@,
{
    let ghost start = buf@;
    let mut i: usize = 0;
    while i < src.len()
        invariant
            i <= src.len(),
            buf@ == start + src@.subrange(0, i as int),
        decreases src.len() - i,
    {
        buf.push(src[i]);
        i = i + 1;
        assert(buf@ =~= start + src@.subrange(0, i as int));
    }
    assert(src@.subrange(0, src.len() as int) =~= src@);
}

/// Appends the `n` low bytes of `x`, least significant first.
fn put_le(buf: &mut Vec<u8>, x: u64, n: usize)
    ensures
        final(buf)@ == old(buf)@ + le_bytes(x as nat, n as nat),
{
    let ghost start = buf@;
    let mut rest: u64 = x;
    let mut k: usize = 0;
    while k < n
        invariant
            k <= n,
            start + le_bytes(x as nat, n as nat) == buf@ + le_bytes(rest as nat, (n - k) as nat),
        decreases n - k,
    {
        let ghost before = buf@;
        buf.push((rest % 256) as u8);
        assert(le_bytes(rest as nat, (n - k) as nat) == seq![(rest % 256) as u8] + le_bytes(
            (rest / 256) as nat,
            (n - k - 1) as nat,
        ));
        assert(before + le_bytes(rest as nat, (n - k) as nat) =~= buf@ + le_bytes(
            (rest / 256) as nat,
            (n - k - 1) as nat,
        ));
        rest = rest / 256;
        k = k + 1;
    }
    assert(le_bytes(rest as nat, 0) =~= Seq::<u8>::empty());
    assert(buf@ + Seq::<u8>::empty() =~= buf@);
}

// ---------------------------------------------------------------------------
// The wire encoding of a vote (proto3 field layout, default values omitted).

/// A varint field with the given tag; absent when the value is zero.
#[verifier::opaque]
pub open spec fn varint_field(tag: nat, value: nat) -> Seq<u8> {
    if value == 0 {
        Seq::empty()
    } else {
        varint_bytes(tag * 8) + varint_bytes(value)
    }
}

/// A length-delimited field with the given tag; absent when empty.
#[verifier::opaque]
pub open spec fn bytes_field(tag: nat, b: Seq<u8>) -> Seq<u8> {
    if b.len() == 0 {
        Seq::empty()
    } else {
        varint_bytes(tag * 8 + 2) + varint_bytes(b.len()) + b
    }
}

/// The protobuf encoding of a vote.
pub open spec fn vote_encoding(v: VoteView) -> Seq<u8> {
    varint_field(1, v.vote_id as nat) + bytes_field(2, v.vote_owner) + varint_field(
        3,
        v.proposal_id as nat,
    ) + varint_field(4, v.timestamp as nat) + varint_field(5, if v.vote { 1 } else { 0 })
        + bytes_field(6, v.parent_hash) + bytes_field(7, v.received_hash) + bytes_field(
        8,
        v.vote_hash,
    ) + bytes_field(9, v.signature)
}

/// The bytes a voter signs: the encoding of the vote with its signature cleared.
pub open spec fn signing_bytes(v: VoteView) -> Seq<u8> {
    vote_encoding(VoteView { signature: Seq::empty(), ..v })
}

fn put_varint_field(buf: &mut Vec<u8>, tag: u64, value: u64)
    requires
        1 <= tag <= 15,
    ensures
        final(buf)@ == old(buf)@ + varint_field(tag as nat, value as nat),
{
    reveal(varint_field);
    if value != 0 {
        let ghost start = buf@;
        put_varint(tag * 8, buf);
        put_varint(value, buf);
        assert(buf@ =~= start + (varint_bytes((tag * 8) as nat) + varint_bytes(value as nat)));
    } else {
        assert(buf@ =~= old(buf)@ + Seq::<u8>::empty());
    }
}

fn put_bytes_field(buf: &mut Vec<u8>, tag: u64, b: &Vec<u8>)
    requires
        1 <= tag <= 15,
    ensures
        final(buf)@ == old(buf)@ + bytes_field(tag as nat, b@),
{
    reveal(bytes_field);
    if b.len() != 0 {
        let ghost start = buf@;
        put_varint(tag * 8 + 2, buf);
        put_varint(b.len() as u64, buf);
        put_bytes(buf, b);
        assert(buf@ =~= start + (varint_bytes((tag * 8 + 2) as nat) + varint_bytes(b@.len())
            + b@));
    } else {
        assert(buf@ =~= old(buf)@ + Seq::<u8>::empty());
    }
}

fn put_vote_fields(buf: &mut Vec<u8>, v: &Vote, with_signature: bool)
    ensures
        final(buf)@ == old(buf)@ + (if with_signature {
            vote_encoding(v@)
        } else {
            signing_bytes(v@)
        }),
{
    let ghost s0 = buf@;
    let ghost f1 = varint_field(1, v.vote_id as nat);
    let ghost f2 = bytes_field(2, v.vote_owner@);
    let ghost f3 = varint_field(3, v.proposal_id as nat);
    let ghost f4 = varint_field(4, v.timestamp as nat);
    let ghost f5 = varint_field(5, if v.vote { 1 } else { 0 });
    let ghost f6 = bytes_field(6, v.parent_hash@);
    let ghost f7 = bytes_field(7, v.received_hash@);
    let ghost f8 = bytes_field(8, v.vote_hash@);
    put_varint_field(buf, 1, v.vote_id as u64);
    put_bytes_field(buf, 2, &v.vote_owner);
    assert(buf@ =~= s0 + (f1 + f2));
    put_varint_field(buf, 3, v.proposal_id as u64);
    assert(buf@ =~= s0 + (f1 + f2 + f3));
    put_varint_field(buf, 4, v.timestamp);
    assert(buf@ =~= s0 + (f1 + f2 + f3 + f4));
    put_varint_field(buf, 5, if v.vote { 1 } else { 0 });
    assert(buf@ =~= s0 + (f1 + f2 + f3 + f4 + f5));
    put_bytes_field(buf, 6, &v.parent_hash);
    assert(buf@ =~= s0 + (f1 + f2 + f3 + f4 + f5 + f6));
    put_bytes_field(buf, 7, &v.received_hash);
    assert(buf@ =~= s0 + (f1 + f2 + f3 + f4 + f5 + f6 + f7));
    put_bytes_field(buf, 8, &v.vote_hash);
    let ghost p8 = f1 + f2 + f3 + f4 + f5 + f6 + f7 + f8;
    assert(buf@ =~= s0 + p8);
    if with_signature {
        put_bytes_field(buf, 9, &v.signature);
        assert(vote_encoding(v@) == p8 + bytes_field(9, v.signature@));
        assert(buf@ =~= s0 + (p8 + bytes_field(9, v.signature@)));
    } else {
        let ghost cleared = VoteView { signature: Seq::empty(), ..v@ };
        reveal(bytes_field);
        assert(bytes_field(9, cleared.signature) =~= Seq::<u8>::empty());
        assert(vote_encoding(cleared) == p8 + bytes_field(9, cleared.signature));
        assert(p8 + bytes_field(9, cleared.signature) =~= p8);
    }
}

/// The protobuf encoding of a vote.
pub fn encode_vote(v: &Vote) -> (r: Vec<u8>)
    ensures
        r@ == vote_encoding(v@),
{
    let mut buf: Vec<u8> = Vec::new();
    put_vote_fields(&mut buf, v, true);
    assert(buf@ =~= vote_encoding(v@));
    buf
}

/// The bytes that the owner of `v` signs: its encoding with the signature cleared.
pub fn encode_for_signing(v: &Vote) -> (r: Vec<u8>)
    ensures
        r@ == signing_bytes(v@),
{
    let mut buf: Vec<u8> = Vec::new();
    put_vote_fields(&mut buf, v, false);
    assert(buf@ =~= signing_bytes(v@));
    buf
}

// ---------------------------------------------------------------------------
// The hash input of a vote.

/// The bytes that are hashed into `vote_hash`, in their fixed order.
pub open spec fn hash_input(v: VoteView) -> Seq<u8> {
    le_bytes(v.vote_id as nat, 4) + v.vote_owner + le_bytes(v.proposal_id as nat, 4) + le_bytes(
        v.timestamp as nat,
        8,
    ) + seq![if v.vote { 1u8 } else { 0u8 }] + v.parent_hash + v.received_hash
}

/// The concatenation that `vote_hash` is computed over.
pub fn vote_hash_input(v: &Vote) -> (r: Vec<u8>)
    ensures
        r@ == hash_input(v@),
{
    let mut buf: Vec<u8> = Vec::new();
    put_le(&mut buf, v.vote_id as u64, 4);
    put_bytes(&mut buf, &v.vote_owner);
    put_le(&mut buf, v.proposal_id as u64, 4);
    put_le(&mut buf, v.timestamp, 8);
    buf.push(if v.vote { 1u8 } else { 0u8 });
    put_bytes(&mut buf, &v.parent_hash);
    put_bytes(&mut buf, &v.received_hash);
    assert(buf@ =~= hash_input(v@));
    buf
}

// ---------------------------------------------------------------------------
// Collaborators.

/// The SHA-256 digest of `data`.
pub uninterp spec fn sha256_of(data: Seq<u8>) -> Seq<u8>;

/// Relies on sha2::Sha256::digest: the 32-byte SHA-256 digest of the input, a
/// function of the input bytes alone.
#[verifier::external_body]
pub(crate) fn sha256(data: &Vec<u8>) -> (r: Vec<u8>)
    ensures
        r@ == sha256_of(data@),
        r@.len() == 32,
{
    <sha2::Sha256 as sha2::Digest>::digest(data.as_slice()).to_vec()
}

/// The address that signed `message` with the 65-byte recoverable `signature`,
/// when the signature parses and recovery succeeds.
pub uninterp spec fn recovered_address(signature: Seq<u8>, message: Seq<u8>) -> Option<Seq<u8>>;

/// Relies on alloy's `Signature::from_raw` (which parses the 65 raw bytes into its
/// signature type and refuses any other length) and `recover_address_from_msg`
/// (EIP-191 prefixing, keccak, ECDSA public key recovery); the 20-byte address
/// depends on the two byte strings alone.
#[verifier::external_body]
pub(crate) fn recover_address(signature: &Vec<u8>, message: &Vec<u8>) -> (r: Result<
    Vec<u8>,
    alloy::primitives::SignatureError,
>)
    ensures
        match r {
            Ok(a) => recovered_address(signature@, message@) == Some(a@),
            Err(_) => recovered_address(signature@, message@) is None,
        },
        r is Ok ==> signature@.len() == 65,
{
    match alloy::primitives::Signature::from_raw(signature.as_slice()) {
        Ok(sig) => match sig.recover_address_from_msg(message.as_slice()) {
            Ok(address) => Ok(address.as_slice().to_vec()),
            Err(e) => Err(e),
        },
        Err(e) => Err(e),
    }
}

/// Relies on uuid::Uuid::new_v4: a random 128-bit identifier, of which the low
/// 32 bits are kept. Nothing is known of the value.
#[verifier::external_body]
pub fn generate_id() -> (r: u32) {
    uuid::Uuid::new_v4().as_u128() as u32
}

/// Relies on std::time::SystemTime::now: the system clock's reading.
#[verifier::external_body]
fn system_now() -> (r: std::time::SystemTime) {
    std::time::SystemTime::now()
}

/// Relies on SystemTime::duration_since: the time elapsed since the Unix epoch,
/// in whole seconds, or an error when the clock reads before the epoch.
#[verifier::external_body]
fn seconds_since_epoch(t: &std::time::SystemTime) -> (r: Result<u64, std::time::SystemTimeError>) {
    match t.duration_since(std::time::UNIX_EPOCH) {
        Ok(d) => Ok(d.as_secs()),
        Err(e) => Err(e),
    }
}

/// Unix seconds now, or `FailedToGetCurrentTime` when the clock reads before the
/// epoch.
pub fn current_timestamp() -> (r: Result<u64, crate::error::ConsensusError>)
    ensures
        r is Err ==> r == Err::<u64, _>(crate::error::ConsensusError::FailedToGetCurrentTime),
{
    let t = system_now();
    match seconds_since_epoch(&t) {
        Ok(s) => Ok(s),
        Err(_) => Err(crate::error::ConsensusError::FailedToGetCurrentTime),
    }
}

} // verus!
