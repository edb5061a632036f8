//! The hash derivations that turn a candidate into a trie key.

use crate::keccak::{keccak256, keccak256_digest};
use vstd::prelude::*;

verus! {

/// `count` zero bytes.
pub open spec fn zeros(count: nat) -> Seq<u8> {
    Seq::new(count, |i: int| 0u8)
}

/// `value` left-padded with zeros to 32 bytes: the value sits in the
/// low-order (last) bytes.
pub open spec fn pad32(value: Seq<u8>) -> Seq<u8>
    recommends
        value.len() <= 32,
{
    zeros((32 - value.len()) as nat) + value
}

/// The byte of `value` that is `k` bytes above its least significant one.
pub open spec fn byte_of(value: u64, k: u64) -> u8 {
    ((value >> (8 * k)) & 0xff) as u8
}

/// `value` in big-endian order, eight bytes.
pub open spec fn be_bytes(value: u64) -> Seq<u8> {
    Seq::new(8, |i: int| byte_of(value, (7 - i) as u64))
}

/// `value` big-endian in the low-order 8 bytes of a 32-byte word.
pub open spec fn be_pad32(value: u64) -> Seq<u8> {
    pad32(be_bytes(value))
}

/// Bytes hashed for the key of `candidate` in a keyed mapping at `slot`.
pub open spec fn mapping_preimage(candidate: Seq<u8>, slot: u64) -> Seq<u8> {
    pad32(candidate) + be_pad32(slot)
}

/// Key under which a keyed mapping at `slot` stores the entry of `candidate`.
pub open spec fn mapping_key(candidate: Seq<u8>, slot: u64) -> Seq<u8> {
    keccak256_digest(mapping_preimage(candidate, slot))
}

/// Key of `candidate` when it is itself the trie key's preimage.
pub open spec fn direct_key(candidate: Seq<u8>) -> Seq<u8> {
    keccak256_digest(candidate)
}

/// Bytes hashed for the identifier of a contract created by `creator` with
/// `salt` and the code whose hash is `code_hash`.
pub open spec fn contract_preimage(creator: Seq<u8>, salt: u32, code_hash: Seq<u8>) -> Seq<u8> {
    seq![0xffu8] + creator + be_pad32(salt as u64) + code_hash
}

/// Identifier of such a contract: the low 20 bytes of the preimage's digest.
pub open spec fn contract_identifier(creator: Seq<u8>, salt: u32, code_hash: Seq<u8>) -> Seq<u8> {
    keccak256_digest(contract_preimage(creator, salt, code_hash)).subrange(12, 32)
}

/// The keyed-mapping derivation is a function of candidate and slot: keys
/// derived from equal inputs are equal, byte for byte.
pub proof fn lemma_mapping_key_deterministic(
    candidate: [u8; 20],
    slot: u64,
    key: [u8; 32],
    same_candidate: [u8; 20],
    same_slot: u64,
    other_key: [u8; 32],
)
    requires
        candidate == same_candidate,
        slot == same_slot,
        key@ == mapping_key(candidate@, slot),
        other_key@ == mapping_key(same_candidate@, same_slot),
    ensures
        key == other_key,
{
    assert(key =~= other_key);
}

/// The direct derivation is a function of the candidate: keys derived from
/// equal candidates are equal, byte for byte.
pub proof fn lemma_direct_key_deterministic(
    candidate: [u8; 20],
    key: [u8; 32],
    same_candidate: [u8; 20],
    other_key: [u8; 32],
)
    requires
        candidate == same_candidate,
        key@ == direct_key(candidate@),
        other_key@ == direct_key(same_candidate@),
    ensures
        key == other_key,
{
    assert(key =~= other_key);
}

/// Appends `bytes` to `buffer`.
pub(crate) fn append_bytes(buffer: &mut Vec<u8>, bytes: &[u8])
    ensures
        final(buffer)@ == old(buffer)@ + bytes@,
{
    let mut i: usize = 0;
    while i < bytes.len()
        invariant
            i <= bytes@.len(),
            buffer@ == old(buffer)@ + bytes@.subrange(0, i as int),
        decreases bytes@.len() - i,
    {
        buffer.push(bytes[i]);
        i += 1;
        assert(buffer@ =~= old(buffer)@ + bytes@.subrange(0, i as int));
    }
    assert(bytes@.subrange(0, i as int) =~= bytes@);
}

/// Appends `count` zero bytes to `buffer`.
fn append_zeros(buffer: &mut Vec<u8>, count: usize)
    ensures
        final(buffer)@ == old(buffer)@ + zeros(count as nat),
{
    let mut i: usize = 0;
    while i < count
        invariant
            i <= count,
            buffer@ == old(buffer)@ + zeros(i as nat),
        decreases count - i,
    {
        buffer.push(0u8);
        i += 1;
        assert(buffer@ =~= old(buffer)@ + zeros(i as nat));
    }
}

/// Appends the 32-byte big-endian word that holds `value`.
fn append_be_word(buffer: &mut Vec<u8>, value: u64)
    ensures
        final(buffer)@ == old(buffer)@ + be_pad32(value),
{
    append_zeros(buffer, 24);
    let ghost padded = buffer@;
    let mut i: usize = 0;
    while i < 8
        invariant
            i <= 8,
            buffer@ == padded + be_bytes(value).subrange(0, i as int),
        decreases 8 - i,
    {
        let k: u64 = (7 - i) as u64;
        let shifted: u64 = (value >> (8 * k)) & 0xff;
        assert(shifted <= 0xff) by (bit_vector)
            requires
                shifted == (value >> (8 * k)) & 0xff,
        ;
        buffer.push(shifted as u8);
        i += 1;
        assert(buffer@ =~= padded + be_bytes(value).subrange(0, i as int));
    }
    assert(be_bytes(value).subrange(0, 8) =~= be_bytes(value));
    assert(buffer@ =~= old(buffer)@ + be_pad32(value));
}

/// Keyed-mapping derivation: the Keccak-256 digest of the candidate padded to
/// 32 bytes followed by the slot index as a 32-byte big-endian word.
pub fn calculate_storage_slot(address: &[u8; 20], base_slot: u64) -> (storage_key: [u8; 32])
    ensures
        storage_key@ == mapping_key(address@, base_slot),
{
    let mut preimage: Vec<u8> = Vec::with_capacity(64);
    append_zeros(&mut preimage, 12);
    append_bytes(&mut preimage, address.as_slice());
    append_be_word(&mut preimage, base_slot);
    assert(preimage@ =~= mapping_preimage(address@, base_slot));
    keccak256(preimage.as_slice())
}

/// Direct derivation: the Keccak-256 digest of the candidate's 20 bytes.
pub fn calculate_account_hash(address: &[u8; 20]) -> (account_hash: [u8; 32])
    ensures
        account_hash@ == direct_key(address@),
{
    keccak256(address.as_slice())
}

/// Identifier of the contract that `deployer` creates with `salt` from code
/// hashing to `init_code_hash`: the digest of `0xff`, the deployer, the salt
/// as a 32-byte big-endian word and the code hash, cut to its last 20 bytes.
pub fn calculate_create2_address(deployer: &[u8; 20], salt: u32, init_code_hash: &[u8; 32]) -> (address: [u8; 20])
    ensures
        address@ == contract_identifier(deployer@, salt, init_code_hash@),
{
    let mut data: Vec<u8> = Vec::with_capacity(85);
    data.push(0xff);
    append_bytes(&mut data, deployer.as_slice());
    append_be_word(&mut data, salt as u64);
    append_bytes(&mut data, init_code_hash.as_slice());
    assert(data@ =~= contract_preimage(deployer@, salt, init_code_hash@));
    let hash = keccak256(data.as_slice());
    let mut address = [0u8; 20];
    let mut i: usize = 0;
    while i < 20
        invariant
            i <= 20,
            forall|j: int| 0 <= j < i ==> address@[j] == hash@[12 + j],
        decreases 20 - i,
    {
        address[i] = hash[12 + i];
        i += 1;
    }
    assert(address@ =~= hash@.subrange(12, 32));
    address
}

} // verus!
