//! Deployment code that writes every mined key into contract storage.

use crate::derivation::append_bytes;
use crate::storage_miner::StorageSlot;
use vstd::prelude::*;

verus! {

/// Code that stores the value one under `storage_key`: `PUSH1 1`, `PUSH32`
/// with the key, `SSTORE`.
pub open spec fn sstore_code(storage_key: Seq<u8>) -> Seq<u8> {
    seq![0x60u8, 0x01u8, 0x7fu8] + storage_key + seq![0x55u8]
}

/// The stores for every level of `branch`, in the order of the levels.
pub open spec fn sstores_code(branch: Seq<StorageSlot>) -> Seq<u8>
    decreases branch.len(),
{
    if branch.len() == 0 {
        Seq::<u8>::empty()
    } else {
        sstores_code(branch.drop_last()) + sstore_code(branch.last().storage_key@)
    }
}

/// Code that pushes `offset`: `PUSH1` with one byte below 256, else `PUSH2`
/// with its two low-order bytes, the higher first.
pub open spec fn push_offset_code(offset: int) -> Seq<u8> {
    if offset < 256 {
        seq![0x60u8, offset as u8]
    } else {
        seq![0x61u8, ((offset / 256) % 256) as u8, (offset % 256) as u8]
    }
}

/// The runtime code that is deployed: a single `STOP`.
pub open spec fn runtime_code() -> Seq<u8> {
    seq![0x00u8]
}

/// The whole deployment code for `branch`: the stores; `PUSH1` of the
/// runtime's size and `PUSH1 0`; the push of the runtime's offset, taken as
/// the length so far plus four; `CODECOPY`; `PUSH1` of the size, `PUSH1 0`
/// and `RETURN`; and the runtime code.
pub open spec fn initcode_of(branch: Seq<StorageSlot>) -> Seq<u8> {
    let stores = sstores_code(branch);
    stores + seq![0x60u8, 0x01u8, 0x60u8, 0x00u8] + push_offset_code(stores.len() as int + 8)
        + seq![0x39u8, 0x60u8, 0x01u8, 0x60u8, 0x00u8, 0xf3u8] + runtime_code()
}

/// Each level adds 36 bytes of code.
pub proof fn lemma_sstores_len(branch: Seq<StorageSlot>)
    ensures
        sstores_code(branch).len() == 36 * branch.len(),
    decreases branch.len(),
{
    if branch.len() > 0 {
        lemma_sstores_len(branch.drop_last());
        assert(branch.last().storage_key@.len() == 32);
    }
}

/// Builds the deployment code for `branch`.
pub fn generate_initcode(branch: &[StorageSlot]) -> (bytecode: Vec<u8>)
    requires
        36 * branch@.len() + 8 <= usize::MAX,
    ensures
        bytecode@ == initcode_of(branch@),
{
    let mut bytecode: Vec<u8> = Vec::new();
    let mut i: usize = 0;
    while i < branch.len()
        invariant
            i <= branch@.len(),
            bytecode@ == sstores_code(branch@.take(i as int)),
        decreases branch@.len() - i,
    {
        let ghost before = bytecode@;
        bytecode.push(0x60);
        bytecode.push(0x01);
        bytecode.push(0x7f);
        append_bytes(&mut bytecode, branch[i].storage_key.as_slice());
        bytecode.push(0x55);
        proof {
            assert(branch@.take(i as int + 1).drop_last() =~= branch@.take(i as int));
            assert(branch@.take(i as int + 1).last() == branch@[i as int]);
            assert(bytecode@ =~= before + sstore_code(branch@[i as int].storage_key@));
        }
        i += 1;
    }
    proof {
        assert(branch@.take(i as int) =~= branch@);
        lemma_sstores_len(branch@);
    }
    let ghost stores = bytecode@;
    bytecode.push(0x60);
    bytecode.push(0x01);
    bytecode.push(0x60);
    bytecode.push(0x00);
    let runtime_offset: usize = bytecode.len() + 4;
    if runtime_offset < 256 {
        bytecode.push(0x60);
        bytecode.push(runtime_offset as u8);
    } else {
        bytecode.push(0x61);
        bytecode.push(((runtime_offset / 256) % 256) as u8);
        bytecode.push((runtime_offset % 256) as u8);
    }
    bytecode.push(0x39);
    bytecode.push(0x60);
    bytecode.push(0x01);
    bytecode.push(0x60);
    bytecode.push(0x00);
    bytecode.push(0xf3);
    bytecode.push(0x00);
    assert(bytecode@ =~= initcode_of(branch@));
    bytecode
}

/// Rough gas cost of deploying code of `bytecode_size` bytes that makes
/// `num_sstores` first writes: 32000 for the creation, 200 for each byte and
/// 20000 for each write.
pub fn estimate_deployment_gas(num_sstores: usize, bytecode_size: usize) -> (gas: u64)
    requires
        32000 + bytecode_size * 200 + num_sstores * 20000 <= u64::MAX,
    ensures
        gas == 32000 + bytecode_size * 200 + num_sstores * 20000,
{
    let base_creation: u64 = 32000;
    let per_byte: u64 = 200;
    let sstore_cost: u64 = 20000;
    base_creation + (bytecode_size as u64 * per_byte) + (num_sstores as u64 * sstore_cost)
}

} // verus!
