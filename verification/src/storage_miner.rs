//! Chained branches: each level's key shares a prefix with the key of the
//! level before it, one nibble longer from level to level.

use crate::clock::{elapsed_since, start_clock};
use crate::cuda_miner::cuda_available;
use crate::derivation::{calculate_storage_slot, mapping_key};
use crate::hex_text::{hex_encode, hex_text, lemma_hex_digit_injective};
use crate::prefix::{has_nibble_prefix, nibble_at, shares_nibble_prefix, KEY_NIBBLES};
use crate::search::{random_address, search_cpu, Derivation};
use std::time::Duration;
use vstd::prelude::*;
use vstd::string::*;

verus! {

/// Slot of the balance mapping in a standard token contract.
pub const ERC20_BALANCES_SLOT: u64 = 0;

/// Depth from which a level's search is worth a kernel launch.
pub const CUDA_DEPTH_THRESHOLD: usize = 8;

/// One mined level of a branch.
#[derive(Clone, Copy, Debug)]
pub struct StorageSlot {
    pub address: [u8; 20],
    pub storage_key: [u8; 32],
    pub depth: usize,
    /// Time it took to mine this level.
    pub time_taken: Duration,
}

/// Nibbles that the level at `depth` has to share with the level before it:
/// `depth` of them, and never more than a key has.
pub open spec fn required_nibbles_at(depth: int) -> int {
    if depth <= KEY_NIBBLES {
        depth
    } else {
        KEY_NIBBLES as int
    }
}

/// Nibbles asked of the level at `depth`.
pub fn required_nibbles_for(depth: usize) -> (nibbles: usize)
    ensures
        nibbles == required_nibbles_at(depth as int),
        nibbles <= KEY_NIBBLES,
{
    if depth <= KEY_NIBBLES {
        depth
    } else {
        KEY_NIBBLES
    }
}

/// `slot` stands at `depth` and carries the key derived from its address.
pub open spec fn is_level(slot: StorageSlot, depth: int) -> bool {
    &&& slot.depth == depth
    &&& slot.storage_key@ == mapping_key(slot.address@, ERC20_BALANCES_SLOT)
}

/// The address at the end of `branch` would continue the chain: the branch
/// is empty, or the address's key shares the required prefix with the key of
/// the last level.
pub open spec fn continues_chain(branch: Seq<StorageSlot>, address: Seq<u8>) -> bool {
    branch.len() > 0 ==> shares_nibble_prefix(
        mapping_key(address, ERC20_BALANCES_SLOT),
        branch.last().storage_key@,
        required_nibbles_at(branch.len() as int),
    )
}

/// Every level carries its own depth and derived key, and from the second
/// level on each key shares with the key before it as many nibbles as its
/// depth asks for.
pub open spec fn is_chained_branch(branch: Seq<StorageSlot>) -> bool {
    &&& forall|i: int| 0 <= i < branch.len() ==> is_level(#[trigger] branch[i], i)
    &&& forall|i: int|
        1 <= i < branch.len() ==> shares_nibble_prefix(
            (#[trigger] branch[i]).storage_key@,
            branch[i - 1].storage_key@,
            required_nibbles_at(i),
        )
}

/// In a chained branch, the key derived from the candidate of level `i`
/// shares its first `i` nibbles with the key of level `i - 1`.
pub proof fn lemma_chained_levels_match(branch: Seq<StorageSlot>, i: int)
    requires
        is_chained_branch(branch),
        1 <= i < branch.len(),
        i <= KEY_NIBBLES,
    ensures
        shares_nibble_prefix(
            mapping_key(branch[i].address@, ERC20_BALANCES_SLOT),
            branch[i - 1].storage_key@,
            i,
        ),
{
    assert(is_level(branch[i], i));
}

/// What the builder does next.
#[derive(Clone, Copy, Debug)]
pub enum LevelPlan {
    /// The branch has reached its target depth.
    Complete,
    /// The first level: any candidate will do.
    Unconstrained,
    /// Search for a candidate whose key shares `required_nibbles` nibbles
    /// with `target`, on the device first if `use_cuda` says so.
    Search { target: [u8; 32], required_nibbles: usize, use_cuda: bool },
}

/// Decides the next step of a branch that is to reach `target_depth`.
///
/// The level after the last one is searched against the last level's key,
/// with as many nibbles as its depth. The device is used only where the
/// caller allows it and the depth has reached `CUDA_DEPTH_THRESHOLD`.
pub fn plan_next_level(
    branch: &Vec<StorageSlot>,
    target_depth: usize,
    use_cuda: bool,
) -> (plan: LevelPlan)
    ensures
        branch.len() >= target_depth ==> plan == LevelPlan::Complete,
        branch.len() < target_depth && branch.len() == 0 ==> plan == LevelPlan::Unconstrained,
        0 < branch.len() < target_depth ==> plan == (LevelPlan::Search {
            target: branch@.last().storage_key,
            required_nibbles: required_nibbles_at(branch.len() as int) as usize,
            use_cuda: use_cuda && branch.len() >= CUDA_DEPTH_THRESHOLD,
        }),
{
    let current_depth: usize = branch.len();
    if current_depth >= target_depth {
        LevelPlan::Complete
    } else if current_depth == 0 {
        LevelPlan::Unconstrained
    } else {
        let required_nibbles: usize = required_nibbles_for(current_depth);
        LevelPlan::Search {
            target: branch[current_depth - 1].storage_key,
            required_nibbles,
            use_cuda: use_cuda && current_depth >= CUDA_DEPTH_THRESHOLD,
        }
    }
}

/// Appends the level mined with `address`, if it continues the chain.
///
/// The key is derived here, and compared with the last level's key on the
/// nibbles that the new depth requires. An address that does not continue the
/// chain is refused and the branch stays as it was.
pub fn push_level(
    branch: &mut Vec<StorageSlot>,
    address: [u8; 20],
    time_taken: Duration,
) -> (accepted: bool)
    ensures
        accepted == continues_chain(old(branch)@, address@),
        !accepted ==> final(branch)@ == old(branch)@,
        accepted ==> final(branch)@.len() == old(branch)@.len() + 1,
        accepted ==> final(branch)@.drop_last() == old(branch)@,
        accepted ==> final(branch)@.last().address == address,
        accepted ==> final(branch)@.last().time_taken == time_taken,
        accepted ==> is_level(final(branch)@.last(), old(branch)@.len() as int),
        is_chained_branch(old(branch)@) ==> is_chained_branch(final(branch)@),
{
    let current_depth: usize = branch.len();
    let storage_key = calculate_storage_slot(&address, ERC20_BALANCES_SLOT);
    if current_depth > 0 {
        let required_nibbles: usize = required_nibbles_for(current_depth);
        let previous_key = branch[current_depth - 1].storage_key;
        if !has_nibble_prefix(&storage_key, &previous_key, required_nibbles) {
            return false;
        }
    }
    branch.push(StorageSlot { address, storage_key, depth: current_depth, time_taken });
    proof {
        assert(branch@.drop_last() =~= old(branch)@);
        if is_chained_branch(old(branch)@) {
            assert forall|i: int| 0 <= i < branch@.len() implies is_level(#[trigger] branch@[i], i) by {
                if i < current_depth {
                    assert(branch@[i] == old(branch)@[i]);
                }
            }
            assert forall|i: int| 1 <= i < branch@.len() implies shares_nibble_prefix(
                (#[trigger] branch@[i]).storage_key@,
                branch@[i - 1].storage_key@,
                required_nibbles_at(i),
            ) by {
                assert(branch@[i - 1] == old(branch)@[i - 1]);
                if i < current_depth {
                    assert(branch@[i] == old(branch)@[i]);
                }
            }
        }
    }
    true
}

/// Mines a chained branch of up to `target_depth` levels without
/// parallelism.
///
/// The first level takes a random candidate. Each later level is searched
/// against the key of the level before it, by `num_threads` workers for at
/// most `max_rounds` rounds of one batch each. A level whose search finds
/// nothing ends the mining, and the levels mined so far are returned.
///
/// `use_cuda` asks for the device from `CUDA_DEPTH_THRESHOLD` on. This
/// library reaches none, so every level is searched on the host.
pub fn mine_deep_branch(
    target_depth: usize,
    num_threads: usize,
    use_cuda: bool,
    max_rounds: u64,
) -> (branch: Vec<StorageSlot>)
    ensures
        is_chained_branch(branch@),
        branch.len() <= target_depth,
        target_depth > 0 ==> branch.len() >= 1,
        target_depth > 0 && (num_threads == 0 || max_rounds == 0) ==> branch.len() == 1,
{
    let mut branch: Vec<StorageSlot> = Vec::new();
    let derivation = Derivation::Mapping { slot: ERC20_BALANCES_SLOT };
    let use_device: bool = use_cuda && cuda_available();
    let mut exhausted: bool = false;
    while !exhausted && branch.len() < target_depth
        invariant
            is_chained_branch(branch@),
            branch.len() <= target_depth,
            derivation == (Derivation::Mapping { slot: ERC20_BALANCES_SLOT }),
            !use_device,
            exhausted ==> branch.len() >= 1,
            (num_threads == 0 || max_rounds == 0) ==> branch.len() <= 1,
        decreases target_depth - branch.len() + if exhausted { 0int } else { 1int },
    {
        let started = start_clock();
        match plan_next_level(&branch, target_depth, use_device) {
            LevelPlan::Complete => {
                exhausted = true;
            },
            LevelPlan::Unconstrained => {
                let address = random_address();
                push_level(&mut branch, address, elapsed_since(&started));
            },
            LevelPlan::Search { target, required_nibbles, use_cuda: _ } => {
                match search_cpu(&derivation, &target, required_nibbles, num_threads, max_rounds) {
                    Some(address) => {
                        push_level(&mut branch, address, elapsed_since(&started));
                    },
                    None => {
                        exhausted = true;
                    },
                }
            },
        }
    }
    branch
}

/// What the token contract's source is generated from: the address of every
/// level, as hexadecimal text.
pub struct ContractTemplate {
    pub addresses: Vec<String>,
}

impl ContractTemplate {
    /// Collects the addresses of `branch`, level by level.
    pub fn from_branch(branch: &[StorageSlot]) -> (template: ContractTemplate)
        ensures
            template.addresses@.len() == branch@.len(),
            forall|i: int|
                0 <= i < branch@.len() ==> (#[trigger] template.addresses@[i])@ == hex_text(
                    branch@[i].address@,
                ),
    {
        let mut addresses: Vec<String> = Vec::new();
        let mut i: usize = 0;
        while i < branch.len()
            invariant
                i <= branch@.len(),
                addresses@.len() == i,
                forall|j: int|
                    0 <= j < i ==> (#[trigger] addresses@[j])@ == hex_text(branch@[j].address@),
            decreases branch@.len() - i,
        {
            addresses.push(hex_encode(branch[i].address.as_slice()));
            i += 1;
        }
        ContractTemplate { addresses }
    }
}

/// Number of leading nibbles on which `a` and `b` agree, read off their
/// hexadecimal text.
pub fn count_shared_nibbles(a: &[u8; 32], b: &[u8; 32]) -> (shared: usize)
    ensures
        shared <= KEY_NIBBLES,
        shares_nibble_prefix(a@, b@, shared as int),
        shared < KEY_NIBBLES ==> nibble_at(a@, shared as int) != nibble_at(b@, shared as int),
{
    let hex_a = hex_encode(a.as_slice());
    let hex_b = hex_encode(b.as_slice());
    let mut shared: usize = 0;
    while shared < KEY_NIBBLES
        invariant
            shared <= KEY_NIBBLES,
            hex_a@ == hex_text(a@),
            hex_b@ == hex_text(b@),
            shares_nibble_prefix(a@, b@, shared as int),
        ensures
            shared <= KEY_NIBBLES,
            shares_nibble_prefix(a@, b@, shared as int),
            shared < KEY_NIBBLES ==> nibble_at(a@, shared as int) != nibble_at(b@, shared as int),
        decreases KEY_NIBBLES - shared,
    {
        let digit_a = hex_a.as_str().get_char(shared);
        let digit_b = hex_b.as_str().get_char(shared);
        proof {
            lemma_hex_digit_injective(nibble_at(a@, shared as int), nibble_at(b@, shared as int));
        }
        if digit_a != digit_b {
            break ;
        }
        shared += 1;
    }
    shared
}

/// The prefix that the levels of a chained branch have in common, as text:
/// the first `branch.len() - 1` hexadecimal digits of the first level's key.
/// An empty branch has the empty prefix.
pub fn get_common_prefix(branch: &Vec<StorageSlot>) -> (prefix: String)
    ensures
        branch.len() == 0 ==> prefix@ == Seq::<char>::empty(),
        branch.len() > 0 ==> prefix@ == hex_text(branch@[0].storage_key@).take(
            required_nibbles_at(branch.len() - 1),
        ),
{
    if branch.len() == 0 {
        return String::new();
    }
    let min_shared: usize = if branch.len() - 1 <= KEY_NIBBLES {
        branch.len() - 1
    } else {
        KEY_NIBBLES
    };
    let hex_str = hex_encode(branch[0].storage_key.as_slice());
    String::from_str(hex_str.as_str().substring_char(0, min_shared))
}

} // verus!
