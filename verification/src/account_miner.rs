//! Fixed-target series: for one contract, auxiliary accounts whose hashes
//! share ever longer prefixes with the hash of the contract's address.

use crate::clock::{elapsed_since, start_clock};
use crate::derivation::{
    calculate_account_hash,
    calculate_create2_address,
    contract_identifier,
    direct_key,
};
use crate::hex_text::{prefixed_hex, prefixed_hex_text};
use crate::keccak::{keccak256, keccak256_digest};
use crate::prefix::{has_nibble_prefix, shares_nibble_prefix, KEY_NIBBLES};
use crate::search::{search_cpu, Derivation};
use std::time::Duration;
use vstd::prelude::*;

verus! {

/// A contract and the accounts mined around it, as text.
pub struct ContractWithAuxiliaries {
    pub salt: u32,
    pub contract_address: String,
    pub auxiliary_accounts: Vec<String>,
}

/// Everything one mining run produced.
pub struct Create2MiningResult {
    pub deployer: String,
    pub init_code_hash: String,
    pub target_depth: usize,
    pub num_contracts: usize,
    pub total_time: Duration,
    pub contracts: Vec<ContractWithAuxiliaries>,
}

/// Nibbles that the auxiliary at `index` shares with the anchor: one more
/// than its index, and never more than a key has.
pub open spec fn auxiliary_nibbles(index: int) -> int {
    if index + 1 <= KEY_NIBBLES {
        index + 1
    } else {
        KEY_NIBBLES as int
    }
}

/// Nibbles that the search for the auxiliary at `index` asks for.
pub fn required_auxiliary_nibbles(index: usize) -> (nibbles: usize)
    ensures
        nibbles == auxiliary_nibbles(index as int),
        1 <= nibbles <= KEY_NIBBLES,
{
    if index < KEY_NIBBLES {
        index + 1
    } else {
        KEY_NIBBLES
    }
}

/// Each account of the series, hashed, shares with `anchor` the prefix that
/// its place in the series asks for.
pub open spec fn is_fixed_target_series(series: Seq<[u8; 20]>, anchor: Seq<u8>) -> bool {
    forall|i: int|
        0 <= i < series.len() ==> shares_nibble_prefix(
            direct_key((#[trigger] series[i])@),
            anchor,
            auxiliary_nibbles(i),
        )
}

/// `text` spells out an account whose hash shares `nibbles` nibbles with
/// `anchor`.
pub open spec fn spells_match(text: Seq<char>, anchor: Seq<u8>, nibbles: int) -> bool {
    exists|account: [u8; 20]|
        {
            &&& text == #[trigger] prefixed_hex_text(account@)
            &&& shares_nibble_prefix(direct_key(account@), anchor, nibbles)
        }
}

/// `texts` spell out, one for one, the accounts of a fixed-target series
/// against `anchor`.
pub open spec fn spells_fixed_target_series(texts: Seq<String>, anchor: Seq<u8>) -> bool {
    forall|i: int|
        0 <= i < texts.len() ==> spells_match((#[trigger] texts[i])@, anchor, auxiliary_nibbles(i))
}

/// Whether two hashes agree on their first `nibbles` nibbles.
pub fn has_hash_prefix(hash_a: &[u8; 32], hash_b: &[u8; 32], nibbles: usize) -> (matched: bool)
    requires
        nibbles <= KEY_NIBBLES,
    ensures
        matched == shares_nibble_prefix(hash_a@, hash_b@, nibbles as int),
{
    has_nibble_prefix(hash_a, hash_b, nibbles)
}

/// `candidate` may stand next in `series`: its hash shares with `anchor` the
/// prefix asked of the place after the last account.
pub open spec fn extends_series(series: Seq<[u8; 20]>, anchor: Seq<u8>, candidate: Seq<u8>) -> bool {
    shares_nibble_prefix(direct_key(candidate), anchor, auxiliary_nibbles(series.len() as int))
}

/// Appends `candidate` to the series against `anchor`, if it may stand next.
///
/// The candidate is hashed here and its hash compared with the anchor on the
/// nibbles that its place asks for. A candidate that falls short is refused
/// and the series stays as it was.
pub fn push_auxiliary(
    auxiliaries: &mut Vec<[u8; 20]>,
    anchor: &[u8; 32],
    candidate: [u8; 20],
) -> (accepted: bool)
    ensures
        accepted == extends_series(old(auxiliaries)@, anchor@, candidate@),
        accepted ==> final(auxiliaries)@ == old(auxiliaries)@.push(candidate),
        !accepted ==> final(auxiliaries)@ == old(auxiliaries)@,
        is_fixed_target_series(old(auxiliaries)@, anchor@) ==> is_fixed_target_series(
            final(auxiliaries)@,
            anchor@,
        ),
{
    let nibbles: usize = required_auxiliary_nibbles(auxiliaries.len());
    let hash = calculate_account_hash(&candidate);
    if !has_hash_prefix(&hash, anchor, nibbles) {
        return false;
    }
    auxiliaries.push(candidate);
    proof {
        if is_fixed_target_series(old(auxiliaries)@, anchor@) {
            assert forall|i: int| 0 <= i < auxiliaries@.len() implies shares_nibble_prefix(
                direct_key((#[trigger] auxiliaries@[i])@),
                anchor@,
                auxiliary_nibbles(i),
            ) by {
                if i < old(auxiliaries)@.len() {
                    assert(auxiliaries@[i] == old(auxiliaries)@[i]);
                }
            }
        }
    }
    true
}

/// Mines the auxiliary accounts of one contract: account `i` of the result
/// shares `i + 1` nibbles of its hash with the hash of `contract_address`.
///
/// Each account is searched on its own, by `num_threads` workers for at most
/// `max_rounds` rounds. The series ends at `target_depth` accounts, or
/// earlier at the first search that finds nothing.
pub fn mine_auxiliaries_for_contract(
    contract_address: &[u8; 20],
    target_depth: usize,
    num_threads: usize,
    max_rounds: u64,
) -> (auxiliaries: Vec<[u8; 20]>)
    ensures
        is_fixed_target_series(auxiliaries@, direct_key(contract_address@)),
        auxiliaries.len() <= target_depth,
        num_threads == 0 || max_rounds == 0 ==> auxiliaries.len() == 0,
{
    let mut auxiliaries: Vec<[u8; 20]> = Vec::new();
    let contract_hash = calculate_account_hash(contract_address);
    let derivation = Derivation::Direct;
    let mut exhausted: bool = false;
    while !exhausted && auxiliaries.len() < target_depth
        invariant
            is_fixed_target_series(auxiliaries@, direct_key(contract_address@)),
            auxiliaries.len() <= target_depth,
            contract_hash@ == direct_key(contract_address@),
            derivation == Derivation::Direct,
            num_threads == 0 || max_rounds == 0 ==> auxiliaries.len() == 0,
        decreases target_depth - auxiliaries.len() + if exhausted { 0int } else { 1int },
    {
        let depth: usize = required_auxiliary_nibbles(auxiliaries.len());
        match search_cpu(&derivation, &contract_hash, depth, num_threads, max_rounds) {
            Some(auxiliary) => {
                push_auxiliary(&mut auxiliaries, &contract_hash, auxiliary);
            },
            None => {
                exhausted = true;
            },
        }
    }
    auxiliaries
}

/// Writes out a series of accounts as text, one for one.
fn spell_auxiliaries(auxiliaries: &Vec<[u8; 20]>) -> (texts: Vec<String>)
    ensures
        texts.len() == auxiliaries.len(),
        forall|i: int|
            0 <= i < texts.len() ==> (#[trigger] texts@[i])@ == prefixed_hex_text(auxiliaries@[i]@),
{
    let mut texts: Vec<String> = Vec::new();
    let mut i: usize = 0;
    while i < auxiliaries.len()
        invariant
            i <= auxiliaries.len(),
            texts.len() == i,
            forall|j: int|
                0 <= j < texts.len() ==> (#[trigger] texts@[j])@ == prefixed_hex_text(
                    auxiliaries@[j]@,
                ),
        decreases auxiliaries.len() - i,
    {
        texts.push(prefixed_hex(auxiliaries[i].as_slice()));
        i += 1;
    }
    texts
}

/// What holds of the contract at place `index` of a run for `deployer` and
/// code hashing to `code_hash`: its salt is its index cut to 32 bits, its
/// address is the identifier derived from deployer, salt and code hash, and
/// its auxiliaries are a fixed-target series against the hash of that
/// address, no longer than `target_depth`.
pub open spec fn is_mined_contract(
    contract: ContractWithAuxiliaries,
    index: int,
    deployer: Seq<u8>,
    code_hash: Seq<u8>,
    target_depth: int,
) -> bool {
    let address = contract_identifier(deployer, contract.salt, code_hash);
    &&& contract.salt == index as u32
    &&& contract.contract_address@ == prefixed_hex_text(address)
    &&& contract.auxiliary_accounts@.len() <= target_depth
    &&& spells_fixed_target_series(contract.auxiliary_accounts@, direct_key(address))
}

/// The record of the contract that `deployer` creates with `salt` from code
/// hashing to `init_code_hash`, with `auxiliaries` mined around it: its
/// address and every auxiliary as hexadecimal text behind `0x`.
///
/// If the auxiliaries are a fixed-target series against the hash of the
/// contract's address, the record says so of their texts.
pub fn describe_contract(
    deployer: &[u8; 20],
    salt: u32,
    init_code_hash: &[u8; 32],
    auxiliaries: &Vec<[u8; 20]>,
) -> (contract: ContractWithAuxiliaries)
    ensures
        contract.salt == salt,
        contract.contract_address@ == prefixed_hex_text(
            contract_identifier(deployer@, salt, init_code_hash@),
        ),
        contract.auxiliary_accounts@.len() == auxiliaries@.len(),
        forall|i: int|
            0 <= i < auxiliaries@.len() ==> (#[trigger] contract.auxiliary_accounts@[i])@
                == prefixed_hex_text(auxiliaries@[i]@),
        is_fixed_target_series(
            auxiliaries@,
            direct_key(contract_identifier(deployer@, salt, init_code_hash@)),
        ) ==> spells_fixed_target_series(
            contract.auxiliary_accounts@,
            direct_key(contract_identifier(deployer@, salt, init_code_hash@)),
        ),
{
    let contract_address = calculate_create2_address(deployer, salt, init_code_hash);
    let auxiliary_accounts = spell_auxiliaries(auxiliaries);
    proof {
        let anchor = direct_key(contract_address@);
        if is_fixed_target_series(auxiliaries@, anchor) {
            assert forall|j: int| 0 <= j < auxiliary_accounts@.len() implies spells_match(
                (#[trigger] auxiliary_accounts@[j])@,
                anchor,
                auxiliary_nibbles(j),
            ) by {
                let account = auxiliaries@[j];
                assert(auxiliary_accounts@[j]@ == prefixed_hex_text(account@));
                assert(shares_nibble_prefix(direct_key(account@), anchor, auxiliary_nibbles(j)));
            }
        }
    }
    ContractWithAuxiliaries {
        salt,
        contract_address: prefixed_hex(contract_address.as_slice()),
        auxiliary_accounts,
    }
}

/// Derives `num_contracts` contract addresses for `deployer`, with salts
/// counting up from zero, and mines up to `target_depth` auxiliary accounts
/// around each.
///
/// The searches run as in [`mine_auxiliaries_for_contract`]. Addresses and
/// hashes are reported as hexadecimal text behind `0x`.
pub fn mine_create2_accounts(
    deployer: [u8; 20],
    num_contracts: usize,
    target_depth: usize,
    num_threads: usize,
    init_code: &[u8],
    max_rounds: u64,
) -> (result: Create2MiningResult)
    ensures
        result.deployer@ == prefixed_hex_text(deployer@),
        result.init_code_hash@ == prefixed_hex_text(keccak256_digest(init_code@)),
        result.target_depth == target_depth,
        result.num_contracts == num_contracts,
        result.contracts.len() == num_contracts,
        forall|i: int|
            0 <= i < num_contracts ==> is_mined_contract(
                #[trigger] result.contracts@[i],
                i,
                deployer@,
                keccak256_digest(init_code@),
                target_depth as int,
            ),
        num_threads == 0 || max_rounds == 0 ==> forall|i: int|
            0 <= i < num_contracts ==> (#[trigger] result.contracts@[i]).auxiliary_accounts@.len()
                == 0,
{
    let total_start = start_clock();
    let init_code_hash = keccak256(init_code);
    let mut contracts: Vec<ContractWithAuxiliaries> = Vec::new();
    let mut contract_idx: usize = 0;
    while contract_idx < num_contracts
        invariant
            contract_idx <= num_contracts,
            contracts.len() == contract_idx,
            init_code_hash@ == keccak256_digest(init_code@),
            forall|i: int|
                0 <= i < contract_idx ==> is_mined_contract(
                    #[trigger] contracts@[i],
                    i,
                    deployer@,
                    keccak256_digest(init_code@),
                    target_depth as int,
                ),
            num_threads == 0 || max_rounds == 0 ==> forall|i: int|
                0 <= i < contract_idx ==> (#[trigger] contracts@[i]).auxiliary_accounts@.len() == 0,
        decreases num_contracts - contract_idx,
    {
        let salt: u32 = #[verifier::truncate]
        (contract_idx as u32);
        let contract_address = calculate_create2_address(&deployer, salt, &init_code_hash);
        let auxiliaries = mine_auxiliaries_for_contract(
            &contract_address,
            target_depth,
            num_threads,
            max_rounds,
        );
        let ghost before = contracts@;
        contracts.push(describe_contract(&deployer, salt, &init_code_hash, &auxiliaries));
        assert forall|i: int| 0 <= i < contract_idx + 1 implies is_mined_contract(
            #[trigger] contracts@[i],
            i,
            deployer@,
            keccak256_digest(init_code@),
            target_depth as int,
        ) by {
            if i < contract_idx {
                assert(contracts@[i] == before[i]);
            }
        }
        contract_idx += 1;
    }
    Create2MiningResult {
        deployer: prefixed_hex(deployer.as_slice()),
        init_code_hash: prefixed_hex(init_code_hash.as_slice()),
        target_depth,
        num_contracts,
        total_time: elapsed_since(&total_start),
        contracts,
    }
}

} // verus!
