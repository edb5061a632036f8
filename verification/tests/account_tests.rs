use branch_miner::account_miner::{
    has_hash_prefix, mine_auxiliaries_for_contract, mine_create2_accounts, push_auxiliary,
};
use branch_miner::derivation::{calculate_account_hash, calculate_create2_address};
use branch_miner::hex_text::prefixed_hex;
use tiny_keccak::{Hasher, Keccak};

fn reference_keccak(data: &[u8]) -> [u8; 32] {
    let mut hasher = Keccak::v256();
    let mut output = [0u8; 32];
    hasher.update(data);
    hasher.finalize(&mut output);
    output
}

fn parse_address(text: &str) -> [u8; 20] {
    assert!(text.starts_with("0x"));
    let bytes = hex::decode(&text[2..]).unwrap();
    let mut out = [0u8; 20];
    out.copy_from_slice(&bytes);
    out
}

#[test]
fn prefixed_hex_writes_lower_case_digits_behind_marker() {
    assert_eq!(prefixed_hex(&[]), "0x");
    assert_eq!(prefixed_hex(&[0x00, 0x0f, 0xa0, 0xff, 0x12]), "0x000fa0ff12");
    assert_eq!(prefixed_hex(&[0xAB, 0xCD, 0xEF]), "0xabcdef");
}

#[test]
fn auxiliaries_share_growing_prefixes_with_the_contract_hash() {
    let contract = [0x21u8; 20];
    let anchor = calculate_account_hash(&contract);
    let auxiliaries = mine_auxiliaries_for_contract(&contract, 2, 2, 1000);
    assert_eq!(auxiliaries.len(), 2);
    let mut i: usize = 0;
    while i < auxiliaries.len() {
        let hash = calculate_account_hash(&auxiliaries[i]);
        assert!(has_hash_prefix(&hash, &anchor, i + 1));
        i += 1;
    }
}

#[test]
fn auxiliaries_without_budget_are_none() {
    let contract = [0x21u8; 20];
    assert!(mine_auxiliaries_for_contract(&contract, 3, 0, 10).is_empty());
    assert!(mine_auxiliaries_for_contract(&contract, 3, 2, 0).is_empty());
    assert!(mine_auxiliaries_for_contract(&contract, 0, 2, 10).is_empty());
}

#[test]
fn auxiliaries_stop_at_the_first_exhausted_search() {
    let contract = [0x99u8; 20];
    let auxiliaries = mine_auxiliaries_for_contract(&contract, 30, 1, 1);
    assert!(auxiliaries.len() < 30);
    let anchor = calculate_account_hash(&contract);
    let mut i: usize = 0;
    while i < auxiliaries.len() {
        assert!(has_hash_prefix(&calculate_account_hash(&auxiliaries[i]), &anchor, i + 1));
        i += 1;
    }
}

#[test]
fn create2_run_reports_addresses_and_auxiliaries_as_text() {
    let deployer = [0x4eu8; 20];
    let init_code: [u8; 3] = [0x60, 0x00, 0xf3];
    let result = mine_create2_accounts(deployer, 2, 1, 2, &init_code, 1000);
    let code_hash = reference_keccak(&init_code);
    assert_eq!(result.deployer, format!("0x{}", hex::encode(deployer)));
    assert_eq!(result.init_code_hash, format!("0x{}", hex::encode(code_hash)));
    assert_eq!(result.target_depth, 1);
    assert_eq!(result.num_contracts, 2);
    assert_eq!(result.contracts.len(), 2);
    let mut i: usize = 0;
    while i < 2 {
        let contract = &result.contracts[i];
        assert_eq!(contract.salt, i as u32);
        let address = calculate_create2_address(&deployer, i as u32, &code_hash);
        assert_eq!(contract.contract_address, format!("0x{}", hex::encode(address)));
        assert_eq!(contract.auxiliary_accounts.len(), 1);
        let auxiliary = parse_address(&contract.auxiliary_accounts[0]);
        assert!(has_hash_prefix(
            &calculate_account_hash(&auxiliary),
            &calculate_account_hash(&address),
            1
        ));
        i += 1;
    }
}

#[test]
fn create2_run_without_contracts_is_empty() {
    let result = mine_create2_accounts([0u8; 20], 0, 4, 2, &[], 10);
    assert_eq!(result.deployer, "0x0000000000000000000000000000000000000000");
    assert_eq!(
        result.init_code_hash,
        "0xc5d2460186f7233c927e7db2dcc703c0e500b653ca82273b7bfad8045d85a470"
    );
    assert!(result.contracts.is_empty());
}

#[test]
fn create2_run_without_workers_has_no_auxiliaries() {
    let result = mine_create2_accounts([0u8; 20], 1, 4, 0, &[], 10);
    assert_eq!(result.contracts.len(), 1);
    assert_eq!(result.contracts[0].salt, 0);
    assert_eq!(
        result.contracts[0].contract_address,
        "0xe33c0c7f7df4809055c3eba6c09cfe4baf1bd9e0"
    );
    assert!(result.contracts[0].auxiliary_accounts.is_empty());
}

fn account_sharing(anchor: &[u8; 32], nibbles: usize, wanted: bool) -> [u8; 20] {
    let mut account = [0x3cu8; 20];
    let mut counter: u64 = 0;
    loop {
        account[12..20].copy_from_slice(&counter.to_be_bytes());
        let hash = calculate_account_hash(&account);
        if has_hash_prefix(&hash, anchor, nibbles) == wanted {
            return account;
        }
        counter += 1;
    }
}

#[test]
fn push_auxiliary_admits_only_accounts_that_share_the_next_prefix() {
    let anchor = calculate_account_hash(&[0x21u8; 20]);
    let mut series: Vec<[u8; 20]> = Vec::new();
    let stray = account_sharing(&anchor, 1, false);
    assert!(!push_auxiliary(&mut series, &anchor, stray));
    assert!(series.is_empty());
    let first = account_sharing(&anchor, 1, true);
    assert!(push_auxiliary(&mut series, &anchor, first));
    assert_eq!(series, vec![first]);
    let one_nibble_only = {
        let mut account = [0x5du8; 20];
        let mut counter: u64 = 0;
        loop {
            account[12..20].copy_from_slice(&counter.to_be_bytes());
            let hash = calculate_account_hash(&account);
            if has_hash_prefix(&hash, &anchor, 1) && !has_hash_prefix(&hash, &anchor, 2) {
                break account;
            }
            counter += 1;
        }
    };
    assert!(!push_auxiliary(&mut series, &anchor, one_nibble_only));
    assert_eq!(series, vec![first]);
    let second = account_sharing(&anchor, 2, true);
    assert!(push_auxiliary(&mut series, &anchor, second));
    assert_eq!(series, vec![first, second]);
}
