use branch_miner::cuda_miner::{
    attempts_per_thread, cuda_available, max_iterations, mine_with_cuda, CudaSearch, KernelReport,
    DEFAULT_BLOCKS, DEFAULT_THREADS_PER_BLOCK,
};
use branch_miner::derivation::calculate_storage_slot;
use tiny_keccak::{Hasher, Keccak};

const GOOD: [u8; 20] = [0x42; 20];
const BAD: [u8; 20] = [0x17; 20];

fn miss() -> KernelReport {
    KernelReport { found: false, address: [0u8; 20], storage_key: [0u8; 32] }
}

fn claim(address: [u8; 20], storage_key: [u8; 32]) -> KernelReport {
    KernelReport { found: true, address, storage_key }
}

#[test]
fn attempts_per_thread_follows_the_table() {
    assert_eq!(attempts_per_thread(0), 1_000);
    assert_eq!(attempts_per_thread(3), 1_000);
    assert_eq!(attempts_per_thread(4), 10_000);
    assert_eq!(attempts_per_thread(5), 10_000);
    assert_eq!(attempts_per_thread(6), 100_000);
    assert_eq!(attempts_per_thread(7), 1_000_000);
    assert_eq!(attempts_per_thread(8), 10_000_000);
    assert_eq!(attempts_per_thread(9), 50_000_000);
    assert_eq!(attempts_per_thread(10), 100_000_000);
    assert_eq!(attempts_per_thread(11), 200_000_000);
    assert_eq!(attempts_per_thread(12), 500_000_000);
    assert_eq!(attempts_per_thread(13), 1_000_000_000);
    assert_eq!(attempts_per_thread(64), 1_000_000_000);
}

#[test]
fn max_iterations_follows_the_table() {
    assert_eq!(max_iterations(0), 1);
    assert_eq!(max_iterations(7), 1);
    assert_eq!(max_iterations(8), 5);
    assert_eq!(max_iterations(9), 20);
    assert_eq!(max_iterations(10), 50);
    assert_eq!(max_iterations(11), 100);
    assert_eq!(max_iterations(12), 500);
    assert_eq!(max_iterations(13), 2000);
    assert_eq!(max_iterations(64), 2000);
}

#[test]
fn library_reports_no_device() {
    assert!(!cuda_available());
}

#[test]
fn launches_cover_successive_nonce_ranges() {
    let target = [0u8; 32];
    let mut search =
        CudaSearch::new(target, 8, 0, DEFAULT_BLOCKS, DEFAULT_THREADS_PER_BLOCK).unwrap();
    let per_launch: u64 = 256 * 256 * 10_000_000;
    let mut launch_index: u64 = 0;
    while launch_index < 5 {
        let launch = search.next_launch().unwrap();
        assert_eq!(launch.blocks, 256);
        assert_eq!(launch.threads_per_block, 256);
        assert_eq!(launch.attempts_per_thread, 10_000_000);
        assert_eq!(launch.start_nonce, launch_index * per_launch);
        assert!(search.accept_report(&miss()).is_none());
        launch_index += 1;
        assert_eq!(search.iteration, launch_index);
    }
    assert!(search.next_launch().is_none());
}

#[test]
fn search_refuses_geometry_whose_nonces_overflow() {
    assert!(CudaSearch::new([0u8; 32], 13, 0, u32::MAX, u32::MAX).is_none());
    assert!(CudaSearch::new([0u8; 32], 13, 0, 3000, 3000).is_some());
    assert!(CudaSearch::new([0u8; 32], 13, 0, 4000, 4000).is_none());
    assert!(CudaSearch::new([0u8; 32], 0, 0, u32::MAX, u32::MAX).is_none());
    assert!(CudaSearch::new([0u8; 32], 0, 0, 100_000_000, 100_000_000).is_some());
}

#[test]
fn verified_report_returns_host_key() {
    let target = calculate_storage_slot(&GOOD, 3);
    let mut search = CudaSearch::new(target, 64, 3, 4, 4).unwrap();
    let verified = search.accept_report(&claim(GOOD, [0xee; 32]));
    assert_eq!(verified, Some((GOOD, target)));
    assert_eq!(search.iteration, 1);
}

#[test]
fn false_positive_is_discarded_by_the_search() {
    let target = calculate_storage_slot(&GOOD, 0);
    let mut search = CudaSearch::new(target, 16, 0, 4, 4).unwrap();
    assert_eq!(search.accept_report(&claim(BAD, target)), None);
    assert_eq!(search.iteration, 1);
    assert!(search.next_launch().is_some());
}

#[test]
fn forced_divergence_is_discarded_and_real_match_returned() {
    let target = calculate_storage_slot(&GOOD, 0);
    let reports = vec![claim(BAD, target), miss(), claim(GOOD, [0u8; 32]), claim(BAD, target)];
    let mined = mine_with_cuda(&target, 8, 0, &reports);
    assert_eq!(mined, Some((GOOD, target)));
}

#[test]
fn match_beyond_the_launch_budget_is_not_used() {
    let target = calculate_storage_slot(&GOOD, 0);
    let reports = vec![claim(BAD, target), claim(GOOD, target)];
    assert_eq!(mine_with_cuda(&target, 4, 0, &reports), None);
    assert_eq!(mine_with_cuda(&target, 8, 0, &reports), Some((GOOD, target)));
}

#[test]
fn exhausted_budget_gives_no_result() {
    let target = calculate_storage_slot(&GOOD, 0);
    let mut reports: Vec<KernelReport> = Vec::new();
    let mut i: usize = 0;
    while i < 5 {
        reports.push(if i % 2 == 0 { miss() } else { claim(BAD, target) });
        i += 1;
    }
    reports.push(claim(GOOD, target));
    assert_eq!(mine_with_cuda(&target, 8, 0, &reports), None);
    assert_eq!(mine_with_cuda(&target, 9, 0, &reports), Some((GOOD, target)));
    assert_eq!(mine_with_cuda(&target, 9, 0, &Vec::new()), None);
}

#[test]
fn first_verified_report_wins() {
    let target = calculate_storage_slot(&GOOD, 5);
    let mut partial = GOOD;
    let mut counter: u32 = 0;
    loop {
        partial[16..20].copy_from_slice(&counter.to_be_bytes());
        let key = calculate_storage_slot(&partial, 5);
        if key[0] == target[0] && partial != GOOD {
            break;
        }
        counter += 1;
    }
    let partial_key = calculate_storage_slot(&partial, 5);
    let reports = vec![claim(partial, partial_key), claim(GOOD, target)];
    assert_eq!(mine_with_cuda(&target, 2, 5, &reports), Some((partial, partial_key)));
    let reports = vec![claim(partial, partial_key), claim(GOOD, target)];
    assert_eq!(mine_with_cuda(&target, 64, 5, &reports), Some((GOOD, target)));
}

/// Stands in for the device's hash routine: the same digest computed on the
/// host, independently of the library.
fn verify_cuda_keccak(address: &[u8; 20], base_slot: u64) -> [u8; 32] {
    let mut preimage = [0u8; 64];
    preimage[12..32].copy_from_slice(address);
    preimage[56..64].copy_from_slice(&base_slot.to_be_bytes());
    let mut hasher = Keccak::v256();
    let mut result = [0u8; 32];
    hasher.update(&preimage);
    hasher.finalize(&mut result);
    result
}

/// Stands in for the device's generator: an address spread out from `seed`,
/// with the key the device routine gives it.
fn debug_cuda_prng(seed: u64, base_slot: u64) -> ([u8; 20], [u8; 32]) {
    let mut state: u64 = seed ^ 0x9e37_79b9_7f4a_7c15;
    let mut address = [0u8; 20];
    for byte in address.iter_mut() {
        state ^= state << 13;
        state ^= state >> 7;
        state ^= state << 17;
        *byte = (state >> 24) as u8;
    }
    let storage_key = verify_cuda_keccak(&address, base_slot);
    (address, storage_key)
}

#[test]
fn test_cuda_keccak_matches_cpu() {
    let test_addr: [u8; 20] = [
        0x12, 0x34, 0x56, 0x78, 0x9a, 0xbc, 0xde, 0xf0, 0x11, 0x22, 0x33, 0x44, 0x55, 0x66, 0x77,
        0x88, 0x99, 0xaa, 0xbb, 0xcc,
    ];

    let cpu_result = calculate_storage_slot(&test_addr, 0);
    let cuda_result = verify_cuda_keccak(&test_addr, 0);

    assert_eq!(
        cpu_result,
        cuda_result,
        "CUDA keccak mismatch!\nCPU:  0x{}\nCUDA: 0x{}",
        hex::encode(&cpu_result),
        hex::encode(&cuda_result)
    );
}

#[test]
fn test_cuda_prng_produces_valid_keys() {
    for seed in [0u64, 1, 12345, 999999, u64::MAX - 1] {
        let (prng_addr, cuda_key) = debug_cuda_prng(seed, 0);
        let cpu_key = calculate_storage_slot(&prng_addr, 0);

        assert_eq!(
            cuda_key,
            cpu_key,
            "CUDA PRNG key mismatch for seed {}!\nAddress: 0x{}\nCUDA key: 0x{}\nCPU key:  0x{}",
            seed,
            hex::encode(&prng_addr),
            hex::encode(&cuda_key),
            hex::encode(&cpu_key)
        );
    }
}

#[test]
fn test_cuda_keccak_different_slots() {
    let test_addr: [u8; 20] = [0xaa; 20];

    for slot in [0u64, 1, 2, 100, u64::MAX] {
        let cpu_result = calculate_storage_slot(&test_addr, slot);
        let cuda_result = verify_cuda_keccak(&test_addr, slot);

        assert_eq!(
            cpu_result,
            cuda_result,
            "CUDA keccak mismatch for slot {}!\nCPU:  0x{}\nCUDA: 0x{}",
            slot,
            hex::encode(&cpu_result),
            hex::encode(&cuda_result)
        );
    }
}
