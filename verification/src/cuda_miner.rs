//! The host side of the device-accelerated search: how much work each kernel
//! launch gets, which nonces it covers, and the check every reported match
//! has to pass on the host before it is believed.
//!
//! Launching a kernel is the caller's business. The caller asks
//! [`CudaSearch::next_launch`] what to launch, runs it, and hands the outcome
//! to [`CudaSearch::accept_report`].

use crate::derivation::{calculate_storage_slot, mapping_key};
use crate::prefix::{has_nibble_prefix, shares_nibble_prefix, KEY_NIBBLES};
use vstd::prelude::*;

verus! {

/// Blocks per launch that keep contention on the device's found flag low.
pub const DEFAULT_BLOCKS: u32 = 256;

/// Threads per block that go with `DEFAULT_BLOCKS`.
pub const DEFAULT_THREADS_PER_BLOCK: u32 = 256;

/// Attempts each device thread makes in one launch, by required nibbles.
pub open spec fn attempts_for(nibbles: int) -> int {
    if nibbles <= 3 {
        1_000
    } else if nibbles <= 5 {
        10_000
    } else if nibbles == 6 {
        100_000
    } else if nibbles == 7 {
        1_000_000
    } else if nibbles == 8 {
        10_000_000
    } else if nibbles == 9 {
        50_000_000
    } else if nibbles == 10 {
        100_000_000
    } else if nibbles == 11 {
        200_000_000
    } else if nibbles == 12 {
        500_000_000
    } else {
        1_000_000_000
    }
}

/// Launches made before the search gives up, by required nibbles.
pub open spec fn launches_for(nibbles: int) -> int {
    if nibbles <= 7 {
        1
    } else if nibbles == 8 {
        5
    } else if nibbles == 9 {
        20
    } else if nibbles == 10 {
        50
    } else if nibbles == 11 {
        100
    } else if nibbles == 12 {
        500
    } else {
        2000
    }
}

/// Attempts one launch makes over all its threads.
pub open spec fn attempts_per_launch(blocks: u32, threads_per_block: u32, nibbles: int) -> int {
    blocks as int * threads_per_block as int * attempts_for(nibbles)
}

/// The nonces of every launch in the budget fit in 64 bits.
pub open spec fn geometry_fits(blocks: u32, threads_per_block: u32, nibbles: int) -> bool {
    attempts_per_launch(blocks, threads_per_block, nibbles) * launches_for(nibbles) <= u64::MAX
}

/// First nonce of the launch with index `launch`.
pub open spec fn start_nonce_of(
    blocks: u32,
    threads_per_block: u32,
    nibbles: int,
    launch: int,
) -> int {
    launch * attempts_per_launch(blocks, threads_per_block, nibbles)
}

/// Launches never look at a nonce twice: the range of an earlier launch ends
/// where the range of any later one begins, or before.
pub proof fn lemma_nonce_ranges_disjoint(
    blocks: u32,
    threads_per_block: u32,
    nibbles: int,
    earlier: int,
    later: int,
)
    requires
        0 <= earlier < later,
    ensures
        start_nonce_of(blocks, threads_per_block, nibbles, earlier) + attempts_per_launch(
            blocks,
            threads_per_block,
            nibbles,
        ) <= start_nonce_of(blocks, threads_per_block, nibbles, later),
{
    let per_launch = attempts_per_launch(blocks, threads_per_block, nibbles);
    assert(0 <= per_launch) by (nonlinear_arith)
        requires
            per_launch == blocks as int * threads_per_block as int * attempts_for(nibbles),
            0 <= attempts_for(nibbles),
    ;
    assert((earlier + 1) * per_launch <= later * per_launch) by (nonlinear_arith)
        requires
            earlier + 1 <= later,
            0 <= per_launch,
    ;
    assert((earlier + 1) * per_launch == earlier * per_launch + per_launch) by (nonlinear_arith);
}

/// Attempts each device thread makes in one launch.
pub fn attempts_per_thread(required_nibbles: usize) -> (attempts: u64)
    ensures
        attempts == attempts_for(required_nibbles as int),
{
    if required_nibbles <= 3 {
        1_000
    } else if required_nibbles <= 5 {
        10_000
    } else if required_nibbles == 6 {
        100_000
    } else if required_nibbles == 7 {
        1_000_000
    } else if required_nibbles == 8 {
        10_000_000
    } else if required_nibbles == 9 {
        50_000_000
    } else if required_nibbles == 10 {
        100_000_000
    } else if required_nibbles == 11 {
        200_000_000
    } else if required_nibbles == 12 {
        500_000_000
    } else {
        1_000_000_000
    }
}

/// Launches made before the search gives up.
pub fn max_iterations(required_nibbles: usize) -> (launches: u64)
    ensures
        launches == launches_for(required_nibbles as int),
{
    if required_nibbles <= 7 {
        1
    } else if required_nibbles == 8 {
        5
    } else if required_nibbles == 9 {
        20
    } else if required_nibbles == 10 {
        50
    } else if required_nibbles == 11 {
        100
    } else if required_nibbles == 12 {
        500
    } else {
        2000
    }
}

/// What one kernel launch is started with.
#[derive(Clone, Copy, Debug)]
pub struct KernelLaunch {
    pub blocks: u32,
    pub threads_per_block: u32,
    pub attempts_per_thread: u64,
    pub start_nonce: u64,
}

/// What one kernel launch reports back: whether a thread claims a match, and
/// the candidate and key it claims it for.
#[derive(Clone, Copy, Debug)]
pub struct KernelReport {
    pub found: bool,
    pub address: [u8; 20],
    pub storage_key: [u8; 32],
}

/// The report claims a match and the host agrees: the key that the host
/// derives for the reported candidate shares the required prefix.
pub open spec fn host_verified(
    report: KernelReport,
    target: Seq<u8>,
    nibbles: int,
    base_slot: u64,
) -> bool {
    report.found && shares_nibble_prefix(mapping_key(report.address@, base_slot), target, nibbles)
}

/// A device search in progress.
#[derive(Clone, Copy, Debug)]
pub struct CudaSearch {
    pub target_prefix: [u8; 32],
    pub required_nibbles: usize,
    pub base_slot: u64,
    pub blocks: u32,
    pub threads_per_block: u32,
    /// Launches whose report has been taken in.
    pub iteration: u64,
}

impl CudaSearch {
    /// The search asks for a valid prefix, its nonces fit, and it has not
    /// gone past its budget.
    pub open spec fn well_formed(self) -> bool {
        &&& self.required_nibbles <= KEY_NIBBLES
        &&& geometry_fits(self.blocks, self.threads_per_block, self.required_nibbles as int)
        &&& self.iteration <= launches_for(self.required_nibbles as int)
    }

    /// Every launch of the budget has reported.
    pub open spec fn exhausted(self) -> bool {
        self.iteration >= launches_for(self.required_nibbles as int)
    }

    /// A search that has launched nothing yet, or `None` where the nonces of
    /// the whole budget would not fit in 64 bits.
    pub fn new(
        target_prefix: [u8; 32],
        required_nibbles: usize,
        base_slot: u64,
        blocks: u32,
        threads_per_block: u32,
    ) -> (search: Option<CudaSearch>)
        requires
            required_nibbles <= KEY_NIBBLES,
        ensures
            search is Some <==> geometry_fits(blocks, threads_per_block, required_nibbles as int),
            search is Some ==> search.unwrap() == (CudaSearch {
                target_prefix,
                required_nibbles,
                base_slot,
                blocks,
                threads_per_block,
                iteration: 0,
            }),
            search is Some ==> search.unwrap().well_formed(),
    {
        let attempts = attempts_per_thread(required_nibbles);
        let launches = max_iterations(required_nibbles);
        assert(blocks as int * threads_per_block as int <= 0xffff_ffff * 0xffff_ffff)
            by (nonlinear_arith)
            requires
                blocks <= 0xffff_ffff,
                threads_per_block <= 0xffff_ffff,
        ;
        let threads: u128 = blocks as u128 * threads_per_block as u128;
        assert(threads * attempts as int <= 0xffff_ffff * 0xffff_ffff * 1_000_000_000)
            by (nonlinear_arith)
            requires
                threads <= 0xffff_ffff * 0xffff_ffff,
                0 <= attempts <= 1_000_000_000,
        ;
        let per_launch: u128 = threads * attempts as u128;
        assert(per_launch * launches as int <= 0xffff_ffff * 0xffff_ffff * 1_000_000_000 * 2000)
            by (nonlinear_arith)
            requires
                0 <= per_launch <= 0xffff_ffff * 0xffff_ffff * 1_000_000_000,
                0 <= launches <= 2000,
        ;
        let total: u128 = per_launch * launches as u128;
        if total <= u64::MAX as u128 {
            Some(
                CudaSearch {
                    target_prefix,
                    required_nibbles,
                    base_slot,
                    blocks,
                    threads_per_block,
                    iteration: 0,
                },
            )
        } else {
            None
        }
    }

    /// The launch to make next, or `None` when the budget is spent.
    ///
    /// Launch `i` starts at nonce `i` times the attempts of one launch, so
    /// successive launches cover successive, disjoint ranges.
    pub fn next_launch(&self) -> (launch: Option<KernelLaunch>)
        requires
            self.well_formed(),
        ensures
            launch is None <==> self.exhausted(),
            launch is Some ==> {
                let planned = launch.unwrap();
                &&& planned.blocks == self.blocks
                &&& planned.threads_per_block == self.threads_per_block
                &&& planned.attempts_per_thread == attempts_for(self.required_nibbles as int)
                &&& planned.start_nonce == start_nonce_of(
                    self.blocks,
                    self.threads_per_block,
                    self.required_nibbles as int,
                    self.iteration as int,
                )
            },
    {
        let attempts = attempts_per_thread(self.required_nibbles);
        let launches = max_iterations(self.required_nibbles);
        if self.iteration >= launches {
            return None;
        }
        let ghost per_launch = attempts_per_launch(
            self.blocks,
            self.threads_per_block,
            self.required_nibbles as int,
        );
        proof {
            let threads = self.blocks as int * self.threads_per_block as int;
            assert(0 <= threads) by (nonlinear_arith)
                requires
                    threads == self.blocks as int * self.threads_per_block as int,
            ;
            assert(0 <= per_launch) by (nonlinear_arith)
                requires
                    per_launch == threads * attempts as int,
                    0 <= threads,
            ;
            assert(threads <= per_launch) by (nonlinear_arith)
                requires
                    per_launch == threads * attempts as int,
                    0 <= threads,
                    1 <= attempts,
            ;
            assert(per_launch <= per_launch * launches as int) by (nonlinear_arith)
                requires
                    0 <= per_launch,
                    1 <= launches,
            ;
            assert(self.iteration as int * per_launch <= per_launch * launches as int)
                by (nonlinear_arith)
                requires
                    0 <= per_launch,
                    0 <= self.iteration <= launches,
            ;
        }
        let threads: u64 = self.blocks as u64 * self.threads_per_block as u64;
        let attempts_per_iteration: u64 = threads * attempts;
        let start_nonce: u64 = self.iteration * attempts_per_iteration;
        Some(
            KernelLaunch {
                blocks: self.blocks,
                threads_per_block: self.threads_per_block,
                attempts_per_thread: attempts,
                start_nonce,
            },
        )
    }

    /// Takes in the report of the launch just made and checks it on the host.
    ///
    /// A claimed match is returned only if the key that the host derives for
    /// the reported candidate shares the required prefix with the target; the
    /// key returned is the host's. Any other report gives `None`, and the
    /// search goes on with the next launch.
    pub fn accept_report(&mut self, report: &KernelReport) -> (verified: Option<([u8; 20], [u8; 32])>)
        requires
            old(self).well_formed(),
            !old(self).exhausted(),
        ensures
            final(self).well_formed(),
            *final(self) == (CudaSearch { iteration: (old(self).iteration + 1) as u64, ..*old(self) }),
            verified is Some <==> host_verified(
                *report,
                old(self).target_prefix@,
                old(self).required_nibbles as int,
                old(self).base_slot,
            ),
            verified is Some ==> verified.unwrap().0 == report.address,
            verified is Some ==> verified.unwrap().1@ == mapping_key(
                report.address@,
                old(self).base_slot,
            ),
    {
        self.iteration = self.iteration + 1;
        if !report.found {
            return None;
        }
        let cpu_storage_key = calculate_storage_slot(&report.address, self.base_slot);
        if has_nibble_prefix(&cpu_storage_key, &self.target_prefix, self.required_nibbles) {
            Some((report.address, cpu_storage_key))
        } else {
            None
        }
    }
}

/// Index of the first report, among the first `budget`, that the host
/// verifies; `budget` when there is none.
pub open spec fn first_verified(
    reports: Seq<KernelReport>,
    target: Seq<u8>,
    nibbles: int,
    base_slot: u64,
    budget: int,
) -> int
    decreases budget,
{
    if budget <= 0 {
        0
    } else {
        let before = first_verified(reports, target, nibbles, base_slot, budget - 1);
        if before < budget - 1 {
            before
        } else if host_verified(reports[budget - 1], target, nibbles, base_slot) {
            budget - 1
        } else {
            budget
        }
    }
}

/// Launches that count when `reports` are replayed: as many as were made,
/// and no more than the budget for `nibbles`.
pub open spec fn launches_replayed(reports: Seq<KernelReport>, nibbles: int) -> int {
    if reports.len() <= launches_for(nibbles) {
        reports.len() as int
    } else {
        launches_for(nibbles)
    }
}

/// What `first_verified` returns is the least index whose report the host
/// verifies, if any is below `budget`.
pub proof fn lemma_first_verified(
    reports: Seq<KernelReport>,
    target: Seq<u8>,
    nibbles: int,
    base_slot: u64,
    budget: int,
)
    requires
        0 <= budget,
    ensures
        ({
            let first = first_verified(reports, target, nibbles, base_slot, budget);
            &&& 0 <= first <= budget
            &&& forall|i: int| 0 <= i < first ==> !host_verified(reports[i], target, nibbles, base_slot)
            &&& first < budget ==> host_verified(reports[first], target, nibbles, base_slot)
        }),
    decreases budget,
{
    if budget > 0 {
        lemma_first_verified(reports, target, nibbles, base_slot, budget - 1);
    }
}

/// The device search with the default launch geometry, run over the reports
/// that the device gave, one per launch in the order of the launches.
///
/// The result is the candidate of the first report that the host verifies,
/// with the key the host derived for it. Reports that claim a match the host
/// cannot confirm are passed over, and reports beyond the launch budget for
/// `required_nibbles` are never looked at. Without a verified report there
/// is no result.
pub fn mine_with_cuda(
    target_prefix: &[u8; 32],
    required_nibbles: usize,
    base_slot: u64,
    reports: &Vec<KernelReport>,
) -> (mined: Option<([u8; 20], [u8; 32])>)
    requires
        required_nibbles <= KEY_NIBBLES,
    ensures
        ({
            let budget = launches_replayed(reports@, required_nibbles as int);
            let first = first_verified(
                reports@,
                target_prefix@,
                required_nibbles as int,
                base_slot,
                budget,
            );
            &&& mined is Some <==> first < budget
            &&& mined is Some ==> mined.unwrap().0 == reports@[first].address
            &&& mined is Some ==> mined.unwrap().1@ == mapping_key(mined.unwrap().0@, base_slot)
        }),
{
    let ghost budget = launches_replayed(reports@, required_nibbles as int);
    let created = CudaSearch::new(
        *target_prefix,
        required_nibbles,
        base_slot,
        DEFAULT_BLOCKS,
        DEFAULT_THREADS_PER_BLOCK,
    );
    assert(geometry_fits(DEFAULT_BLOCKS, DEFAULT_THREADS_PER_BLOCK, required_nibbles as int))
        by (nonlinear_arith)
        requires
            attempts_for(required_nibbles as int) <= 1_000_000_000,
            launches_for(required_nibbles as int) <= 2000,
            0 <= attempts_for(required_nibbles as int),
            0 <= launches_for(required_nibbles as int),
    ;
    let mut search = created.unwrap();
    let mut index: usize = 0;
    while index < reports.len()
        invariant
            index <= reports.len(),
            index == search.iteration,
            index <= budget,
            budget == launches_replayed(reports@, required_nibbles as int),
            search.well_formed(),
            search.target_prefix == *target_prefix,
            search.required_nibbles == required_nibbles,
            search.base_slot == base_slot,
            first_verified(reports@, target_prefix@, required_nibbles as int, base_slot, index as int)
                == index,
        ensures
            index == budget,
        decreases reports.len() - index,
    {
        match search.next_launch() {
            None => {
                break ;
            },
            Some(_) => {},
        }
        let verified = search.accept_report(&reports[index]);
        if verified.is_some() {
            proof {
                lemma_first_verified_extends(
                    reports@,
                    target_prefix@,
                    required_nibbles as int,
                    base_slot,
                    index as int + 1,
                    budget,
                );
            }
            return verified;
        }
        index += 1;
    }
    None
}

/// Once a verified report is found within a shorter budget, a longer budget
/// finds the same one.
pub proof fn lemma_first_verified_extends(
    reports: Seq<KernelReport>,
    target: Seq<u8>,
    nibbles: int,
    base_slot: u64,
    shorter: int,
    longer: int,
)
    requires
        0 <= shorter <= longer,
        first_verified(reports, target, nibbles, base_slot, shorter) < shorter,
    ensures
        first_verified(reports, target, nibbles, base_slot, longer) == first_verified(
            reports,
            target,
            nibbles,
            base_slot,
            shorter,
        ),
    decreases longer - shorter,
{
    if shorter < longer {
        lemma_first_verified_extends(reports, target, nibbles, base_slot, shorter, longer - 1);
    }
}

/// Whether this library can reach a device. It links no device runtime, so
/// it cannot; a host program that can launch kernels knows so itself.
pub fn cuda_available() -> (available: bool)
    ensures
        !available,
{
    false
}

} // verus!
