//! The randomized search for a candidate whose derived key shares a prefix
//! with a target key.

use crate::derivation::{calculate_account_hash, calculate_storage_slot, direct_key, mapping_key};
use crate::prefix::{has_nibble_prefix, shares_nibble_prefix, KEY_NIBBLES};
use rand::Rng;
use vstd::prelude::*;

verus! {

/// Attempts a worker makes between two looks at whether the search is over.
pub const BATCH_SIZE: u64 = 1000;

/// How a candidate is turned into the key that is compared with the target.
#[derive(Clone, Copy, Debug)]
pub enum Derivation {
    /// The candidate is a key of a keyed mapping that lives at `slot`.
    Mapping { slot: u64 },
    /// The candidate is hashed as it is.
    Direct,
}

impl Derivation {
    /// The key this derivation gives `candidate`.
    pub open spec fn key_of(self, candidate: Seq<u8>) -> Seq<u8> {
        match self {
            Derivation::Mapping { slot } => mapping_key(candidate, slot),
            Derivation::Direct => direct_key(candidate),
        }
    }

    /// Computes the key of `candidate`.
    pub fn derive(&self, candidate: &[u8; 20]) -> (key: [u8; 32])
        ensures
            key@ == self.key_of(candidate@),
    {
        match self {
            Derivation::Mapping { slot } => calculate_storage_slot(candidate, *slot),
            Derivation::Direct => calculate_account_hash(candidate),
        }
    }
}

/// `candidate` is accepted for `target`: its derived key agrees with the
/// target on the first `nibbles` nibbles.
pub open spec fn is_match(
    derivation: Derivation,
    candidate: Seq<u8>,
    target: Seq<u8>,
    nibbles: int,
) -> bool {
    shares_nibble_prefix(derivation.key_of(candidate), target, nibbles)
}

/// Draws a 20-byte candidate from `rand::thread_rng()` with `Rng::fill`.
/// Nothing is claimed of the bytes drawn.
#[verifier::external_body]
pub(crate) fn random_address() -> (address: [u8; 20]) {
    let mut rng = rand::thread_rng();
    let mut address = [0u8; 20];
    rng.fill(&mut address);
    address
}

/// Derives the key of `candidate` and tests it against the target.
pub fn check_candidate(
    derivation: &Derivation,
    candidate: &[u8; 20],
    target: &[u8; 32],
    required_nibbles: usize,
) -> (accepted: bool)
    requires
        required_nibbles <= KEY_NIBBLES,
    ensures
        accepted == is_match(*derivation, candidate@, target@, required_nibbles as int),
{
    let key = derivation.derive(candidate);
    has_nibble_prefix(&key, target, required_nibbles)
}

/// One worker's run of at most `attempts` random candidates; the first one
/// accepted is returned and ends the run.
///
/// With no required nibbles the first candidate drawn is accepted, so any
/// positive number of attempts succeeds. Otherwise the outcome depends on the
/// candidates drawn, and a result is a match whenever there is one.
pub fn mine_worker(
    derivation: &Derivation,
    target: &[u8; 32],
    required_nibbles: usize,
    attempts: u64,
) -> (found: Option<[u8; 20]>)
    requires
        required_nibbles <= KEY_NIBBLES,
    ensures
        found is Some ==> is_match(*derivation, found.unwrap()@, target@, required_nibbles as int),
        attempts == 0 ==> found is None,
        attempts > 0 && required_nibbles == 0 ==> found is Some,
{
    let mut made: u64 = 0;
    while made < attempts
        invariant
            made <= attempts,
            required_nibbles <= KEY_NIBBLES,
            required_nibbles == 0 ==> made == 0,
        decreases attempts - made,
    {
        made += 1;
        let address = random_address();
        if check_candidate(derivation, &address, target, required_nibbles) {
            return Some(address);
        }
    }
    None
}

/// The search run without parallelism: in each of `rounds` rounds every one
/// of `workers` workers makes one batch of `BATCH_SIZE` attempts, and the
/// first accepted candidate is the result.
///
/// Without workers or without rounds there is no result. With both and no
/// required nibbles there always is one.
pub fn search_cpu(
    derivation: &Derivation,
    target: &[u8; 32],
    required_nibbles: usize,
    workers: usize,
    rounds: u64,
) -> (found: Option<[u8; 20]>)
    requires
        required_nibbles <= KEY_NIBBLES,
    ensures
        found is Some ==> is_match(*derivation, found.unwrap()@, target@, required_nibbles as int),
        workers == 0 || rounds == 0 ==> found is None,
        workers > 0 && rounds > 0 && required_nibbles == 0 ==> found is Some,
{
    let mut round: u64 = 0;
    while round < rounds
        invariant
            round <= rounds,
            required_nibbles <= KEY_NIBBLES,
            workers > 0 && required_nibbles == 0 ==> round == 0,
        decreases rounds - round,
    {
        let mut worker: usize = 0;
        while worker < workers
            invariant
                worker <= workers,
                rounds > 0,
                required_nibbles <= KEY_NIBBLES,
                required_nibbles == 0 ==> worker == 0,
            decreases workers - worker,
        {
            match mine_worker(derivation, target, required_nibbles, BATCH_SIZE) {
                Some(address) => {
                    return Some(address);
                },
                None => {},
            }
            worker += 1;
        }
        round += 1;
    }
    None
}

} // verus!
