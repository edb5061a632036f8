//! Prefix matching of 32-byte keys, counted in 4-bit nibbles.

use vstd::prelude::*;

verus! {

/// Number of nibbles in a 32-byte key.
pub const KEY_NIBBLES: usize = 64;

/// The `i`-th nibble of `key`: the high half of byte `i / 2` when `i` is even,
/// the low half when `i` is odd.
pub open spec fn nibble_at(key: Seq<u8>, i: int) -> int {
    if i % 2 == 0 {
        key[i / 2] as int / 16
    } else {
        key[i / 2] as int % 16
    }
}

/// `a` and `b` agree on their first `nibbles` nibbles.
pub open spec fn shares_nibble_prefix(a: Seq<u8>, b: Seq<u8>, nibbles: int) -> bool {
    forall|i: int| 0 <= i < nibbles ==> nibble_at(a, i) == nibble_at(b, i)
}

/// Number of bytes that hold the first `nibbles` nibbles of a key.
pub open spec fn prefix_bytes(nibbles: int) -> int {
    (nibbles + 1) / 2
}

/// The prefix relation restated byte by byte: the first `nibbles / 2` bytes are
/// equal, and for an odd count the next byte agrees in its high half.
pub proof fn lemma_prefix_by_bytes(a: Seq<u8>, b: Seq<u8>, nibbles: int)
    requires
        0 <= nibbles,
    ensures
        shares_nibble_prefix(a, b, nibbles) <==> {
            &&& forall|j: int| 0 <= j < nibbles / 2 ==> a[j] == b[j]
            &&& nibbles % 2 == 1 ==> a[nibbles / 2] as int / 16 == b[nibbles / 2] as int / 16
        },
{
    if shares_nibble_prefix(a, b, nibbles) {
        assert forall|j: int| 0 <= j < nibbles / 2 implies a[j] == b[j] by {
            assert(nibble_at(a, 2 * j) == nibble_at(b, 2 * j));
            assert(nibble_at(a, 2 * j + 1) == nibble_at(b, 2 * j + 1));
        }
        if nibbles % 2 == 1 {
            assert(nibble_at(a, nibbles - 1) == nibble_at(b, nibbles - 1));
        }
    }
}

/// Every key shares every prefix with itself.
pub proof fn lemma_prefix_reflexive(key: Seq<u8>, nibbles: int)
    ensures
        shares_nibble_prefix(key, key, nibbles),
{
}

/// Keys that share `longer` nibbles share every shorter prefix too; in
/// particular a match on `k + 1` nibbles is a match on `k`.
pub proof fn lemma_prefix_monotone(a: Seq<u8>, b: Seq<u8>, shorter: int, longer: int)
    requires
        shorter <= longer,
        shares_nibble_prefix(a, b, longer),
    ensures
        shares_nibble_prefix(a, b, shorter),
{
}

/// The relation reads only the first `prefix_bytes(nibbles)` bytes of each
/// key: changing any byte from that index on leaves the answer as it was.
pub proof fn lemma_prefix_local(
    a: Seq<u8>,
    b: Seq<u8>,
    a_changed: Seq<u8>,
    b_changed: Seq<u8>,
    nibbles: int,
)
    requires
        0 <= nibbles,
        forall|j: int| 0 <= j < prefix_bytes(nibbles) ==> a[j] == a_changed[j],
        forall|j: int| 0 <= j < prefix_bytes(nibbles) ==> b[j] == b_changed[j],
    ensures
        shares_nibble_prefix(a, b, nibbles) == shares_nibble_prefix(a_changed, b_changed, nibbles),
{
    assert forall|i: int| 0 <= i < nibbles implies nibble_at(a, i) == nibble_at(a_changed, i)
        && nibble_at(b, i) == nibble_at(b_changed, i) by {
        assert(0 <= i / 2 < prefix_bytes(nibbles));
    }
}

/// Two bytes agree under the mask `0xF0` exactly when their high nibbles agree.
proof fn lemma_high_nibble_mask(x: u8, y: u8)
    ensures
        ((x & 0xF0) == (y & 0xF0)) <==> (x as int / 16 == y as int / 16),
{
    assert(((x & 0xF0) == (y & 0xF0)) <==> (x / 16 == y / 16)) by (bit_vector);
}

/// Whether `a` and `b` agree on their first `nibbles` nibbles.
///
/// Zero nibbles always match. Otherwise `nibbles / 2` whole bytes are compared,
/// and for an odd count the high half of the byte after them.
pub fn has_nibble_prefix(a: &[u8; 32], b: &[u8; 32], nibbles: usize) -> (matched: bool)
    requires
        nibbles <= KEY_NIBBLES,
    ensures
        matched == shares_nibble_prefix(a@, b@, nibbles as int),
{
    proof {
        lemma_prefix_by_bytes(a@, b@, nibbles as int);
    }
    if nibbles == 0 {
        return true;
    }
    let full_bytes: usize = nibbles / 2;
    let has_half_byte: bool = nibbles % 2 == 1;
    let mut i: usize = 0;
    while i < full_bytes
        invariant
            i <= full_bytes <= 32,
            full_bytes == nibbles / 2,
            forall|j: int| 0 <= j < i ==> a@[j] == b@[j],
        decreases full_bytes - i,
    {
        if a[i] != b[i] {
            proof {
                lemma_prefix_by_bytes(a@, b@, nibbles as int);
            }
            return false;
        }
        i += 1;
    }
    if has_half_byte && full_bytes < 32 {
        let mask: u8 = 0xF0;
        proof {
            lemma_high_nibble_mask(a[full_bytes as int], b[full_bytes as int]);
        }
        if (a[full_bytes] & mask) != (b[full_bytes] & mask) {
            return false;
        }
    }
    true
}

} // verus!
