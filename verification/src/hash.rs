//! A deterministic content hash of cache keys.
//!
//! The remote store keeps one record per cache key and enforces uniqueness
//! on a hash of the key, so the hash must be a pure function of the key's
//! characters — stable across processes and machines. The 64-bit FNV-1a
//! fold over the key's characters below is that function; distinct keys
//! with equal hashes are treated as the same logical entry by design.

use vstd::prelude::*;
use crate::text::dec_digits;
use crate::text::u64_to_string;

verus! {

pub open spec fn fnv_offset() -> u64 {
    0xcbf29ce484222325
}

pub open spec fn fnv_prime() -> u64 {
    0x100000001b3
}

/// The FNV-1a fold over a character sequence: each character's code point
/// is mixed in by xor, then the state is multiplied by the FNV prime with
/// wrapping.
pub open spec fn spec_hash(s: Seq<char>) -> u64
    decreases s.len(),
{
    if s.len() == 0 {
        fnv_offset()
    } else {
        vstd::wrapping::u64_specs::wrapping_mul(spec_hash(s.drop_last()) ^ (s.last() as u64), fnv_prime())
    }
}

/// The decimal rendering of the hash of a key, as the remote store holds it.
pub open spec fn spec_hash_string(s: Seq<char>) -> Seq<char> {
    dec_digits(spec_hash(s) as nat)
}

/// The hash of a cache key.
pub fn calculate_hash(key: &String) -> (h: u64)
    ensures
        h == spec_hash(key@),
{
    let n = key.as_str().unicode_len();
    let mut h: u64 = 0xcbf29ce484222325;
    let mut i: usize = 0;
    while i < n
        invariant
            i <= n,
            n == key@.len(),
            h == spec_hash(key@.take(i as int)),
        decreases n - i,
    {
        let c = key.as_str().get_char(i);
        h = (h ^ (c as u64)).wrapping_mul(0x100000001b3);
        i = i + 1;
        proof {
            assert(key@.take(i as int).drop_last() =~= key@.take(i - 1));
            assert(key@.take(i as int).last() == key@[i - 1]);
        }
    }
    proof {
        assert(key@.take(n as int) =~= key@);
    }
    h
}

/// The hash of a cache key, rendered in decimal for the store's unique
/// column.
pub fn hash_string(key: &String) -> (s: String)
    ensures
        s@ == spec_hash_string(key@),
{
    let h = calculate_hash(key);
    u64_to_string(h)
}

} // verus!
