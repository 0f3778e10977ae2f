//! Content hashing of raw log bytes, used to detect re-imports of
//! byte-identical files. The hash is 64-bit FNV-1a.

use vstd::prelude::*;

verus! {

/// FNV-1a 64-bit offset basis.
pub const FNV_OFFSET: u64 = 0xcbf29ce484222325;

/// FNV-1a 64-bit prime.
pub const FNV_PRIME: u64 = 0x100000001b3;

/// One FNV-1a round: fold a byte in, multiply modulo 2^64.
pub open spec fn spec_fnv1a_step(h: u64, b: u8) -> u64 {
    ((((h ^ (b as u64)) as int) * (FNV_PRIME as int)) % 0x10000000000000000) as u64
}

/// FNV-1a over a byte sequence, from a running state.
pub open spec fn spec_fnv1a_from(h: u64, bytes: Seq<u8>) -> u64
    decreases bytes.len(),
{
    if bytes.len() == 0 {
        h
    } else {
        spec_fnv1a_from(spec_fnv1a_step(h, bytes[0]), bytes.skip(1))
    }
}

/// The content hash of a byte sequence.
pub open spec fn spec_file_hash(bytes: Seq<u8>) -> u64 {
    spec_fnv1a_from(FNV_OFFSET, bytes)
}

/// Hash raw file bytes for duplicate detection.
pub fn file_hash(bytes: &[u8]) -> (h: u64)
    ensures
        h == spec_file_hash(bytes@),
{
    let n = bytes.len();
    let mut h: u64 = FNV_OFFSET;
    let mut i: usize = 0;
    proof {
        assert(bytes@.skip(0) =~= bytes@);
    }
    while i < n
        invariant
            0 <= i <= n,
            n == bytes@.len(),
            spec_file_hash(bytes@) == spec_fnv1a_from(h, bytes@.skip(i as int)),
        decreases n - i,
    {
        let ghost rest = bytes@.skip(i as int);
        let folded: u64 = h ^ (bytes[i] as u64);
        proof {
            assert((folded as int) * (FNV_PRIME as int) <= 0xffffffffffffffff * 0x100000001b3)
                by (nonlinear_arith)
                requires
                    folded <= 0xffffffffffffffff,
            ;
        }
        let wide: u128 = (folded as u128) * (FNV_PRIME as u128);
        let next: u64 = (wide % 0x10000000000000000) as u64;
        proof {
            assert(rest[0] == bytes@[i as int]);
            assert(next == spec_fnv1a_step(h, rest[0]));
            assert(rest.skip(1) =~= bytes@.skip(i + 1));
        }
        h = next;
        i = i + 1;
    }
    proof {
        assert(bytes@.skip(n as int) =~= Seq::<u8>::empty());
    }
    h
}

} // verus!
