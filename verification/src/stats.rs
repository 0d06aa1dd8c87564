//! Stream usage statistics and their display normalization.

use vstd::prelude::*;

verus! {

/// Number of bytes in one mebibyte.
pub const MIB: u64 = 1048576;

/// Raw usage counters for a stream. `storage_size` and `compressed_size` are
/// byte counts as accumulated by ingestion; [`transform_stats`] converts them
/// to hundredths of a mebibyte for display.
#[derive(Debug, Clone, Copy, PartialEq, Eq, Structural)]
pub struct StreamStats {
    pub doc_time_min: i64,
    pub doc_time_max: i64,
    pub doc_num: u64,
    pub file_num: u64,
    pub storage_size: u64,
    pub compressed_size: u64,
}

impl StreamStats {
    /// The all-zero statistics value: the store's convention for "no usage yet".
    pub open spec fn spec_default() -> StreamStats {
        StreamStats {
            doc_time_min: 0,
            doc_time_max: 0,
            doc_num: 0,
            file_num: 0,
            storage_size: 0,
            compressed_size: 0,
        }
    }
}

impl Default for StreamStats {
    fn default() -> (r: StreamStats)
        ensures
            r == StreamStats::spec_default(),
    {
        StreamStats {
            doc_time_min: 0,
            doc_time_max: 0,
            doc_num: 0,
            file_num: 0,
            storage_size: 0,
            compressed_size: 0,
        }
    }
}

/// A byte count converted to hundredths of a mebibyte, rounded to the nearest
/// hundredth with ties away from zero.
pub open spec fn mib_hundredths(bytes: nat) -> nat {
    (bytes * 100 + (MIB as nat) / 2) / (MIB as nat)
}

/// The statistics value with both sizes normalized and every other counter kept.
pub open spec fn spec_normalized(s: StreamStats) -> StreamStats {
    StreamStats {
        storage_size: mib_hundredths(s.storage_size as nat) as u64,
        compressed_size: mib_hundredths(s.compressed_size as nat) as u64,
        ..s
    }
}

/// The normalized size never exceeds the byte count it came from, so it fits
/// back into the same field.
proof fn lemma_mib_hundredths_le(bytes: nat)
    ensures
        mib_hundredths(bytes) <= bytes,
{
    if bytes == 0 {
        assert(mib_hundredths(0) == 0nat);
    } else {
        assert(bytes * 100 + 524288 <= bytes * 1048576) by (nonlinear_arith)
            requires
                bytes >= 1,
        ;
        assert((bytes * 100 + 524288) / 1048576 <= (bytes * 1048576) / 1048576) by {
            vstd::arithmetic::div_mod::lemma_div_is_ordered(
                (bytes * 100 + 524288) as int,
                (bytes * 1048576) as int,
                1048576,
            );
        }
        assert((bytes * 1048576) / 1048576 == bytes) by (nonlinear_arith);
    }
}

/// Normalization is idempotent on the all-default statistics value: zero bytes
/// normalize to zero, and normalizing again changes nothing.
pub proof fn lemma_normalize_default_idempotent()
    ensures
        spec_normalized(spec_normalized(StreamStats::spec_default())) == spec_normalized(
            StreamStats::spec_default(),
        ),
        spec_normalized(StreamStats::spec_default()) == StreamStats::spec_default(),
{
    assert(mib_hundredths(0) == 0) by {
        assert((0 * 100 + 524288nat) / 1048576nat == 0);
    }
}

/// Converts `storage_size` and `compressed_size` from bytes to hundredths of a
/// mebibyte, rounding to the nearest hundredth with ties away from zero; row
/// counts and time bounds are untouched. Returns a copy of the updated value.
pub fn transform_stats(stats: &mut StreamStats) -> (r: StreamStats)
    ensures
        *final(stats) == spec_normalized(*old(stats)),
        r == *final(stats),
{
    proof {
        lemma_mib_hundredths_le(old(stats).storage_size as nat);
        lemma_mib_hundredths_le(old(stats).compressed_size as nat);
    }
    let storage: u128 = ((stats.storage_size as u128) * 100 + 524288) / 1048576;
    let compressed: u128 = ((stats.compressed_size as u128) * 100 + 524288) / 1048576;
    stats.storage_size = storage as u64;
    stats.compressed_size = compressed as u64;
    *stats
}

} // verus!
