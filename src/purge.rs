//! Which historical per-era records to delete at a given block height.
//!
//! The eras before the activation era are deleted in batches, one batch per
//! block height since the activation block, so that the clean-up is spread
//! over many blocks.

use crate::key::{EraId, Key};
use core::ops::Range;
use vstd::prelude::*;

verus! {

/// The smaller of two integers.
pub open spec fn min_int(a: int, b: int) -> int {
    if a <= b {
        a
    } else {
        b
    }
}

/// The bounds `(start, end)` of chunk `index` when `[0, n)` is cut into chunks
/// of `m`, or `None` when `index * m + m` does not fit in 64 bits.
pub open spec fn chunk_bounds(n: u64, m: u64, index: u64) -> Option<(int, int)> {
    if index * m > u64::MAX || index * m + m > u64::MAX {
        None
    } else {
        Some((index * m, min_int(index * m + m, n as int)))
    }
}

/// The era-info keys of the eras in `[start, end)`, in increasing order.
pub open spec fn era_info_keys(start: int, end: int) -> Seq<Key> {
    Seq::new((end - start) as nat, |i: int| Key::EraInfo(EraId((start + i) as u64)))
}

/// The keys to purge at `current_height`: the batch numbered by the distance
/// from the activation height, or `None` when there is nothing to purge.
pub open spec fn purge_eras(
    activation_era_id: EraId,
    activation_height: u64,
    current_height: u64,
    batch_size: u64,
) -> Option<Seq<Key>> {
    if batch_size == 0 || current_height < activation_height {
        None
    } else {
        match chunk_bounds(
            activation_era_id.0,
            batch_size,
            (current_height - activation_height) as u64,
        ) {
            None => None,
            Some(bounds) => if bounds.0 < bounds.1 {
                Some(era_info_keys(bounds.0, bounds.1))
            } else {
                None
            },
        }
    }
}

/// Chunk `index` of `[0, n)` cut into chunks of `m`; `None` where its start or
/// the start of the next chunk overflows. The range is empty, or reversed,
/// where the chunk lies past `n`.
pub fn generate_range_by_index(n: u64, m: u64, index: u64) -> (r: Option<Range<u64>>)
    ensures
        match r {
            Some(range) => chunk_bounds(n, m, index) == Some((range.start as int, range.end as int)),
            None => chunk_bounds(n, m, index) is None,
        },
{
    let start = match index.checked_mul(m) {
        Some(start) => start,
        None => return None,
    };
    let next = match start.checked_add(m) {
        Some(next) => next,
        None => return None,
    };
    let end = if next <= n {
        next
    } else {
        n
    };
    Some(start..end)
}

/// Calculates the era keys to be purged at `current_height`.
///
/// `Some(keys)` holds the era-info keys of the current batch; `None` means
/// there is nothing to do: the batch size is zero, the current height lies
/// before the activation height, every batch is done, or the batch lies
/// beyond what 64 bits can count.
pub fn calculate_purge_eras(
    activation_era_id: EraId,
    activation_height: u64,
    current_height: u64,
    batch_size: u64,
) -> (r: Option<Vec<Key>>)
    ensures
        match r {
            Some(keys) => purge_eras(activation_era_id, activation_height, current_height, batch_size)
                == Some(keys@),
            None => purge_eras(activation_era_id, activation_height, current_height, batch_size)
                is None,
        },
{
    if batch_size == 0 {
        return None;
    }
    let nth_chunk: u64 = match current_height.checked_sub(activation_height) {
        Some(nth_chunk) => nth_chunk,
        None => return None,
    };
    let range = match generate_range_by_index(activation_era_id.value(), batch_size, nth_chunk) {
        Some(range) => range,
        None => return None,
    };
    if range.start >= range.end {
        return None;
    }
    let mut keys: Vec<Key> = Vec::new();
    let mut era: u64 = range.start;
    while era < range.end
        invariant
            range.start <= era <= range.end,
            keys@ == era_info_keys(range.start as int, era as int),
        decreases range.end - era,
    {
        keys.push(Key::EraInfo(EraId::new(era)));
        era = era + 1;
    }
    proof {
        assert(keys@ =~= era_info_keys(range.start as int, range.end as int));
    }
    Some(keys)
}

/// A batch size of zero purges nothing, whatever the eras and heights.
pub proof fn lemma_zero_batch_purges_nothing(
    activation_era_id: EraId,
    activation_height: u64,
    current_height: u64,
)
    ensures
        purge_eras(activation_era_id, activation_height, current_height, 0) is None,
{
}

/// With no era before the activation era there is no history to purge.
pub proof fn lemma_no_history_purges_nothing(
    activation_height: u64,
    current_height: u64,
    batch_size: u64,
)
    ensures
        purge_eras(EraId(0), activation_height, current_height, batch_size) is None,
{
}

/// The keys that the blocks at the first `n` heights from the activation
/// height purge, batch after batch.
pub open spec fn purged_through(
    activation_era_id: EraId,
    activation_height: u64,
    batch_size: u64,
    n: nat,
) -> Seq<Key>
    decreases n,
{
    if n == 0 {
        Seq::empty()
    } else {
        let earlier = purged_through(activation_era_id, activation_height, batch_size, (n - 1) as nat);
        match purge_eras(
            activation_era_id,
            activation_height,
            (activation_height + n - 1) as u64,
            batch_size,
        ) {
            Some(keys) => earlier + keys,
            None => earlier,
        }
    }
}

/// The batches of consecutive heights follow one another without gap or
/// overlap: together, those of the first `n` heights purge the eras below
/// `n` batches, or all eras below the activation era where that is fewer.
pub proof fn lemma_batches_concatenate(
    activation_era_id: EraId,
    activation_height: u64,
    batch_size: u64,
    n: nat,
)
    requires
        batch_size > 0,
        activation_height + n <= u64::MAX + 1,
        n * batch_size <= u64::MAX,
    ensures
        purged_through(activation_era_id, activation_height, batch_size, n) == era_info_keys(
            0,
            min_int(n * batch_size, activation_era_id.0 as int),
        ),
    decreases n,
{
    let e = activation_era_id.0 as int;
    let b = batch_size as int;
    if n == 0 {
        assert(era_info_keys(0, min_int(0, e)) =~= Seq::<Key>::empty());
        assert(n * batch_size == 0);
    } else {
        let m = (n - 1) as nat;
        assert(m * b + b == n * b) by (nonlinear_arith)
            requires
                m == n - 1,
        ;
        assert(m * b <= n * b) by (nonlinear_arith)
            requires
                m == n - 1,
                b > 0,
        ;
        lemma_batches_concatenate(activation_era_id, activation_height, batch_size, m);
        let start = m * b;
        let earlier = era_info_keys(0, min_int(start, e));
        let current = (activation_height + n - 1) as u64;
        assert(current - activation_height == m);
        assert(chunk_bounds(activation_era_id.0, batch_size, m as u64) == Some(
            (start, min_int(start + b, e)),
        ));
        assert(purged_through(activation_era_id, activation_height, batch_size, m) == earlier);
        assert(n * batch_size == n * b);
        let whole = purged_through(activation_era_id, activation_height, batch_size, n);
        assert(whole == match purge_eras(activation_era_id, activation_height, current, batch_size) {
            Some(keys) => earlier + keys,
            None => earlier,
        });
        if start < min_int(start + b, e) {
            assert(purge_eras(activation_era_id, activation_height, current, batch_size) == Some(
                era_info_keys(start, min_int(start + b, e)),
            ));
            assert(earlier + era_info_keys(start, min_int(start + b, e)) =~= era_info_keys(
                0,
                min_int(n * b, e),
            ));
        } else {
            assert(purge_eras(activation_era_id, activation_height, current, batch_size) is None);
            assert(min_int(start, e) == min_int(n * b, e));
        }
    }
}

} // verus!
