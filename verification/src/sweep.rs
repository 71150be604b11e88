//! Batching for an object-store sweeper.
//!
//! A store takes a bounded number of keys in one delete request. The keys to
//! delete are cut into batches of that size, in order; only the last batch may
//! be smaller.

use vstd::prelude::*;
use crate::text::texts;

verus! {

/// The most keys that one delete request may name.
pub const BATCH_LIMIT: usize = 1000;

/// How many batches `count` keys make.
pub open spec fn batch_count(count: nat) -> nat {
    ((count + BATCH_LIMIT - 1) / (BATCH_LIMIT as int)) as nat
}

/// Where batch `k` of `count` keys ends.
pub open spec fn batch_end(count: nat, k: int) -> int {
    if (k + 1) * BATCH_LIMIT <= count {
        (k + 1) * BATCH_LIMIT
    } else {
        count as int
    }
}

/// Batch `k` of `keys`.
pub open spec fn batch<T>(keys: Seq<T>, k: int) -> Seq<T> {
    keys.subrange(k * BATCH_LIMIT, batch_end(keys.len(), k))
}

/// Whether `batches` are the batches of `keys`: as many as needed, each the
/// next stretch of the keys.
pub open spec fn batches_of(batches: Seq<Vec<String>>, keys: Seq<String>) -> bool {
    &&& batches.len() == batch_count(keys.len())
    &&& forall|k: int|
        0 <= k < batches.len() ==> texts((#[trigger] batches[k])@) == batch(texts(keys), k)
}

/// Cuts `keys` into batches of at most [`BATCH_LIMIT`] keys, in order. Every
/// batch but the last is full, no batch is empty, and no keys make no batch.
pub fn delete_batches(keys: &Vec<String>) -> (batches: Vec<Vec<String>>)
    ensures
        batches_of(batches@, keys@),
        forall|k: int| 0 <= k < batches@.len() ==> 0 < (#[trigger] batches@[k])@.len() <= BATCH_LIMIT,
        forall|k: int| 0 <= k < batches@.len() - 1 ==> (#[trigger] batches@[k])@.len() == BATCH_LIMIT,
{
    let mut batches: Vec<Vec<String>> = Vec::new();
    let mut start: usize = 0;
    let ghost all = texts(keys@);
    while start < keys.len()
        invariant
            start <= keys@.len(),
            all == texts(keys@),
            start < keys@.len() ==> start == batches@.len() * BATCH_LIMIT,
            start == keys@.len() ==> batches@.len() == batch_count(keys@.len()),
            forall|k: int|
                0 <= k < batches@.len() ==> texts((#[trigger] batches@[k])@) == batch(all, k),
        decreases keys@.len() - start,
    {
        let end: usize = if keys.len() - start > BATCH_LIMIT {
            start + BATCH_LIMIT
        } else {
            keys.len()
        };
        assert(end == batch_end(keys@.len(), batches@.len() as int));
        let mut one: Vec<String> = Vec::new();
        let mut i: usize = start;
        while i < end
            invariant
                start <= i <= end <= keys@.len(),
                all == texts(keys@),
                texts(one@) == all.subrange(start as int, i as int),
            decreases end - i,
        {
            let ghost before = one@;
            let key: String = keys[i].clone();
            assert(key@ == all[i as int]);
            one.push(key);
            i = i + 1;
            assert(texts(one@) =~= texts(before).push(key@));
            assert(texts(one@) =~= all.subrange(start as int, i as int));
        }
        batches.push(one);
        start = end;
    }
    proof {
        assert forall|k: int| 0 <= k < batches@.len() implies 0 < (#[trigger] batches@[k])@.len()
            <= BATCH_LIMIT by {
            assert(texts(batches@[k]@).len() == batches@[k]@.len());
            assert(texts(batches@[k]@) == batch(all, k));
        }
        assert forall|k: int| 0 <= k < batches@.len() - 1 implies (#[trigger] batches@[k])@.len()
            == BATCH_LIMIT by {
            assert(texts(batches@[k]@).len() == batches@[k]@.len());
            assert(texts(batches@[k]@) == batch(all, k));
        }
    }
    batches
}

} // verus!
