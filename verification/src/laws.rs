//! Properties of the pool that span several operations.

use crate::host_app::TestCheckTxOutcome;
use crate::host_app::TestTxHash;
use crate::mempool::{
    reap_start, ReapCursor,
    fitting_count, hashes_of, lemma_fitting_count_bound, lemma_fitting_total, not_listed,
    reap_segment, total_bytes, txs_of, EntryView, PoolView,
};
use crate::CheckTxOutcome;
use vstd::bytes::{lemma_auto_spec_u64_to_from_le_bytes, spec_u64_from_le_bytes, spec_u64_to_le_bytes};
use vstd::prelude::*;

verus! {

broadcast use vstd::seq_lib::group_seq_properties;

/// The next transaction after those `fitting_count` counts does not fit.
proof fn lemma_fitting_maximal(txs: Seq<Seq<u8>>, budget: int)
    requires
        budget >= 0,
    ensures
        fitting_count(txs, budget) < txs.len() ==> total_bytes(
            txs.take(fitting_count(txs, budget) as int),
        ) + txs[fitting_count(txs, budget) as int].len() > budget,
    decreases txs.len(),
{
    lemma_fitting_count_bound(txs, budget);
    let k = fitting_count(txs, budget);
    if k == 0 {
        assert(txs.take(0) =~= Seq::<Seq<u8>>::empty());
    } else {
        let rest = txs.drop_first();
        let b = budget - txs[0].len();
        lemma_fitting_maximal(rest, b);
        assert(txs.take(k as int).drop_first() =~= rest.take(k - 1));
    }
}

/// A reap hands out a slice of the queue that starts where the reap starts.
pub proof fn law_reap_is_a_slice(txs: Seq<Seq<u8>>, start: int, budget: int)
    requires
        0 <= start <= txs.len(),
    ensures
        start + reap_segment(txs, start, budget).len() <= txs.len(),
        reap_segment(txs, start, budget) == txs.subrange(
            start,
            start + reap_segment(txs, start, budget).len(),
        ),
{
    lemma_fitting_count_bound(txs.subrange(start, txs.len() as int), budget);
}

/// A reap never hands out more bytes than the limit.
pub proof fn law_reap_within_budget(txs: Seq<Seq<u8>>, start: int, budget: int)
    requires
        0 <= start <= txs.len(),
        budget >= 0,
    ensures
        total_bytes(reap_segment(txs, start, budget)) <= budget,
{
    let sub = txs.subrange(start, txs.len() as int);
    lemma_fitting_total(sub, budget);
    let k = fitting_count(sub, budget);
    assert(reap_segment(txs, start, budget) =~= sub.take(k as int));
}

/// A reap stops only at the end of the queue, or at a transaction that
/// would take it over the limit.
pub proof fn law_reap_is_maximal(txs: Seq<Seq<u8>>, start: int, budget: int)
    requires
        0 <= start <= txs.len(),
        budget >= 0,
    ensures
        start + reap_segment(txs, start, budget).len() < txs.len() ==> total_bytes(
            reap_segment(txs, start, budget),
        ) + txs[start + reap_segment(txs, start, budget).len()].len() > budget,
{
    let sub = txs.subrange(start, txs.len() as int);
    lemma_fitting_maximal(sub, budget);
    lemma_fitting_count_bound(sub, budget);
    let k = fitting_count(sub, budget);
    assert(reap_segment(txs, start, budget) =~= sub.take(k as int));
    if k < sub.len() {
        assert(sub[k as int] == txs[start + k]);
    }
}

/// Two fresh reaps of a pool whose transactions did not change in between
/// hand out the same transactions.
pub proof fn law_fresh_reaps_agree(first: PoolView, second: PoolView, budget: int)
    requires
        second.entries == first.entries,
    ensures
        reap_segment(txs_of(first.entries), 0, budget) == reap_segment(
            txs_of(second.entries),
            0,
            budget,
        ),
{
}

/// Successive reaps, each resuming where the previous stopped, hand out
/// consecutive slices of the queue.
pub proof fn law_resumed_reaps_are_consecutive(txs: Seq<Seq<u8>>, start: int, budget: int)
    requires
        0 <= start <= txs.len(),
    ensures
        ({
            let first = reap_segment(txs, start, budget);
            let second = reap_segment(txs, start + first.len(), budget);
            &&& start + first.len() + second.len() <= txs.len()
            &&& first + second == txs.subrange(start, start + first.len() + second.len())
        }),
{
    law_reap_is_a_slice(txs, start, budget);
    let first = reap_segment(txs, start, budget);
    law_reap_is_a_slice(txs, start + first.len(), budget);
    let second = reap_segment(txs, start + first.len(), budget);
    assert(first + second =~= txs.subrange(start, start + first.len() + second.len()));
}

/// Accepting a transaction whose hash is new keeps the pool well formed, puts
/// the transaction at the back of the queue, and makes its hash known (so a
/// second submission of it is refused as a duplicate).
pub proof fn law_accepted_tx_is_pooled(pool: PoolView, hash: Seq<u8>, tx: Seq<u8>)
    requires
        pool.wf(),
        !pool.contains_hash(hash),
    ensures
        ({
            let after = PoolView { entries: pool.entries.push((hash, tx)), cursor: pool.cursor };
            &&& after.wf()
            &&& after.contains_hash(hash)
            &&& txs_of(after.entries) == txs_of(pool.entries).push(tx)
            &&& forall|h: Seq<u8>| pool.contains_hash(h) ==> after.contains_hash(h)
        }),
{
    let after = PoolView { entries: pool.entries.push((hash, tx)), cursor: pool.cursor };
    assert(hashes_of(after.entries) =~= hashes_of(pool.entries).push(hash));
    assert(txs_of(after.entries) =~= txs_of(pool.entries).push(tx));
    assert(hashes_of(after.entries)[pool.entries.len() as int] == hash);
    assert forall|a: int, b: int|
        0 <= a < hashes_of(after.entries).len() && 0 <= b < hashes_of(after.entries).len() && a
            != b implies hashes_of(after.entries)[a] != hashes_of(after.entries)[b] by {
        let hs = hashes_of(pool.entries);
        if a < hs.len() && b < hs.len() {
            assert(hs[a] != hs[b]);
        } else if a < hs.len() {
            assert(hs.contains(hs[a]));
        } else if b < hs.len() {
            assert(hs.contains(hs[b]));
        }
    }
}

/// After a removal, no listed hash is left in the pool, every entry whose
/// hash was not listed is still there, nothing new appears, and no hash
/// occurs twice.
pub proof fn law_removal(pool: PoolView, listed: Seq<Seq<u8>>)
    requires
        pool.wf(),
    ensures
        ({
            let kept = pool.entries.filter(not_listed(listed));
            &&& forall|h: Seq<u8>| listed.contains(h) ==> !hashes_of(kept).contains(h)
            &&& forall|e: EntryView| #[trigger]
                pool.entries.contains(e) && !listed.contains(e.0) ==> kept.contains(e)
            &&& forall|e: EntryView| #[trigger] kept.contains(e) ==> pool.entries.contains(e)
            &&& hashes_of(kept).no_duplicates()
        }),
{
    let p = not_listed(listed);
    let kept = pool.entries.filter(p);
    assert forall|h: Seq<u8>| listed.contains(h) implies !hashes_of(kept).contains(h) by {
        if hashes_of(kept).contains(h) {
            let k = choose|k: int| 0 <= k < hashes_of(kept).len() && hashes_of(kept)[k] == h;
            pool.entries.lemma_filter_pred(p, k);
        }
    }
    assert forall|e: EntryView| #[trigger]
        pool.entries.contains(e) && !listed.contains(e.0) implies kept.contains(e) by {
        let i = choose|i: int| 0 <= i < pool.entries.len() && pool.entries[i] == e;
        pool.entries.lemma_filter_contains(p, i);
    }
    assert forall|e: EntryView| #[trigger] kept.contains(e) implies pool.entries.contains(e) by {
        pool.entries.lemma_filter_contains_rev(p, e);
    }
    lemma_filter_keeps_distinct_hashes(pool.entries, p);
}

/// Filtering entries whose hashes are distinct leaves them distinct.
proof fn lemma_filter_keeps_distinct_hashes(
    entries: Seq<EntryView>,
    p: spec_fn(EntryView) -> bool,
)
    requires
        hashes_of(entries).no_duplicates(),
    ensures
        hashes_of(entries.filter(p)).no_duplicates(),
    decreases entries.len(),
{
    if entries.len() > 0 {
        let rest = entries.drop_last();
        let last = entries.last();
        assert(entries =~= rest.push(last));
        assert(hashes_of(rest) =~= hashes_of(entries).drop_last());
        lemma_filter_keeps_distinct_hashes(rest, p);
        rest.lemma_filter_push(last, p);
        if p(last) {
            let f = rest.filter(p);
            let fh = hashes_of(f.push(last));
            assert(fh =~= hashes_of(f).push(last.0));
            assert(!hashes_of(f).contains(last.0)) by {
                if hashes_of(f).contains(last.0) {
                    let k = choose|k: int| 0 <= k < hashes_of(f).len() && hashes_of(f)[k] == last.0;
                    rest.lemma_filter_contains_rev(p, f[k]);
                    let j = choose|j: int| 0 <= j < rest.len() && rest[j] == f[k];
                    assert(hashes_of(entries)[j] == hashes_of(entries)[entries.len() - 1]);
                }
            }
            assert forall|a: int, b: int|
                0 <= a < fh.len() && 0 <= b < fh.len() && a != b implies fh[a] != fh[b] by {
                let hs = hashes_of(f);
                if a < hs.len() && b < hs.len() {
                    assert(hs[a] != hs[b]);
                } else if a < hs.len() {
                    assert(hs.contains(hs[a]));
                } else if b < hs.len() {
                    assert(hs.contains(hs[b]));
                }
            }
        }
    }
}

/// Removal does not move a resumed reap past, or back over, any kept
/// transaction: the kept entries before the new cursor are exactly the kept
/// entries that were before the old one.
pub proof fn law_removal_keeps_reap_position(pool: PoolView, listed: Seq<Seq<u8>>)
    requires
        pool.wf(),
    ensures
        ({
            let p = not_listed(listed);
            let kept = pool.entries.filter(p);
            let cursor = pool.entries.take(pool.cursor as int).filter(p).len();
            &&& cursor <= kept.len()
            &&& kept.take(cursor as int) == pool.entries.take(pool.cursor as int).filter(p)
        }),
{
    let p = not_listed(listed);
    let c = pool.cursor as int;
    assert(pool.entries =~= pool.entries.take(c) + pool.entries.skip(c));
    Seq::filter_distributes_over_add(pool.entries.take(c), pool.entries.skip(c), p);
    let front = pool.entries.take(c).filter(p);
    let back = pool.entries.skip(c).filter(p);
    assert((front + back).take(front.len() as int) =~= front);
}

/// A hash counts as pooled exactly when some pooled entry carries that very
/// hash (byte for byte): so a valid transaction whose hash no entry carries is
/// always appended, and only an exact duplicate is refused.
pub proof fn law_pooled_hash_is_exact(pool: PoolView, hash: Seq<u8>)
    ensures
        pool.contains_hash(hash) <==> (exists|i: int|
            0 <= i < pool.entries.len() && #[trigger] pool.entries[i].0 == hash),
{
    if pool.contains_hash(hash) {
        let hs = hashes_of(pool.entries);
        let i = choose|i: int| 0 <= i < hs.len() && hs[i] == hash;
        assert(pool.entries[i].0 == hash);
    }
    if exists|i: int| 0 <= i < pool.entries.len() && #[trigger] pool.entries[i].0 == hash {
        let i = choose|i: int| 0 <= i < pool.entries.len() && #[trigger] pool.entries[i].0 == hash;
        assert(hashes_of(pool.entries)[i] == hash);
    }
}

/// A fresh reap starts at the oldest transaction; a resumed reap starts at
/// the pool's cursor, i.e. just after what the previous reap handed out.
pub proof fn law_reap_starts(pool: PoolView)
    ensures
        reap_start(pool, ReapCursor::Fresh) == 0,
        reap_start(pool, ReapCursor::Resume) == pool.cursor,
{
}

/// A reap from a pool, followed by a resumed reap from the pool it leaves
/// (same entries, cursor moved past what was handed out), hands out two
/// consecutive, non-overlapping slices of the queue, the second starting
/// right after the first.
pub proof fn law_reap_then_resume(pool: PoolView, cursor: ReapCursor, budget: int)
    requires
        pool.wf(),
    ensures
        ({
            let txs = txs_of(pool.entries);
            let start = if cursor is Fresh { 0 } else { pool.cursor as int };
            let first = reap_segment(txs, reap_start(pool, cursor), budget);
            let after = PoolView {
                entries: pool.entries,
                cursor: (reap_start(pool, cursor) + first.len()) as nat,
            };
            let second = reap_segment(txs, reap_start(after, ReapCursor::Resume), budget);
            &&& first == txs.subrange(start, start + first.len())
            &&& second == txs.subrange(
                start + first.len(),
                start + first.len() + second.len(),
            )
            &&& start + first.len() + second.len() <= txs.len()
        }),
{
    let txs = txs_of(pool.entries);
    let start = if cursor is Fresh { 0 } else { pool.cursor as int };
    law_reap_is_a_slice(txs, start, budget);
    let first = reap_segment(txs, start, budget);
    law_reap_is_a_slice(txs, start + first.len(), budget);
}

/// The test application's outcome is valid exactly when it is a success,
/// whatever its hash: every success is accepted, every error refused.
pub proof fn law_test_outcome_valid_iff_success(h: TestTxHash, reason: String)
    ensures
        TestCheckTxOutcome::Success(h).spec_is_valid(),
        !TestCheckTxOutcome::Error(h, reason).spec_is_valid(),
{
}

/// A test transaction read back from its own bytes is the same transaction.
pub proof fn law_test_tx_round_trip(id: u64)
    ensures
        spec_u64_to_le_bytes(id).len() == 8,
        spec_u64_from_le_bytes(spec_u64_to_le_bytes(id)) == id,
{
    lemma_auto_spec_u64_to_from_le_bytes();
}

/// The mempool keys a test transaction by its own bytes: the hash the test
/// application reports for it, accepted or refused, equals its serialization.
pub proof fn law_test_hash_is_tx_bytes(id: u64, reason: String)
    ensures
        TestCheckTxOutcome::Success(TestTxHash(id)).spec_hash() == spec_u64_to_le_bytes(id),
        TestCheckTxOutcome::Error(TestTxHash(id), reason).spec_hash() == spec_u64_to_le_bytes(id),
{
}

/// A peer that connects and then disconnects leaves the set of peers as it
/// was before, if it was not in it.
pub proof fn law_connect_then_disconnect(peers: Set<Seq<u8>>, peer: Seq<u8>)
    requires
        !peers.contains(peer),
    ensures
        peers.insert(peer).remove(peer) == peers,
{
    assert(peers.insert(peer).remove(peer) =~= peers);
}

} // verus!
