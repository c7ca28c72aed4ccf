//! The mempool: a FIFO queue of transactions keyed by their hashes, and the
//! decisions the mempool actor takes on each message it receives.

use crate::error::MempoolError;
use crate::network::GossipEvent;
use crate::tx::{RawTx, TxHash};
use crate::CheckTxOutcome;
use vstd::prelude::*;
use vstd::string::*;

verus! {

broadcast use vstd::seq_lib::group_seq_properties;

/// Limits of the mempool.
#[derive(Clone, Copy, Debug, PartialEq, Eq, Structural)]
pub struct MempoolConfig {
    /// The most bytes of transactions handed out by one reap.
    pub max_txs_bytes: u64,
    /// How many transactions a block is expected to hold.
    pub max_txs_per_block: usize,
}

impl Default for MempoolConfig {
    fn default() -> (c: Self)
        ensures
            c.max_txs_bytes == 4 * 1024 * 1024,
            c.max_txs_per_block == 100,
    {
        MempoolConfig { max_txs_bytes: 4 * 1024 * 1024, max_txs_per_block: 100 }
    }
}

impl MempoolConfig {
    /// The limits for a block of `max_txs_bytes` bytes whose transactions are
    /// expected to be `avg_tx_bytes` bytes each: as many transactions per
    /// block as such transactions fit (rounded down).
    pub fn from_limits(max_txs_bytes: u64, avg_tx_bytes: u64) -> (c: MempoolConfig)
        requires
            avg_tx_bytes > 0,
        ensures
            c.max_txs_bytes == max_txs_bytes,
            c.max_txs_per_block == (max_txs_bytes / avg_tx_bytes) as usize,
    {
        MempoolConfig { max_txs_bytes, max_txs_per_block: (max_txs_bytes / avg_tx_bytes) as usize }
    }
}

/// Where a reap starts: from the oldest transaction, or just after the
/// transactions the previous reap handed out.
#[derive(Clone, Copy, Debug, PartialEq, Eq, Structural)]
pub enum ReapCursor {
    Fresh,
    Resume,
}

/// One pooled transaction with its hash, viewed as `(hash, tx)`.
pub type EntryView = (Seq<u8>, Seq<u8>);

/// The hashes of the pooled transactions, oldest first.
pub open spec fn hashes_of(entries: Seq<EntryView>) -> Seq<Seq<u8>> {
    entries.map_values(|e: EntryView| e.0)
}

/// The pooled transactions, oldest first.
pub open spec fn txs_of(entries: Seq<EntryView>) -> Seq<Seq<u8>> {
    entries.map_values(|e: EntryView| e.1)
}

/// How many transactions, taken in order from the front of `txs`, fit in
/// `budget` bytes: it stops at the first one that does not fit.
pub open spec fn fitting_count(txs: Seq<Seq<u8>>, budget: int) -> nat
    decreases txs.len(),
{
    if txs.len() == 0 || budget < txs[0].len() {
        0
    } else {
        1 + fitting_count(txs.drop_first(), budget - txs[0].len())
    }
}

/// The transactions a reap from position `start` hands out with `budget` bytes.
pub open spec fn reap_segment(txs: Seq<Seq<u8>>, start: int, budget: int) -> Seq<Seq<u8>> {
    txs.subrange(start, start + fitting_count(txs.subrange(start, txs.len() as int), budget))
}

/// The total size of a sequence of transactions.
pub open spec fn total_bytes(txs: Seq<Seq<u8>>) -> int
    decreases txs.len(),
{
    if txs.len() == 0 {
        0
    } else {
        txs[0].len() + total_bytes(txs.drop_first())
    }
}

/// Keeps the entries whose hash is not among `hashes`.
pub open spec fn not_listed(hashes: Seq<Seq<u8>>) -> spec_fn(EntryView) -> bool {
    |e: EntryView| !hashes.contains(e.0)
}

/// The abstract content of the pool.
pub struct PoolView {
    /// `(hash, tx)` pairs, oldest first.
    pub entries: Seq<EntryView>,
    /// Where a resumed reap starts.
    pub cursor: nat,
}

impl PoolView {
    /// No hash occurs twice, and the reap cursor lies within the queue.
    pub open spec fn wf(self) -> bool {
        &&& hashes_of(self.entries).no_duplicates()
        &&& self.cursor <= self.entries.len()
    }

    pub open spec fn contains_hash(self, hash: Seq<u8>) -> bool {
        hashes_of(self.entries).contains(hash)
    }
}

struct Entry {
    hash: TxHash,
    tx: RawTx,
}

/// The state of the mempool actor.
pub struct State {
    entries: Vec<Entry>,
    cursor: usize,
}

impl View for State {
    type V = PoolView;

    closed spec fn view(&self) -> PoolView {
        PoolView {
            entries: self.entries@.map_values(|e: Entry| (e.hash@, e.tx@)),
            cursor: self.cursor as nat,
        }
    }
}

impl State {
    #[verifier::type_invariant]
    spec fn inv(self) -> bool {
        self@.wf()
    }

    /// An empty pool.
    pub fn new() -> (s: State)
        ensures
            s@.entries == Seq::<EntryView>::empty(),
            s@.cursor == 0,
    {
        let s = State { entries: Vec::new(), cursor: 0 };
        proof {
            assert(s@.entries =~= Seq::<EntryView>::empty());
        }
        s
    }

    /// The pool's invariant, for callers that reason about its view.
    pub fn check_wf(&self)
        ensures
            self@.wf(),
    {
        proof {
            use_type_invariant(self);
        }
    }

    /// Whether a transaction with this hash is pooled.
    pub fn tx_exists(&self, tx: &TxHash) -> (r: bool)
        ensures
            r == self@.contains_hash(tx@),
            r == (exists|i: int| 0 <= i < self@.entries.len() && #[trigger] self@.entries[i].0 == tx@),
    {
        let mut i: usize = 0;
        while i < self.entries.len()
            invariant
                0 <= i <= self.entries.len(),
                forall|j: int| 0 <= j < i ==> self.entries@[j].hash@ != tx@,
            decreases self.entries.len() - i,
        {
            if self.entries[i].hash.same_as(tx) {
                proof {
                    assert(hashes_of(self@.entries)[i as int] == tx@);
                }
                return true;
            }
            i = i + 1;
        }
        proof {
            if hashes_of(self@.entries).contains(tx@) {
                let j = choose|j: int|
                    0 <= j < hashes_of(self@.entries).len() && hashes_of(self@.entries)[j] == tx@;
                assert(self.entries@[j].hash@ == tx@);
            }
        }
        false
    }

    /// How many transactions are pooled.
    pub fn len(&self) -> (n: usize)
        ensures
            n == self@.entries.len(),
    {
        self.entries.len()
    }

    /// The pooled transactions, oldest first.
    pub fn txs(&self) -> (v: Vec<RawTx>)
        ensures
            v@.map_values(|t: RawTx| t@) == txs_of(self@.entries),
    {
        let mut v: Vec<RawTx> = Vec::new();
        let mut i: usize = 0;
        while i < self.entries.len()
            invariant
                0 <= i <= self.entries.len(),
                v.len() == i,
                forall|k: int| 0 <= k < i ==> v@[k]@ == self.entries@[k].tx@,
            decreases self.entries.len() - i,
        {
            let t = self.entries[i].tx.clone();
            v.push(t);
            i = i + 1;
        }
        proof {
            assert(v@.map_values(|t: RawTx| t@) =~= txs_of(self@.entries));
        }
        v
    }

    /// Appends a transaction whose hash is not pooled yet.
    fn append(&mut self, hash: TxHash, tx: RawTx)
        requires
            !old(self)@.contains_hash(hash@),
        ensures
            final(self)@.entries == old(self)@.entries.push((hash@, tx@)),
            final(self)@.cursor == old(self)@.cursor,
    {
        proof {
            use_type_invariant(&*self);
        }
        let ghost before = self@;
        let mut taken = State::new();
        std::mem::swap(&mut taken, self);
        let State { mut entries, cursor } = taken;
        entries.push(Entry { hash, tx });
        proof {
            let es = entries@.map_values(|e: Entry| (e.hash@, e.tx@));
            assert(es =~= before.entries.push((hash@, tx@)));
            assert(hashes_of(es) =~= hashes_of(before.entries).push(hash@));
        }
        *self = State { entries, cursor };
    }
}


impl Default for State {
    fn default() -> (s: State)
        ensures
            s@.entries == Seq::<EntryView>::empty(),
            s@.cursor == 0,
    {
        State::new()
    }
}

impl Clone for State {
    fn clone(&self) -> (c: State)
        ensures
            c@ == self@,
    {
        proof {
            use_type_invariant(self);
        }
        let mut entries: Vec<Entry> = Vec::new();
        let mut i: usize = 0;
        while i < self.entries.len()
            invariant
                0 <= i <= self.entries.len(),
                entries@.len() == i,
                forall|k: int|
                    0 <= k < i ==> entries@[k].hash@ == self.entries@[k].hash@ && entries@[k].tx@
                        == self.entries@[k].tx@,
            decreases self.entries.len() - i,
        {
            let hash = self.entries[i].hash.clone();
            let tx = self.entries[i].tx.clone();
            entries.push(Entry { hash, tx });
            i = i + 1;
        }
        proof {
            assert(entries@.map_values(|e: Entry| (e.hash@, e.tx@)) =~= self@.entries);
        }
        State { entries, cursor: self.cursor }
    }
}

/// Whether `hash` is among `hashes`.
fn is_listed(hashes: &Vec<TxHash>, hash: &TxHash) -> (r: bool)
    ensures
        r == hashes@.map_values(|h: TxHash| h@).contains(hash@),
{
    let ghost hs = hashes@.map_values(|h: TxHash| h@);
    let mut i: usize = 0;
    while i < hashes.len()
        invariant
            0 <= i <= hashes.len(),
            hs == hashes@.map_values(|h: TxHash| h@),
            forall|j: int| 0 <= j < i ==> hs[j] != hash@,
        decreases hashes.len() - i,
    {
        if hashes[i].same_as(hash) {
            proof {
                assert(hs[i as int] == hash@);
            }
            return true;
        }
        i = i + 1;
    }
    false
}

/// The transactions that fit in the budget are at most all of them.
pub proof fn lemma_fitting_count_bound(txs: Seq<Seq<u8>>, budget: int)
    ensures
        fitting_count(txs, budget) <= txs.len(),
    decreases txs.len(),
{
    if txs.len() > 0 && budget >= txs[0].len() {
        lemma_fitting_count_bound(txs.drop_first(), budget - txs[0].len());
    }
}

/// The transactions counted by `fitting_count` together stay within the budget.
pub proof fn lemma_fitting_total(txs: Seq<Seq<u8>>, budget: int)
    requires
        budget >= 0,
    ensures
        fitting_count(txs, budget) <= txs.len(),
        total_bytes(txs.take(fitting_count(txs, budget) as int)) <= budget,
    decreases txs.len(),
{
    lemma_fitting_count_bound(txs, budget);
    let k = fitting_count(txs, budget);
    if k == 0 {
        assert(txs.take(0) =~= Seq::<Seq<u8>>::empty());
    } else {
        let rest = txs.drop_first();
        let b = budget - txs[0].len();
        lemma_fitting_total(rest, b);
        assert(txs.take(k as int).drop_first() =~= rest.take(k - 1));
    }
}

impl State {
    /// Copies the transactions that fit in `budget` bytes, in order, starting
    /// at position `start`.
    fn segment(&self, start: usize, budget: u64) -> (v: Vec<RawTx>)
        requires
            start <= self@.entries.len(),
        ensures
            v@.map_values(|t: RawTx| t@) == reap_segment(
                txs_of(self@.entries),
                start as int,
                budget as int,
            ),
            v@.len() == fitting_count(
                txs_of(self@.entries).subrange(start as int, self@.entries.len() as int),
                budget as int,
            ),
    {
        let ghost txs = txs_of(self@.entries);
        let n = self.entries.len();
        let mut v: Vec<RawTx> = Vec::new();
        let mut used: u64 = 0;
        let mut i: usize = start;
        let mut stop = false;
        while i < n && !stop
            invariant
                start <= i <= n,
                n == self.entries.len(),
                txs == txs_of(self@.entries),
                used <= budget,
                v.len() == i - start,
                forall|k: int| 0 <= k < v.len() ==> v@[k]@ == txs[start + k],
                fitting_count(txs.subrange(start as int, n as int), budget as int) == (i - start)
                    + fitting_count(txs.subrange(i as int, n as int), budget - used),
                stop ==> fitting_count(txs.subrange(i as int, n as int), budget - used) == 0,
            decreases n - i + (if stop { 0int } else { 1int }),
        {
            let len = self.entries[i].tx.len();
            let len64 = len as u64;
            proof {
                assert(txs.subrange(i as int, n as int)[0] == txs[i as int]);
            }
            if len64 > budget - used {
                stop = true;
            } else {
                proof {
                    assert(txs.subrange(i as int, n as int).drop_first() =~= txs.subrange(
                        i + 1,
                        n as int,
                    ));
                }
                let t = self.entries[i].tx.clone();
                v.push(t);
                used = used + len64;
                i = i + 1;
            }
        }
        proof {
            if !stop {
                assert(txs.subrange(i as int, n as int).len() == 0);
            }
            assert(v@.map_values(|t: RawTx| t@) =~= txs.subrange(start as int, i as int));
        }
        v
    }

    /// Keeps only the entries whose hash is not among `tx_hashes`, in their
    /// order; the reap cursor keeps pointing just after the same kept entries.
    fn retain_unlisted(&mut self, tx_hashes: &Vec<TxHash>)
        ensures
            final(self)@.entries == old(self)@.entries.filter(
                not_listed(tx_hashes@.map_values(|h: TxHash| h@)),
            ),
            final(self)@.cursor == old(self)@.entries.take(old(self)@.cursor as int).filter(
                not_listed(tx_hashes@.map_values(|h: TxHash| h@)),
            ).len(),
    {
        proof {
            use_type_invariant(&*self);
        }
        let ghost before = self@;
        let ghost hs = tx_hashes@.map_values(|h: TxHash| h@);
        let ghost p = not_listed(hs);
        let mut taken = State::new();
        std::mem::swap(&mut taken, self);
        let State { entries, cursor } = taken;
        let ghost olds = before.entries;
        assert(olds == entries@.map_values(|e: Entry| (e.hash@, e.tx@)));
        let mut kept: Vec<Entry> = Vec::new();
        let mut new_cursor: usize = 0;
        let mut i: usize = 0;
        while i < entries.len()
            invariant
                0 <= i <= entries.len(),
                olds == entries@.map_values(|e: Entry| (e.hash@, e.tx@)),
                hashes_of(olds).no_duplicates(),
                cursor <= entries.len(),
                hs == tx_hashes@.map_values(|h: TxHash| h@),
                p == not_listed(hs),
                kept@.map_values(|e: Entry| (e.hash@, e.tx@)) == olds.take(i as int).filter(p),
                hashes_of(kept@.map_values(|e: Entry| (e.hash@, e.tx@))).no_duplicates(),
                new_cursor <= kept.len(),
                new_cursor == olds.take(if i < cursor { i as int } else { cursor as int }).filter(
                    p,
                ).len(),
            decreases entries.len() - i,
        {
            let listed = is_listed(tx_hashes, &entries[i].hash);
            let ghost e = olds[i as int];
            let ghost ks = kept@.map_values(|e: Entry| (e.hash@, e.tx@));
            proof {
                assert(olds.take(i + 1) =~= olds.take(i as int).push(e));
                olds.take(i as int).lemma_filter_push(e, p);
                assert(p(e) == !listed);
            }
            if !listed {
                proof {
                    if hashes_of(ks).contains(e.0) {
                        let k = choose|k: int| 0 <= k < hashes_of(ks).len() && hashes_of(ks)[k] == e.0;
                        assert(ks[k].0 == e.0);
                        assert(olds.take(i as int).filter(p).contains(ks[k]));
                        olds.take(i as int).lemma_filter_contains_rev(p, ks[k]);
                        let j = choose|j: int| 0 <= j < i && olds.take(i as int)[j] == ks[k];
                        assert(hashes_of(olds)[j] == hashes_of(olds)[i as int]);
                    }
                }
                let h = entries[i].hash.clone();
                let t = entries[i].tx.clone();
                kept.push(Entry { hash: h, tx: t });
                if i < cursor {
                    new_cursor = new_cursor + 1;
                }
                proof {
                    let ks2 = kept@.map_values(|e: Entry| (e.hash@, e.tx@));
                    assert(ks2 =~= ks.push(e));
                    assert(hashes_of(ks2) =~= hashes_of(ks).push(e.0));
                }
            } else {
                proof {
                    assert(kept@.map_values(|e: Entry| (e.hash@, e.tx@)) =~= ks);
                }
            }
            i = i + 1;
        }
        proof {
            assert(olds.take(entries.len() as int) =~= olds);
        }
        *self = State { entries: kept, cursor: new_cursor };
    }
}

impl State {
    /// Moves the reap cursor.
    fn set_cursor(&mut self, cursor: usize)
        requires
            cursor <= old(self)@.entries.len(),
        ensures
            final(self)@.entries == old(self)@.entries,
            final(self)@.cursor == cursor,
    {
        proof {
            use_type_invariant(&*self);
        }
        self.cursor = cursor;
    }

    /// Where a resumed reap starts.
    pub fn cursor(&self) -> (c: usize)
        ensures
            c == self@.cursor,
    {
        self.cursor
    }
}

/// What the mempool does with a transaction submitted to it.
pub enum AddTxAction {
    /// Ask the application to check the transaction.
    CheckTx(RawTx),
    /// Refuse the transaction with this error.
    Reject(MempoolError),
}

/// What the mempool does once the application has checked a transaction.
pub struct CheckTxDecision<O> {
    /// What the submitter is answered.
    pub reply: Result<O, MempoolError>,
    /// The transaction to gossip to the peers, if it joined the pool.
    pub gossip: Option<RawTx>,
}

/// A transaction wrapped for gossip: a type URL and the transaction's bytes.
pub struct GossipBatch {
    pub type_url: String,
    pub value: Vec<u8>,
}

/// The mempool actor's configuration and the decisions it takes.
pub struct Mempool {
    pub config: MempoolConfig,
    /// Whether an application is there to check transactions.
    pub app_configured: bool,
}

/// The error text given when no application can check a transaction.
pub open spec fn no_app_text() -> Seq<char> {
    "No app configured to provide transaction hash"@
}

/// Where a reap of the given kind starts in the pool.
pub open spec fn reap_start(pool: PoolView, cursor: ReapCursor) -> int {
    match cursor {
        ReapCursor::Fresh => 0,
        ReapCursor::Resume => pool.cursor as int,
    }
}

impl Mempool {
    pub fn new(config: MempoolConfig, app_configured: bool) -> (m: Mempool)
        ensures
            m.config == config,
            m.app_configured == app_configured,
    {
        Mempool { config, app_configured }
    }

    /// A submitted transaction goes to the application to be checked; with
    /// no application it is refused.
    pub fn add_tx(&self, tx: RawTx) -> (a: AddTxAction)
        ensures
            self.app_configured ==> (a matches AddTxAction::CheckTx(t) && t@ == tx@),
            !self.app_configured ==> (a matches AddTxAction::Reject(MempoolError::App(m))
                && m@ == no_app_text()),
    {
        if self.app_configured {
            AddTxAction::CheckTx(tx)
        } else {
            AddTxAction::Reject(
                MempoolError::App(String::from_str("No app configured to provide transaction hash")),
            )
        }
    }

    /// A transaction gossiped by a peer is submitted like any other (with no
    /// one to answer); other network events are only noted.
    pub fn handle_network_event(&self, event: &GossipEvent) -> (a: Option<AddTxAction>)
        ensures
            match *event {
                GossipEvent::TransactionBatch(value) => match a {
                    Some(AddTxAction::CheckTx(t)) => self.app_configured && t@ == value@,
                    Some(AddTxAction::Reject(MempoolError::App(m))) => !self.app_configured && m@
                        == no_app_text(),
                    _ => false,
                },
                _ => a is None,
            },
    {
        match event {
            GossipEvent::TransactionBatch(value) => {
                let tx = RawTx::from_vec(value.clone());
                Some(self.add_tx(tx))
            },
            _ => None,
        }
    }

    /// Applies the application's verdict on `tx`: a valid transaction whose
    /// hash is new joins the back of the queue and is gossiped; a valid one
    /// whose hash is pooled already is refused as a duplicate; an invalid one
    /// is answered with the application's outcome; a failed check is answered
    /// with an application error.
    pub fn handle_check_tx_result<O: CheckTxOutcome>(
        &self,
        tx: RawTx,
        result: Result<O, String>,
        state: &mut State,
    ) -> (d: CheckTxDecision<O>)
        ensures
            final(state)@.wf(),
            match result {
                Ok(outcome) => if outcome.spec_is_valid() && !old(state)@.contains_hash(
                    outcome.spec_hash(),
                ) {
                    &&& final(state)@.entries == old(state)@.entries.push(
                        (outcome.spec_hash(), tx@),
                    )
                    &&& final(state)@.cursor == old(state)@.cursor
                    &&& d.reply == Ok::<O, MempoolError>(outcome)
                    &&& d.gossip matches Some(g) && g@ == tx@
                } else if outcome.spec_is_valid() {
                    &&& final(state)@ == old(state)@
                    &&& d.reply matches Err(MempoolError::TxAlreadyExists(h)) && h@
                        == outcome.spec_hash()
                    &&& d.gossip is None
                } else {
                    &&& final(state)@ == old(state)@
                    &&& d.reply == Ok::<O, MempoolError>(outcome)
                    &&& d.gossip is None
                },
                Err(reason) => {
                    &&& final(state)@ == old(state)@
                    &&& d.reply matches Err(MempoolError::App(m)) && m@ == reason@
                    &&& d.gossip is None
                },
            },
    {
        let d = match result {
            Ok(outcome) => {
                let hash = outcome.hash();
                if outcome.is_valid() {
                    if state.tx_exists(&hash) {
                        CheckTxDecision { reply: Err(MempoolError::TxAlreadyExists(hash)), gossip: None }
                    } else {
                        let gossip = tx.clone();
                        state.append(hash, tx);
                        CheckTxDecision { reply: Ok(outcome), gossip: Some(gossip) }
                    }
                } else {
                    CheckTxDecision { reply: Ok(outcome), gossip: None }
                }
            },
            Err(reason) => CheckTxDecision { reply: Err(MempoolError::App(reason)), gossip: None },
        };
        state.check_wf();
        d
    }

    /// The transactions a block may take, oldest first, up to the byte limit;
    /// the pool is left as it is.
    pub fn take(&self, state: &State) -> (v: Vec<RawTx>)
        ensures
            v@.map_values(|t: RawTx| t@) == reap_segment(
                txs_of(state@.entries),
                0,
                self.config.max_txs_bytes as int,
            ),
    {
        state.segment(0, self.config.max_txs_bytes)
    }

    /// Hands out the transactions that fit in the byte limit, in order,
    /// starting from the oldest (`Fresh`) or just after those the previous
    /// reap handed out (`Resume`); the next resumed reap starts after them.
    pub fn reap(&self, state: &mut State, cursor: ReapCursor) -> (v: Vec<RawTx>)
        ensures
            v@.map_values(|t: RawTx| t@) == reap_segment(
                txs_of(old(state)@.entries),
                reap_start(old(state)@, cursor),
                self.config.max_txs_bytes as int,
            ),
            final(state)@.entries == old(state)@.entries,
            final(state)@.cursor == reap_start(old(state)@, cursor) + v@.len(),
            cursor is Fresh ==> v@.map_values(|t: RawTx| t@) == reap_segment(
                txs_of(old(state)@.entries),
                0,
                self.config.max_txs_bytes as int,
            ) && final(state)@.cursor == v@.len(),
            cursor is Resume ==> v@.map_values(|t: RawTx| t@) == reap_segment(
                txs_of(old(state)@.entries),
                old(state)@.cursor as int,
                self.config.max_txs_bytes as int,
            ) && final(state)@.cursor == old(state)@.cursor + v@.len(),
            final(state)@.wf(),
    {
        state.check_wf();
        let start = match cursor {
            ReapCursor::Fresh => 0,
            ReapCursor::Resume => state.cursor(),
        };
        let n = state.len();
        let v = state.segment(start, self.config.max_txs_bytes);
        proof {
            lemma_fitting_count_bound(
                txs_of(state@.entries).subrange(start as int, state@.entries.len() as int),
                self.config.max_txs_bytes as int,
            );
            assert(start <= state@.entries.len());
            assert(v@.len() <= state@.entries.len() - start);
        }
        state.set_cursor(start + v.len());
        state.check_wf();
        v
    }

    /// Drops the transactions with the given hashes; the others keep their
    /// order.
    pub fn remove(&self, tx_hashes: Vec<TxHash>, state: &mut State)
        ensures
            final(state)@.entries == old(state)@.entries.filter(
                not_listed(tx_hashes@.map_values(|h: TxHash| h@)),
            ),
            final(state)@.cursor == old(state)@.entries.take(old(state)@.cursor as int).filter(
                not_listed(tx_hashes@.map_values(|h: TxHash| h@)),
            ).len(),
            final(state)@.wf(),
    {
        state.retain_unlisted(&tx_hashes);
        state.check_wf();
    }

    /// Wraps a pooled transaction for gossip.
    pub fn gossip_tx(&self, tx: &RawTx) -> (b: GossipBatch)
        ensures
            b.type_url@ == "mempool.transaction"@,
            b.value@ == tx@,
    {
        GossipBatch { type_url: String::from_str("mempool.transaction"), value: tx.to_vec() }
    }
}
} // verus!
