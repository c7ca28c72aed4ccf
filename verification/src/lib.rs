//! A first-in-first-out transaction pool for a gossiping node, with the
//! logic of its actors (mempool, application, RPC front end, gossip network)
//! written as verified state machines.

pub mod config;
pub mod error;
pub mod host_app;
pub mod laws;
pub mod mempool;
pub mod network;
pub mod rpc;
pub mod tx;

use tx::{RawTx, TxHash};
use vstd::prelude::*;

verus! {

/// What the application concluded about a transaction it was asked to check.
pub trait CheckTxOutcome {
    /// Whether the application accepts the transaction.
    spec fn spec_is_valid(&self) -> bool;

    /// The bytes of the hash the application assigns to the transaction.
    spec fn spec_hash(&self) -> Seq<u8>;

    fn is_valid(&self) -> (r: bool)
        ensures
            r == self.spec_is_valid(),
    ;

    fn hash(&self) -> (h: TxHash)
        ensures
            h@ == self.spec_hash(),
    ;
}

/// The application the mempool asks to check each transaction.
pub trait MempoolApp {
    type Outcome: CheckTxOutcome;

    /// Checks a transaction; an `Err` carries the reason the check failed.
    fn check_tx(&self, tx: &RawTx) -> Result<Self::Outcome, String>;
}

} // verus!
