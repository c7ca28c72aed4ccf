//! The errors the mempool hands back to whoever submitted a transaction.

use crate::tx::{tx_hash_text, TxHash};
use vstd::prelude::*;
use vstd::string::*;

verus! {

/// Why the mempool refused or failed to process a transaction.
#[derive(Debug)]
pub enum MempoolError {
    /// The application could not check the transaction; the text says why.
    App(String),
    /// A transaction with this hash is already in the pool.
    TxAlreadyExists(TxHash),
}

impl MempoolError {
    /// The message shown for the error.
    pub open spec fn spec_message(&self) -> Seq<char> {
        match self {
            MempoolError::App(reason) => "Application error: "@ + reason@,
            MempoolError::TxAlreadyExists(hash) => "Transaction already exists in mempool: "@
                + tx_hash_text(hash@),
        }
    }

    /// Renders the error as the message shown to people.
    pub fn message(&self) -> (s: String)
        ensures
            s@ == self.spec_message(),
    {
        match self {
            MempoolError::App(reason) => {
                let mut s = String::from_str("Application error: ");
                s.append(reason.as_str());
                s
            },
            MempoolError::TxAlreadyExists(hash) => {
                let text = hash.display_text();
                let mut s = String::from_str("Transaction already exists in mempool: ");
                s.append(text.as_str());
                s
            },
        }
    }
}

impl Clone for MempoolError {
    fn clone(&self) -> (c: Self)
        ensures
            match (self, c) {
                (MempoolError::App(a), MempoolError::App(b)) => a@ == b@,
                (MempoolError::TxAlreadyExists(a), MempoolError::TxAlreadyExists(b)) => a@ == b@,
                _ => false,
            },
    {
        match self {
            MempoolError::App(reason) => MempoolError::App(reason.clone()),
            MempoolError::TxAlreadyExists(hash) => MempoolError::TxAlreadyExists(hash.clone()),
        }
    }
}

} // verus!
