//! The RPC front end: how the answer of the mempool to a submitted test
//! transaction is recorded, and the RPC errors.

use crate::error::MempoolError;
use crate::host_app::{TestCheckTxOutcome, TestTxHash};
use crate::CheckTxOutcome;
use vstd::prelude::*;
use vstd::std_specs::convert::FromSpecImpl;
use vstd::string::*;

verus! {

/// Why an RPC call failed.
#[derive(Debug)]
pub enum RpcError {
    /// The mempool refused or failed the operation.
    MempoolError(MempoolError),
    /// The actors could not be reached.
    ActorError { details: String },
}

impl From<MempoolError> for RpcError {
    fn from(err: MempoolError) -> (r: Self) {
        RpcError::MempoolError(err)
    }
}

impl FromSpecImpl<MempoolError> for RpcError {
    open spec fn obeys_from_spec() -> bool {
        true
    }

    open spec fn from_spec(v: MempoolError) -> RpcError {
        RpcError::MempoolError(v)
    }
}

impl RpcError {
    /// The message shown for the error.
    pub open spec fn spec_message(&self) -> Seq<char> {
        match self {
            RpcError::MempoolError(e) => "Mempool operation failed: "@ + e.spec_message(),
            RpcError::ActorError { details } => "Actor communication failed: "@ + details@,
        }
    }

    pub fn message(&self) -> (s: String)
        ensures
            s@ == self.spec_message(),
    {
        match self {
            RpcError::MempoolError(e) => {
                let inner = e.message();
                let mut s = String::from_str("Mempool operation failed: ");
                s.append(inner.as_str());
                s
            },
            RpcError::ActorError { details } => {
                let mut s = String::from_str("Actor communication failed: ");
                s.append(details.as_str());
                s
            },
        }
    }
}

/// The text recorded when the application finds a submitted transaction
/// invalid.
pub open spec fn validation_failed_text() -> Seq<char> {
    "Transaction validation failed"@
}

/// What the RPC front end records for the mempool's answer to a transaction
/// with hash `tx_hash`: success when the application accepted it, a
/// validation failure when it refused it, and the mempool's error message
/// when the mempool answered with an error.
pub fn add_tx_outcome<O: CheckTxOutcome>(
    tx_hash: TestTxHash,
    outcome: Result<O, MempoolError>,
) -> (r: TestCheckTxOutcome)
    ensures
        match outcome {
            Ok(o) => if o.spec_is_valid() {
                r == TestCheckTxOutcome::Success(tx_hash)
            } else {
                r matches TestCheckTxOutcome::Error(h, m) && h == tx_hash && m@
                    == validation_failed_text()
            },
            Err(e) => r matches TestCheckTxOutcome::Error(h, m) && h == tx_hash && m@
                == e.spec_message(),
        },
{
    match outcome {
        Ok(check_tx_outcome) => {
            if check_tx_outcome.is_valid() {
                TestCheckTxOutcome::Success(tx_hash)
            } else {
                TestCheckTxOutcome::Error(tx_hash, String::from_str("Transaction validation failed"))
            }
        },
        Err(mempool_error) => TestCheckTxOutcome::Error(tx_hash, mempool_error.message()),
    }
}

/// The RPC actor's state: the outcome of the latest submitted transaction.
pub struct RpcState {
    pub last_outcome: Option<TestCheckTxOutcome>,
}

impl RpcState {
    /// Nothing submitted yet.
    pub fn new() -> (s: RpcState)
        ensures
            s.last_outcome is None,
    {
        RpcState { last_outcome: None }
    }

    /// Records the outcome of a submitted transaction; it replaces the one
    /// recorded before.
    pub fn record(&mut self, outcome: TestCheckTxOutcome)
        ensures
            final(self).last_outcome == Some(outcome),
    {
        self.last_outcome = Some(outcome);
    }

    /// The outcome of the latest submitted transaction, if any.
    pub fn last(&self) -> (o: Option<TestCheckTxOutcome>)
        ensures
            match (o, self.last_outcome) {
                (None, None) => true,
                (Some(TestCheckTxOutcome::Success(a)), Some(TestCheckTxOutcome::Success(b))) => a
                    == b,
                (Some(TestCheckTxOutcome::Error(a, m)), Some(TestCheckTxOutcome::Error(b, n))) => a
                    == b && m@ == n@,
                _ => false,
            },
    {
        match &self.last_outcome {
            None => None,
            Some(o) => Some(o.clone()),
        }
    }
}

} // verus!
