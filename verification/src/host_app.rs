//! The test application the host runs beside the mempool: transactions are
//! little-endian `u64` ids, the hash of a transaction is its id, and the
//! transaction with id 9999 is refused.

use crate::tx::{RawTx, TxHash};
use crate::{CheckTxOutcome, MempoolApp};
use vstd::bytes::{spec_u64_from_le_bytes, spec_u64_to_le_bytes, u64_from_le_bytes, u64_to_le_bytes};
use vstd::prelude::*;
use vstd::string::*;

verus! {

/// The error text when bytes do not make a `TestTx`.
pub open spec fn wrong_length_text() -> Seq<char> {
    "Expected 8 bytes for TestTx deserialization"@
}

/// The error text when the application refuses transaction 9999.
pub open spec fn refused_text() -> Seq<char> {
    "Transaction 9999 is not allowed"@
}

/// Errors of the test application.
#[derive(Debug)]
pub enum AppError {
    /// Bytes that do not decode to a transaction; the text says why.
    DeserializationFailed(String),
}

impl AppError {
    pub fn deserialization_failed(reason: &str) -> (e: AppError)
        ensures
            e matches AppError::DeserializationFailed(r) && r@ == reason@,
    {
        AppError::DeserializationFailed(String::from_str(reason))
    }

    /// The message shown for the error.
    pub open spec fn spec_message(&self) -> Seq<char> {
        match self {
            AppError::DeserializationFailed(reason) => "Deserialization failed: "@ + reason@,
        }
    }

    pub fn message(&self) -> (s: String)
        ensures
            s@ == self.spec_message(),
    {
        match self {
            AppError::DeserializationFailed(reason) => {
                let mut s = String::from_str("Deserialization failed: ");
                s.append(reason.as_str());
                s
            },
        }
    }
}

/// A test transaction, identified by its id.
#[derive(Clone, Copy, Debug, PartialEq, Eq, Hash, Structural)]
pub struct TestTx(pub u64);

/// The hash of a test transaction: its id.
#[derive(Clone, Copy, Debug, PartialEq, Eq, Hash, Structural)]
pub struct TestTxHash(pub u64);

impl TestTxHash {
    /// The mempool's hashes for a list of test hashes, in the same order.
    pub fn to_tx_hashes(hashes: &Vec<TestTxHash>) -> (v: Vec<TxHash>)
        ensures
            v@.len() == hashes@.len(),
            forall|i: int| 0 <= i < hashes@.len() ==> v@[i]@ == spec_u64_to_le_bytes(hashes@[i].0),
    {
        let mut v: Vec<TxHash> = Vec::new();
        let mut i: usize = 0;
        while i < hashes.len()
            invariant
                0 <= i <= hashes.len(),
                v@.len() == i,
                forall|k: int| 0 <= k < i ==> v@[k]@ == spec_u64_to_le_bytes(hashes@[k].0),
            decreases hashes.len() - i,
        {
            v.push(hashes[i].to_tx_hash());
            i = i + 1;
        }
        v
    }

    /// The mempool's hash for this transaction: the id's little-endian bytes.
    pub fn to_tx_hash(&self) -> (h: TxHash)
        ensures
            h@ == spec_u64_to_le_bytes(self.0),
    {
        TxHash::from_vec(u64_to_le_bytes(self.0))
    }
}

impl TestTx {
    /// The transaction's bytes: its id in little-endian order.
    pub fn serialize(&self) -> (tx: RawTx)
        ensures
            tx@ == spec_u64_to_le_bytes(self.0),
    {
        RawTx::from_vec(u64_to_le_bytes(self.0))
    }

    /// Reads a transaction back from exactly eight little-endian bytes.
    pub fn deserialize(bytes: &[u8]) -> (r: Result<TestTx, AppError>)
        ensures
            bytes@.len() == 8 ==> r == Ok::<TestTx, AppError>(
                TestTx(spec_u64_from_le_bytes(bytes@)),
            ),
            bytes@.len() != 8 ==> (r matches Err(AppError::DeserializationFailed(m)) && m@
                == wrong_length_text()),
    {
        if bytes.len() != 8 {
            return Err(AppError::deserialization_failed("Expected 8 bytes for TestTx deserialization"));
        }
        Ok(TestTx(u64_from_le_bytes(bytes)))
    }

    /// The transaction's hash: its id.
    pub fn hash(&self) -> (h: TestTxHash)
        ensures
            h.0 == self.0,
    {
        TestTxHash(self.0)
    }
}

/// What the test application concluded about a transaction.
#[derive(Debug, PartialEq)]
pub enum TestCheckTxOutcome {
    Success(TestTxHash),
    Error(TestTxHash, String),
}

impl Clone for TestCheckTxOutcome {
    fn clone(&self) -> (c: Self)
        ensures
            match (self, c) {
                (TestCheckTxOutcome::Success(a), TestCheckTxOutcome::Success(b)) => a == b,
                (TestCheckTxOutcome::Error(a, m), TestCheckTxOutcome::Error(b, n)) => a == b && m@
                    == n@,
                _ => false,
            },
    {
        match self {
            TestCheckTxOutcome::Success(h) => TestCheckTxOutcome::Success(*h),
            TestCheckTxOutcome::Error(h, m) => TestCheckTxOutcome::Error(*h, m.clone()),
        }
    }
}

impl CheckTxOutcome for TestCheckTxOutcome {
    open spec fn spec_is_valid(&self) -> bool {
        self is Success
    }

    open spec fn spec_hash(&self) -> Seq<u8> {
        match self {
            TestCheckTxOutcome::Success(h) => spec_u64_to_le_bytes(h.0),
            TestCheckTxOutcome::Error(h, _) => spec_u64_to_le_bytes(h.0),
        }
    }

    fn is_valid(&self) -> (r: bool) {
        match self {
            TestCheckTxOutcome::Success(_) => true,
            TestCheckTxOutcome::Error(..) => false,
        }
    }

    fn hash(&self) -> (h: TxHash) {
        match self {
            TestCheckTxOutcome::Success(hash) => hash.to_tx_hash(),
            TestCheckTxOutcome::Error(hash, _) => hash.to_tx_hash(),
        }
    }
}

/// The test application.
pub struct TestMempoolApp;

impl MempoolApp for TestMempoolApp {
    type Outcome = TestCheckTxOutcome;

    /// Decodes the transaction; transaction 9999 is refused, every other one
    /// accepted, and bytes that do not decode make the check fail.
    fn check_tx(&self, tx: &RawTx) -> (r: Result<TestCheckTxOutcome, String>)
        ensures
            tx@.len() == 8 && spec_u64_from_le_bytes(tx@) == 9999 ==> (r matches Ok(
                TestCheckTxOutcome::Error(h, m),
            ) && h.0 == 9999 && m@ == refused_text()),
            tx@.len() == 8 && spec_u64_from_le_bytes(tx@) != 9999 ==> r == Ok::<
                TestCheckTxOutcome,
                String,
            >(TestCheckTxOutcome::Success(TestTxHash(spec_u64_from_le_bytes(tx@)))),
            tx@.len() != 8 ==> (r matches Err(m) && m@ == "Deserialization failed: "@
                + wrong_length_text()),
            tx@.len() == 8 ==> (r matches Ok(o) && (o is Success <==> spec_u64_from_le_bytes(tx@)
                != 9999)),
    {
        let bytes = tx.to_vec();
        match TestTx::deserialize(bytes.as_slice()) {
            Ok(test_tx) => {
                let tx_hash = test_tx.hash();
                if test_tx.0 == 9999 {
                    Ok(
                        TestCheckTxOutcome::Error(
                            tx_hash,
                            String::from_str("Transaction 9999 is not allowed"),
                        ),
                    )
                } else {
                    Ok(TestCheckTxOutcome::Success(tx_hash))
                }
            },
            Err(e) => Err(e.message()),
        }
    }
}

} // verus!
