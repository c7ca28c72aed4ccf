//! The host's mempool settings and how the mempool's limits follow from them.

use crate::mempool::MempoolConfig;
use bytesize::ByteSize;
use vstd::prelude::*;

verus! {

#[verifier::external_type_specification]
#[verifier::external_body]
pub struct ExByteSize(ByteSize);

/// The number of bytes a `ByteSize` stands for (what `ByteSize::as_u64`
/// returns).
pub uninterp spec fn byte_count(size: ByteSize) -> u64;

/// `ByteSize::as_u64`: the number of bytes.
#[verifier::external_body]
fn bytesize_as_u64(size: &ByteSize) -> (n: u64)
    ensures
        n == byte_count(*size),
{
    size.as_u64()
}

/// `ByteSize::b`: exactly `n` bytes.
#[verifier::external_body]
fn bytesize_b(n: u64) -> (size: ByteSize)
    ensures
        byte_count(size) == n,
{
    ByteSize::b(n)
}

/// `ByteSize::kb`: `n` kilobytes of 1000 bytes.
#[verifier::external_body]
fn bytesize_kb(n: u64) -> (size: ByteSize)
    requires
        n * 1000 <= u64::MAX,
    ensures
        byte_count(size) == n * 1000,
{
    ByteSize::kb(n)
}

/// `ByteSize::mb`: `n` megabytes of 1000 * 1000 bytes.
#[verifier::external_body]
fn bytesize_mb(n: u64) -> (size: ByteSize)
    requires
        n * 1000000 <= u64::MAX,
    ensures
        byte_count(size) == n * 1000000,
{
    ByteSize::mb(n)
}

/// The host's mempool settings (the peer-to-peer addresses are kept by the
/// host itself).
pub struct HostMempoolConfig {
    /// Seconds after which an idle connection is closed.
    pub idle_connection_timeout_secs: u64,
    /// The most bytes of transactions in a block.
    pub max_txs_bytes: ByteSize,
    /// The expected size of one transaction.
    pub avg_tx_bytes: ByteSize,
}

impl HostMempoolConfig {
    /// Builds settings from byte counts.
    pub fn from_bytes(idle_connection_timeout_secs: u64, max_txs_bytes: u64, avg_tx_bytes: u64) -> (c: HostMempoolConfig)
        ensures
            c.idle_connection_timeout_secs == idle_connection_timeout_secs,
            byte_count(c.max_txs_bytes) == max_txs_bytes,
            byte_count(c.avg_tx_bytes) == avg_tx_bytes,
    {
        HostMempoolConfig {
            idle_connection_timeout_secs,
            max_txs_bytes: bytesize_b(max_txs_bytes),
            avg_tx_bytes: bytesize_b(avg_tx_bytes),
        }
    }

    /// The block byte limit, in bytes.
    pub fn max_txs_bytes(&self) -> (n: u64)
        ensures
            n == byte_count(self.max_txs_bytes),
    {
        bytesize_as_u64(&self.max_txs_bytes)
    }

    /// The expected transaction size, in bytes.
    pub fn avg_tx_bytes(&self) -> (n: u64)
        ensures
            n == byte_count(self.avg_tx_bytes),
    {
        bytesize_as_u64(&self.avg_tx_bytes)
    }

    /// The mempool's limits: the block byte limit, and as many transactions
    /// per block as average-sized ones fit in it (rounded down).
    pub fn mempool_config(&self) -> (c: MempoolConfig)
        requires
            byte_count(self.avg_tx_bytes) > 0,
        ensures
            c.max_txs_bytes == byte_count(self.max_txs_bytes),
            c.max_txs_per_block == (byte_count(self.max_txs_bytes) / byte_count(
                self.avg_tx_bytes,
            )) as usize,
    {
        let max = self.max_txs_bytes();
        let avg = self.avg_tx_bytes();
        MempoolConfig::from_limits(max, avg)
    }

    /// The mempool's limits, or `None` when the expected transaction size is
    /// zero (no number of transactions per block follows from it).
    pub fn try_mempool_config(&self) -> (c: Option<MempoolConfig>)
        ensures
            byte_count(self.avg_tx_bytes) == 0 ==> c is None,
            byte_count(self.avg_tx_bytes) > 0 ==> c == Some(
                MempoolConfig {
                    max_txs_bytes: byte_count(self.max_txs_bytes),
                    max_txs_per_block: (byte_count(self.max_txs_bytes) / byte_count(
                        self.avg_tx_bytes,
                    )) as usize,
                },
            ),
    {
        if self.avg_tx_bytes() == 0 {
            None
        } else {
            Some(self.mempool_config())
        }
    }
}

impl Default for HostMempoolConfig {
    /// 30 s idle timeout, 4 MB of transactions per block, 100 kB per transaction.
    fn default() -> (c: Self)
        ensures
            c.idle_connection_timeout_secs == 30,
            byte_count(c.max_txs_bytes) == 4000000,
            byte_count(c.avg_tx_bytes) == 100000,
    {
        HostMempoolConfig {
            idle_connection_timeout_secs: 30,
            max_txs_bytes: bytesize_mb(4),
            avg_tx_bytes: bytesize_kb(100),
        }
    }
}

} // verus!
