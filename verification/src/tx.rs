//! Raw transactions and transaction hashes, both held in `bytes::Bytes`
//! buffers (re-exported by `prost`).

use prost::bytes::Bytes;
use vstd::prelude::*;
use vstd::string::*;

verus! {

#[verifier::external_type_specification]
#[verifier::external_body]
pub struct ExBytes(Bytes);

/// The bytes held by a `Bytes` buffer, in order.
pub uninterp spec fn bytes_content(b: Bytes) -> Seq<u8>;

/// `Bytes::from(Vec<u8>)`: the buffer takes over the vector and holds exactly
/// its bytes.
#[verifier::external_body]
pub(crate) fn bytes_from_vec(v: Vec<u8>) -> (b: Bytes)
    ensures
        bytes_content(b) == v@,
{
    Bytes::from(v)
}

/// `Bytes::len`: the number of bytes in the buffer.
#[verifier::external_body]
pub(crate) fn bytes_len(b: &Bytes) -> (n: usize)
    ensures
        n as nat == bytes_content(*b).len(),
{
    b.len()
}

/// `Bytes::is_empty`: whether the buffer holds no byte.
#[verifier::external_body]
pub(crate) fn bytes_is_empty(b: &Bytes) -> (r: bool)
    ensures
        r == (bytes_content(*b).len() == 0),
{
    b.is_empty()
}

/// `<[u8]>::to_vec` on the slice a `Bytes` buffer dereferences to: a fresh
/// vector with the same bytes.
#[verifier::external_body]
pub(crate) fn bytes_to_vec(b: &Bytes) -> (v: Vec<u8>)
    ensures
        v@ == bytes_content(*b),
{
    b.to_vec()
}

/// `<Bytes as Clone>::clone`: a second handle on the same bytes.
#[verifier::external_body]
pub(crate) fn bytes_clone(b: &Bytes) -> (c: Bytes)
    ensures
        bytes_content(c) == bytes_content(*b),
{
    b.clone()
}

/// `<Bytes as PartialEq>::eq`: two buffers are equal when they hold the same
/// bytes.
#[verifier::external_body]
pub(crate) fn bytes_eq(a: &Bytes, b: &Bytes) -> (r: bool)
    ensures
        r == (bytes_content(*a) == bytes_content(*b)),
{
    a == b
}

/// What `Bytes` prints under the format `{:02x?}`: its `Debug` rendering of the
/// bytes (a byte-string literal with escapes).
pub uninterp spec fn bytes_debug_hex(bytes: Seq<u8>) -> Seq<char>;

/// `format!("{:02x?}", b)` on a `Bytes` buffer. The text depends on the bytes
/// alone; which text it is stays unsaid here (it is named by `bytes_debug_hex`).
#[verifier::external_body]
pub(crate) fn debug_hex_text(b: &Bytes) -> (s: String)
    ensures
        s@ == bytes_debug_hex(bytes_content(*b)),
{
    format!("{:02x?}", b)
}

/// How a transaction hash is shown to people.
pub open spec fn tx_hash_text(hash: Seq<u8>) -> Seq<char> {
    "TxHash("@ + bytes_debug_hex(hash) + ")"@
}

/// A transaction as it travels through the pool and the network: opaque bytes.
#[derive(Debug, PartialEq, Eq, Hash)]
pub struct RawTx(pub Bytes);

impl View for RawTx {
    type V = Seq<u8>;

    open spec fn view(&self) -> Seq<u8> {
        bytes_content(self.0)
    }
}

impl Clone for RawTx {
    fn clone(&self) -> (c: Self)
        ensures
            c@ == self@,
    {
        RawTx(bytes_clone(&self.0))
    }
}

impl RawTx {
    /// Builds a transaction from its bytes.
    pub fn from_vec(bytes: Vec<u8>) -> (tx: RawTx)
        ensures
            tx@ == bytes@,
    {
        RawTx(bytes_from_vec(bytes))
    }

    /// The size of the transaction in bytes.
    pub fn len(&self) -> (n: usize)
        ensures
            n as nat == self@.len(),
    {
        bytes_len(&self.0)
    }

    /// Whether the transaction holds no byte.
    pub fn is_empty(&self) -> (r: bool)
        ensures
            r == (self@.len() == 0),
    {
        bytes_is_empty(&self.0)
    }

    /// The bytes of the transaction, copied into a vector.
    pub fn to_vec(&self) -> (v: Vec<u8>)
        ensures
            v@ == self@,
    {
        bytes_to_vec(&self.0)
    }
}

/// The hash by which the application identifies a transaction.
#[derive(Debug, PartialEq, Eq, Hash)]
pub struct TxHash(pub Bytes);

impl View for TxHash {
    type V = Seq<u8>;

    open spec fn view(&self) -> Seq<u8> {
        bytes_content(self.0)
    }
}

impl Clone for TxHash {
    fn clone(&self) -> (c: Self)
        ensures
            c@ == self@,
    {
        TxHash(bytes_clone(&self.0))
    }
}

impl TxHash {
    /// Builds a hash from its bytes.
    pub fn from_vec(bytes: Vec<u8>) -> (h: TxHash)
        ensures
            h@ == bytes@,
    {
        TxHash(bytes_from_vec(bytes))
    }

    /// The text by which a hash is shown: `TxHash(` and the hex-escaped
    /// rendering of its bytes, then `)`.
    pub fn display_text(&self) -> (s: String)
        ensures
            s@ == tx_hash_text(self@),
    {
        let inner = debug_hex_text(&self.0);
        TxHash::text_from_debug(inner.as_str())
    }

    /// The shown text of a hash whose bytes render as `debug`.
    pub fn text_from_debug(debug: &str) -> (s: String)
        ensures
            s@ == "TxHash("@ + debug@ + ")"@,
    {
        let mut s = String::from_str("TxHash(");
        s.append(debug);
        s.append(")");
        s
    }

    /// Whether two hashes hold the same bytes.
    pub fn same_as(&self, other: &TxHash) -> (r: bool)
        ensures
            r == (self@ == other@),
    {
        bytes_eq(&self.0, &other.0)
    }
}

} // verus!
