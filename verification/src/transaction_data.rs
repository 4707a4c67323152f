//! Transaction data: a payload cut into chunks and the commitment to it.

use vstd::prelude::*;
use vstd::slice::{slice_subrange, slice_to_vec};

verus! {

/// Largest number of bytes in one chunk: 256 KiB.
pub const CHUNK_SIZE: usize = 256 * 1024;

/// Largest number of bytes in a data path.
pub const PATH_SIZE: usize = 256 * 1024;

/// A payload must be shorter than this: 10 MiB.
pub const MAXIMUM_DATA_PAYLOAD: u32 = 10 * 1024 * 1024;

/// Number of chunks that a payload of `len` bytes is cut into: `len / CHUNK_SIZE`, rounded up.
pub open spec fn chunk_count(len: nat) -> nat {
    if len % (CHUNK_SIZE as nat) == 0 {
        len / (CHUNK_SIZE as nat)
    } else {
        len / (CHUNK_SIZE as nat) + 1
    }
}

/// Where chunk `i` of a payload of `len` bytes ends.
pub open spec fn chunk_end(len: nat, i: int) -> int {
    if (i + 1) * CHUNK_SIZE <= len {
        (i + 1) * CHUNK_SIZE
    } else {
        len as int
    }
}

/// Chunk `i` of a payload: the bytes from `i * CHUNK_SIZE` up to the next boundary, or to
/// the end of the payload where that comes first.
pub open spec fn chunk_at(payload: Seq<u8>, i: int) -> Seq<u8> {
    payload.subrange(i * CHUNK_SIZE, chunk_end(payload.len(), i))
}

/// The chunks of a payload, from left to right.
pub open spec fn chunks_of(payload: Seq<u8>) -> Seq<Seq<u8>> {
    Seq::new(chunk_count(payload.len()), |i: int| chunk_at(payload, i))
}

/// The byte sequences that a vector of chunks holds.
pub open spec fn chunk_views(chunks: Seq<Vec<u8>>) -> Seq<Seq<u8>> {
    Seq::new(chunks.len(), |i: int| chunks[i]@)
}

/// Root of the Blake2-256 trie, in the layout of state version 0, that holds each of the
/// byte strings under its position in the sequence.
pub uninterp spec fn ordered_trie_root(items: Seq<Seq<u8>>) -> Seq<u8>;

/// The commitment to a payload: its length and the trie root over its chunks.
#[derive(Debug, Clone, Copy, PartialEq, Eq)]
pub struct DataInfo {
    /// Length of the payload in bytes.
    pub size: u64,
    /// Trie root over the payload's chunks, in order.
    pub chunk_root: [u8; 32],
}

/// Says that `info` is the commitment to `payload`.
pub open spec fn commits_to(info: DataInfo, payload: Seq<u8>) -> bool {
    &&& info.size == payload.len()
    &&& info.chunk_root@ == ordered_trie_root(chunks_of(payload))
}

/// Cuts a payload into chunks of `CHUNK_SIZE` bytes; the last one may be shorter.
pub fn split_chunks(payload: &[u8]) -> (chunks: Vec<Vec<u8>>)
    ensures
        chunk_views(chunks@) == chunks_of(payload@),
        chunks@.len() == chunk_count(payload@.len()),
{
    let len: usize = payload.len();
    let mut chunks: Vec<Vec<u8>> = Vec::new();
    let mut start: usize = 0;
    while len - start > CHUNK_SIZE
        invariant
            len == payload@.len(),
            start <= len,
            start == chunks@.len() * CHUNK_SIZE,
            forall|j: int| 0 <= j < chunks@.len() ==> (#[trigger] chunks@[j])@ == chunk_at(payload@, j),
        decreases len - start,
    {
        let piece = slice_to_vec(slice_subrange(payload, start, start + CHUNK_SIZE));
        chunks.push(piece);
        start = start + CHUNK_SIZE;
        assert(CHUNK_SIZE == 262144);
    }
    if start < len {
        let piece = slice_to_vec(slice_subrange(payload, start, len));
        chunks.push(piece);
    }
    assert(chunk_views(chunks@) =~= chunks_of(payload@));
    chunks
}

/// Calls `sp_runtime::traits::BlakeTwo256::ordered_trie_root` with the state version `V0`.
/// Believed, not proved: the 32 bytes that come back are a function of the byte strings
/// handed in and of their order, and of nothing else.
#[verifier::external_body]
fn blake2_256_ordered_root(chunks: Vec<Vec<u8>>) -> (root: [u8; 32])
    ensures
        root@ == ordered_trie_root(chunk_views(chunks@)),
{
    <sp_runtime::traits::BlakeTwo256 as sp_runtime::traits::Hash>::ordered_trie_root(
        chunks,
        sp_runtime::StateVersion::V0,
    ).to_fixed_bytes()
}

/// What can be wrong with a payload.
#[derive(Debug, Clone, Copy, PartialEq, Eq, Structural)]
pub enum PayloadError {
    /// The payload has `MAXIMUM_DATA_PAYLOAD` bytes or more.
    OversizedPayload,
}

/// Compares two roots byte by byte.
pub fn same_root(a: &[u8; 32], b: &[u8; 32]) -> (same: bool)
    ensures
        same == (a@ == b@),
{
    let mut i: usize = 0;
    while i < 32
        invariant
            i <= 32,
            forall|j: int| 0 <= j < i ==> a@[j] == b@[j],
        decreases 32 - i,
    {
        if a[i] != b[i] {
            return false;
        }
        i = i + 1;
    }
    assert(a@ =~= b@);
    true
}

impl Default for DataInfo {
    /// The commitment of size zero with a root of zeros.
    fn default() -> (info: DataInfo)
        ensures
            info.size == 0,
            info.chunk_root@ == Seq::new(32, |i: int| 0u8),
    {
        let info = DataInfo { size: 0, chunk_root: [0u8;32] };
        assert(info.chunk_root@ =~= Seq::new(32, |i: int| 0u8));
        info
    }
}

impl DataInfo {
    /// The commitment made of a payload's length and of the root over its chunks.
    pub fn from_root(len: usize, root: [u8; 32]) -> (info: DataInfo)
        ensures
            info.size == len,
            info.chunk_root == root,
    {
        DataInfo { size: len as u64, chunk_root: root }
    }

    /// The commitment to `payload`: its length and the ordered trie root over its chunks.
    pub fn compute(payload: &[u8]) -> (info: DataInfo)
        ensures
            commits_to(info, payload@),
    {
        let chunks = split_chunks(payload);
        let root = blake2_256_ordered_root(chunks);
        DataInfo::from_root(payload.len(), root)
    }

    /// Whether two commitments have the same size and the same root.
    pub fn same_as(&self, other: &DataInfo) -> (same: bool)
        ensures
            same == (self.size == other.size && self.chunk_root@ == other.chunk_root@),
    {
        self.size == other.size && same_root(&self.chunk_root, &other.chunk_root)
    }
}

/// The raw bytes of a payload.
#[derive(Debug, Clone, PartialEq, Eq)]
pub struct DataPayload(pub Vec<u8>);

impl From<Vec<u8>> for DataPayload {
    /// Wraps raw bytes, of any length.
    fn from(inner: Vec<u8>) -> (payload: DataPayload) {
        DataPayload(inner)
    }
}

impl vstd::std_specs::convert::FromSpecImpl<Vec<u8>> for DataPayload {
    open spec fn obeys_from_spec() -> bool {
        true
    }

    open spec fn from_spec(inner: Vec<u8>) -> DataPayload {
        DataPayload(inner)
    }
}

impl View for DataPayload {
    type V = Seq<u8>;

    open spec fn view(&self) -> Seq<u8> {
        self.0@
    }
}

impl DataPayload {
    /// Whether the payload is shorter than `MAXIMUM_DATA_PAYLOAD`.
    pub fn is_valid(&self) -> (valid: bool)
        ensures
            valid == (self@.len() < MAXIMUM_DATA_PAYLOAD),
    {
        self.0.len() < MAXIMUM_DATA_PAYLOAD as usize
    }

    /// The bytes of the payload.
    pub fn as_bytes(&self) -> (bytes: &[u8])
        ensures
            bytes@ == self@,
    {
        self.0.as_slice()
    }
}

/// The data of a transaction: the commitment, and the payload where the node holds it.
#[derive(Debug, Clone, PartialEq, Eq)]
pub struct TransactionData {
    /// The raw bytes, where they are at hand.
    pub payload: Option<DataPayload>,
    /// The commitment to the payload.
    pub info: DataInfo,
}

impl TransactionData {
    /// Says that the commitment fits the payload, where there is one.
    pub open spec fn consistent(&self) -> bool {
        self.payload matches Some(p) ==> commits_to(self.info, p@)
    }

    /// Builds the transaction data of a payload, which must be shorter than
    /// `MAXIMUM_DATA_PAYLOAD`.
    pub fn from_payload(raw_bytes: Vec<u8>) -> (made: Result<TransactionData, PayloadError>)
        ensures
            made is Ok <==> raw_bytes@.len() < MAXIMUM_DATA_PAYLOAD,
            made matches Ok(data) ==> data.payload == Some(DataPayload(raw_bytes))
                && commits_to(data.info, raw_bytes@),
            made matches Err(e) ==> e == PayloadError::OversizedPayload,
    {
        let payload = DataPayload::from(raw_bytes);
        if !payload.is_valid() {
            return Err(PayloadError::OversizedPayload);
        }
        let info = DataInfo::compute(payload.as_bytes());
        Ok(TransactionData { payload: Some(payload), info })
    }

    /// Transaction data of which only the commitment is known.
    pub fn from_info_only(info: DataInfo) -> (data: TransactionData)
        ensures
            data.payload is None,
            data.info == info,
    {
        TransactionData { payload: None, info }
    }

    /// Computes the commitment from the payload again and compares it with `info`. Data
    /// without a payload has nothing to compare and passes.
    pub fn verify(&self) -> (consistent: bool)
        ensures
            consistent == self.consistent(),
    {
        match &self.payload {
            Some(payload) => {
                let recomputed = DataInfo::compute(payload.as_bytes());
                self.info.same_as(&recomputed)
            },
            None => true,
        }
    }
}

/// Transaction data with the Blake2-256 commitment.
pub type Data = TransactionData;

/// Two commitments to one payload are the same commitment.
pub proof fn lemma_commitment_is_determined(payload: Seq<u8>, first: DataInfo, second: DataInfo)
    requires
        commits_to(first, payload),
        commits_to(second, payload),
    ensures
        first == second,
{
    assert(first.chunk_root@ =~= second.chunk_root@);
    assert(first.chunk_root == second.chunk_root);
}

/// The number of chunks is the payload's length divided by `CHUNK_SIZE`, rounded up: the
/// least count whose chunks can hold the payload. An empty payload has no chunk.
pub proof fn lemma_chunk_count(payload: Seq<u8>)
    ensures
        chunks_of(payload).len() == chunk_count(payload.len()),
        payload.len() == 0 ==> chunks_of(payload).len() == 0,
        chunks_of(payload).len() * CHUNK_SIZE >= payload.len(),
        payload.len() > 0 ==> (chunks_of(payload).len() - 1) * CHUNK_SIZE < payload.len(),
{
}

/// Every chunk holds between one and `CHUNK_SIZE` bytes, every chunk but the last holds
/// exactly `CHUNK_SIZE`, and byte `k` of chunk `i` is byte `i * CHUNK_SIZE + k` of the payload.
pub proof fn lemma_chunks_partition(payload: Seq<u8>, i: int)
    requires
        0 <= i < chunks_of(payload).len(),
    ensures
        0 < chunks_of(payload)[i].len() <= CHUNK_SIZE,
        i + 1 < chunks_of(payload).len() ==> chunks_of(payload)[i].len() == CHUNK_SIZE,
        i * CHUNK_SIZE + chunks_of(payload)[i].len() <= payload.len(),
        i + 1 == chunks_of(payload).len() ==> i * CHUNK_SIZE + chunks_of(payload)[i].len()
            == payload.len(),
        forall|k: int|
            0 <= k < chunks_of(payload)[i].len() ==> #[trigger] chunks_of(payload)[i][k]
                == payload[i * CHUNK_SIZE + k],
{
}

/// Every byte of the payload stands in a chunk: byte `k` is byte `k % CHUNK_SIZE` of chunk
/// `k / CHUNK_SIZE`.
pub proof fn lemma_byte_in_chunk(payload: Seq<u8>, k: int)
    requires
        0 <= k < payload.len(),
    ensures
        0 <= k / (CHUNK_SIZE as int) < chunks_of(payload).len(),
        0 <= k % (CHUNK_SIZE as int) < chunks_of(payload)[k / (CHUNK_SIZE as int)].len(),
        chunks_of(payload)[k / (CHUNK_SIZE as int)][k % (CHUNK_SIZE as int)] == payload[k],
{
}

/// Payloads with the same chunks are the same payload: the chunks lose nothing.
pub proof fn lemma_chunks_determine_payload(first: Seq<u8>, second: Seq<u8>)
    requires
        chunks_of(first) == chunks_of(second),
    ensures
        first == second,
{
    let n = chunks_of(first).len() as int;
    lemma_chunk_count(first);
    lemma_chunk_count(second);
    if n > 0 {
        lemma_chunks_partition(first, n - 1);
        lemma_chunks_partition(second, n - 1);
    }
    assert(first.len() == second.len());
    assert forall|k: int| 0 <= k < first.len() implies first[k] == second[k] by {
        lemma_byte_in_chunk(first, k);
        lemma_byte_in_chunk(second, k);
    }
    assert(first =~= second);
}

} // verus!
