//! The vector store around lesson embeddings: the `vectors.bin` header,
//! the integrity report, and the backends reserved for later milestones.
//!
//! `vectors.bin` layout (little-endian):
//!
//! ```text
//! offset  size  field
//! 0x00    4     magic "MYEV"
//! 0x04    2     version = 1
//! 0x06    2     dimension = 384
//! 0x08    4     count
//! 0x0C    8     generation
//! 0x14    12    reserved (zero)
//! 0x20    ...   count * 384 * 4 bytes of f32 rows
//! ```

use vstd::prelude::*;

verus! {

/// Dimensions of an embedding (multilingual-e5-small).
pub const EMBEDDING_DIM: usize = 384;

/// The file format version.
pub const HEADER_VERSION: u16 = 1;

/// Bytes before the first row.
pub const HEADER_SIZE: usize = 32;

/// What `integrity_check` found.
#[derive(Debug, Clone, Copy, PartialEq, Eq, Structural)]
pub struct IntegrityReport {
    pub total_vectors: usize,
    pub index_consistent: bool,
    pub generation_match: bool,
    pub norm_anomalies: usize,
}

impl IntegrityReport {
    /// Healthy: the index is consistent, the generation matches the file,
    /// and no vector has an anomalous norm.
    pub fn is_healthy(&self) -> (b: bool)
        ensures
            b == (self.index_consistent && self.generation_match && self.norm_anomalies == 0),
    {
        self.index_consistent && self.generation_match && self.norm_anomalies == 0
    }
}

/// Why a store could not be used.
#[derive(Debug, Clone, Copy, PartialEq, Eq, Structural)]
pub enum StoreError {
    /// The sqlite-vec backend activates at Milestone B.
    SqliteVecNotActive,
    /// The usearch backend activates at Milestone B.
    UsearchNotActive,
}

/// The message of a store error.
pub open spec fn store_error_text(e: StoreError) -> Seq<char> {
    match e {
        StoreError::SqliteVecNotActive => "SqliteVecStore activates at Milestone B \u{2014} see DECISIONS.md Decision 1"@,
        StoreError::UsearchNotActive => "UsearchStore activates at Milestone B \u{2014} see DECISIONS.md Decision 1"@,
    }
}

impl StoreError {
    /// The error message.
    pub fn to_string(&self) -> (s: String)
        ensures
            s@ == store_error_text(*self),
    {
        match self {
            StoreError::SqliteVecNotActive => "SqliteVecStore activates at Milestone B \u{2014} see DECISIONS.md Decision 1".to_owned(),
            StoreError::UsearchNotActive => "UsearchStore activates at Milestone B \u{2014} see DECISIONS.md Decision 1".to_owned(),
        }
    }
}

/// The sqlite-vec backend (Milestone B, when in-memory KNN gets slow).
pub struct SqliteVecStore;

impl SqliteVecStore {
    /// Always refused until Milestone B.
    pub fn new() -> (r: Result<SqliteVecStore, StoreError>)
        ensures
            r == Err::<SqliteVecStore, StoreError>(StoreError::SqliteVecNotActive),
    {
        Err(StoreError::SqliteVecNotActive)
    }
}

/// The usearch backend (Milestone B alternative).
pub struct UsearchStore;

impl UsearchStore {
    /// Always refused until Milestone B.
    pub fn new() -> (r: Result<UsearchStore, StoreError>)
        ensures
            r == Err::<UsearchStore, StoreError>(StoreError::UsearchNotActive),
    {
        Err(StoreError::UsearchNotActive)
    }
}

/// The fields of a `vectors.bin` header that vary.
#[derive(Debug, Clone, Copy, PartialEq, Eq, Structural)]
pub struct VectorsHeader {
    pub count: u32,
    pub generation: u64,
}

/// Why a `vectors.bin` header was rejected.
#[derive(Debug, Clone, Copy, PartialEq, Eq, Structural)]
pub enum HeaderError {
    /// Fewer than 32 bytes.
    Truncated,
    /// The first four bytes are not `MYEV`.
    BadMagic,
    /// The version is not 1.
    UnsupportedVersion(u16),
    /// The dimension is not 384.
    DimensionMismatch(u16),
}

/// Little-endian value of two bytes.
pub open spec fn le16(b0: u8, b1: u8) -> nat {
    b0 as nat + b1 as nat * 256
}

/// Little-endian value of four bytes.
pub open spec fn le32(b: Seq<u8>, at: int) -> nat {
    b[at] as nat + b[at + 1] as nat * 0x100 + b[at + 2] as nat * 0x10000 + b[at + 3] as nat
        * 0x1000000
}

/// Little-endian value of eight bytes.
pub open spec fn le64(b: Seq<u8>, at: int) -> nat {
    le32(b, at) + le32(b, at + 4) * 0x1_0000_0000
}

/// The magic bytes `MYEV`.
pub open spec fn magic() -> Seq<u8> {
    seq![0x4du8, 0x59u8, 0x45u8, 0x56u8]
}

/// What a header says, or why it is rejected: too short, wrong magic,
/// wrong version, wrong dimension, in that order.
pub open spec fn header_of(b: Seq<u8>) -> Result<VectorsHeader, HeaderError> {
    if b.len() < HEADER_SIZE {
        Err(HeaderError::Truncated)
    } else if b.take(4) != magic() {
        Err(HeaderError::BadMagic)
    } else if le16(b[4], b[5]) != 1 {
        Err(HeaderError::UnsupportedVersion(le16(b[4], b[5]) as u16))
    } else if le16(b[6], b[7]) != EMBEDDING_DIM {
        Err(HeaderError::DimensionMismatch(le16(b[6], b[7]) as u16))
    } else {
        Ok(VectorsHeader { count: le32(b, 8) as u32, generation: le64(b, 12) as u64 })
    }
}

/// The 32 header bytes for `count` rows at `generation`.
pub open spec fn header_bytes(count: u32, generation: u64) -> Seq<u8> {
    magic() + seq![1u8, 0u8, 0x80u8, 0x01u8] + seq![
        (count & 0xff) as u8,
        ((count >> 8u32) & 0xff) as u8,
        ((count >> 16u32) & 0xff) as u8,
        ((count >> 24u32) & 0xff) as u8,
    ] + seq![
        (generation & 0xff) as u8,
        ((generation >> 8u64) & 0xff) as u8,
        ((generation >> 16u64) & 0xff) as u8,
        ((generation >> 24u64) & 0xff) as u8,
        ((generation >> 32u64) & 0xff) as u8,
        ((generation >> 40u64) & 0xff) as u8,
        ((generation >> 48u64) & 0xff) as u8,
        ((generation >> 56u64) & 0xff) as u8,
    ] + Seq::new(12, |i: int| 0u8)
}

/// The header bytes for `count` rows at `generation`.
pub fn encode_header(count: u32, generation: u64) -> (r: Vec<u8>)
    ensures
        r@ == header_bytes(count, generation),
        r@.len() == HEADER_SIZE,
{
    let mut r: Vec<u8> = Vec::new();
    r.push(0x4d);
    r.push(0x59);
    r.push(0x45);
    r.push(0x56);
    r.push(1);
    r.push(0);
    r.push(0x80);
    r.push(0x01);
    r.push((count & 0xff) as u8);
    r.push(((count >> 8u32) & 0xff) as u8);
    r.push(((count >> 16u32) & 0xff) as u8);
    r.push(((count >> 24u32) & 0xff) as u8);
    r.push((generation & 0xff) as u8);
    r.push(((generation >> 8u64) & 0xff) as u8);
    r.push(((generation >> 16u64) & 0xff) as u8);
    r.push(((generation >> 24u64) & 0xff) as u8);
    r.push(((generation >> 32u64) & 0xff) as u8);
    r.push(((generation >> 40u64) & 0xff) as u8);
    r.push(((generation >> 48u64) & 0xff) as u8);
    r.push(((generation >> 56u64) & 0xff) as u8);
    let mut i: usize = 0;
    while i < 12
        invariant
            i <= 12,
            r@.len() == 20 + i,
            forall|k: int| 20 <= k < r@.len() ==> r@[k] == 0u8,
            r@.take(20) == header_bytes(count, generation).take(20),
        decreases 12 - i,
    {
        r.push(0);
        i += 1;
        assert(r@.take(20) =~= r@.drop_last().take(20));
    }
    proof {
        let hb = header_bytes(count, generation);
        let a = magic() + seq![1u8, 0u8, 0x80u8, 0x01u8] + seq![
            (count & 0xff) as u8,
            ((count >> 8u32) & 0xff) as u8,
            ((count >> 16u32) & 0xff) as u8,
            ((count >> 24u32) & 0xff) as u8,
        ] + seq![
            (generation & 0xff) as u8,
            ((generation >> 8u64) & 0xff) as u8,
            ((generation >> 16u64) & 0xff) as u8,
            ((generation >> 24u64) & 0xff) as u8,
            ((generation >> 32u64) & 0xff) as u8,
            ((generation >> 40u64) & 0xff) as u8,
            ((generation >> 48u64) & 0xff) as u8,
            ((generation >> 56u64) & 0xff) as u8,
        ];
        let z = Seq::new(12, |i: int| 0u8);
        assert(hb == a + z);
        assert(a.len() == 20);
        assert forall|k: int| 0 <= k < 32 implies r@[k] == hb[k] by {
            if k < 20 {
                assert(r@[k] == r@.take(20)[k]);
                assert(hb[k] == hb.take(20)[k]);
            } else {
                assert(hb[k] == z[k - 20]);
            }
        }
    }
    assert(r@ =~= header_bytes(count, generation));
    r
}

/// Reads the header at the start of `b` (see `header_of`).
pub fn decode_header(b: &[u8]) -> (r: Result<VectorsHeader, HeaderError>)
    ensures
        r == header_of(b@),
{
    if b.len() < HEADER_SIZE {
        return Err(HeaderError::Truncated);
    }
    if !(b[0] == 0x4d && b[1] == 0x59 && b[2] == 0x45 && b[3] == 0x56) {
        assert(b@.take(4) != magic()) by {
            if b@.take(4) == magic() {
                assert(b@.take(4)[0] == b@[0]);
                assert(b@.take(4)[1] == b@[1]);
                assert(b@.take(4)[2] == b@[2]);
                assert(b@.take(4)[3] == b@[3]);
            }
        }
        return Err(HeaderError::BadMagic);
    }
    assert(b@.take(4) =~= magic());
    let version: u16 = b[4] as u16 + b[5] as u16 * 256;
    if version != 1 {
        return Err(HeaderError::UnsupportedVersion(version));
    }
    let dim: u16 = b[6] as u16 + b[7] as u16 * 256;
    if dim != 384 {
        return Err(HeaderError::DimensionMismatch(dim));
    }
    let count: u32 = b[8] as u32 + b[9] as u32 * 0x100 + b[10] as u32 * 0x10000 + b[11] as u32
        * 0x1000000;
    let lo: u64 = b[12] as u64 + b[13] as u64 * 0x100 + b[14] as u64 * 0x10000 + b[15] as u64
        * 0x1000000;
    let hi: u64 = b[16] as u64 + b[17] as u64 * 0x100 + b[18] as u64 * 0x10000 + b[19] as u64
        * 0x1000000;
    let generation: u64 = lo + hi * 0x1_0000_0000;
    Ok(VectorsHeader { count, generation })
}

/// Decoding an encoded header gives back its count and generation.
pub proof fn lemma_header_roundtrip(count: u32, generation: u64)
    ensures
        header_of(header_bytes(count, generation)) == Ok::<VectorsHeader, HeaderError>(
            VectorsHeader { count, generation },
        ),
{
    let b = header_bytes(count, generation);
    assert(b.take(4) =~= magic());
    assert(b[4] == 1u8 && b[5] == 0u8 && b[6] == 0x80u8 && b[7] == 0x01u8);
    assert(b[8] == (count & 0xff) as u8);
    assert(b[9] == ((count >> 8u32) & 0xff) as u8);
    assert(b[10] == ((count >> 16u32) & 0xff) as u8);
    assert(b[11] == ((count >> 24u32) & 0xff) as u8);
    assert(((count & 0xff) as u8) as nat + (((count >> 8u32) & 0xff) as u8) as nat * 0x100 + ((
    (count >> 16u32) & 0xff) as u8) as nat * 0x10000 + (((count >> 24u32) & 0xff) as u8) as nat
        * 0x1000000 == count) by (bit_vector);
    assert(b[12] == (generation & 0xff) as u8);
    assert(b[13] == ((generation >> 8u64) & 0xff) as u8);
    assert(b[14] == ((generation >> 16u64) & 0xff) as u8);
    assert(b[15] == ((generation >> 24u64) & 0xff) as u8);
    assert(b[16] == ((generation >> 32u64) & 0xff) as u8);
    assert(b[17] == ((generation >> 40u64) & 0xff) as u8);
    assert(b[18] == ((generation >> 48u64) & 0xff) as u8);
    assert(b[19] == ((generation >> 56u64) & 0xff) as u8);
    assert(((generation & 0xff) as u8) as nat + (((generation >> 8u64) & 0xff) as u8) as nat
        * 0x100 + (((generation >> 16u64) & 0xff) as u8) as nat * 0x10000 + (((generation
        >> 24u64) & 0xff) as u8) as nat * 0x1000000 + ((((generation >> 32u64) & 0xff) as u8) as nat
        + (((generation >> 40u64) & 0xff) as u8) as nat * 0x100 + (((generation >> 48u64) & 0xff)
        as u8) as nat * 0x10000 + (((generation >> 56u64) & 0xff) as u8) as nat * 0x1000000)
        * 0x1_0000_0000 == generation) by (bit_vector);
}

/// Bytes of row data for `count` rows.
pub open spec fn payload_len(count: nat) -> nat {
    count * (EMBEDDING_DIM as nat) * 4
}

/// The byte length of the rows following a header with this count.
pub fn payload_bytes(count: u32) -> (n: u64)
    ensures
        n == payload_len(count as nat),
{
    count as u64 * 384 * 4
}

} // verus!
