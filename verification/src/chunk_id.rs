//! Addresses of rows in a multi-chunk table.

use vstd::prelude::*;

verus! {

/// Number of low bits of a packed address that hold the chunk index.
pub const CHUNK_BITS: u64 = 24;

/// The packed value that addresses no row.
pub const NULL_ADDRESS: u64 = 0xffff_ffff_ffff_ffff;

/// Address of one row of a table that is kept as a list of chunks: the chunk's
/// index in the low 24 bits, the row inside the chunk above them. The value
/// with all bits set addresses no row.
#[derive(Clone, Copy, Debug, PartialEq, Eq, Structural)]
pub struct ChunkId {
    pub swizzled: u64,
}

/// The packed form of `(chunk, row)`.
pub open spec fn pack(chunk: u32, row: u32) -> u64 {
    ((row as u64) << 24u64) | (chunk as u64)
}

impl ChunkId {
    /// The address of no row.
    pub open spec fn spec_null() -> ChunkId {
        ChunkId { swizzled: NULL_ADDRESS }
    }

    pub open spec fn spec_is_null(&self) -> bool {
        self.swizzled == NULL_ADDRESS
    }

    pub fn null() -> (id: ChunkId)
        ensures
            id == ChunkId::spec_null(),
    {
        ChunkId { swizzled: NULL_ADDRESS }
    }

    pub fn is_null(&self) -> (b: bool)
        ensures
            b == self.spec_is_null(),
    {
        self.swizzled == NULL_ADDRESS
    }

    /// Packs a chunk index below 2^24 and a row index into one address.
    pub fn store(chunk: u32, row: u32) -> (id: ChunkId)
        requires
            chunk < 0x100_0000,
        ensures
            id.swizzled == pack(chunk, row),
            !id.spec_is_null(),
    {
        let swizzled: u64 = ((row as u64) << 24u64) | (chunk as u64);
        proof {
            lemma_pack_is_not_null(chunk, row);
        }
        ChunkId { swizzled }
    }

    /// The chunk index and the row index that the address holds.
    pub fn extract(self) -> (parts: (u32, u32))
        ensures
            parts.0 == (self.swizzled & 0xff_ffff) as u32,
            parts.1 == (self.swizzled >> 24u64) as u32,
    {
        let row: u32 = #[verifier::truncate] ((self.swizzled >> 24u64) as u32);
        let chunk: u32 = #[verifier::truncate] ((self.swizzled & 0xff_ffff) as u32);
        (chunk, row)
    }

    pub fn from_inner(inner: u64) -> (id: ChunkId)
        ensures
            id.swizzled == inner,
    {
        ChunkId { swizzled: inner }
    }

    pub fn into_inner(self) -> (inner: u64)
        ensures
            inner == self.swizzled,
    {
        self.swizzled
    }
}

/// A packed pair never equals the address of no row.
pub proof fn lemma_pack_is_not_null(chunk: u32, row: u32)
    ensures
        pack(chunk, row) != NULL_ADDRESS,
{
    assert((((row as u64) << 24u64) | (chunk as u64)) != 0xffff_ffff_ffff_ffffu64) by (bit_vector);
}

/// What `store` packs, `extract` gives back: for a chunk index below 2^24 the
/// two parts of the packed address are the chunk and the row.
pub proof fn lemma_store_extract(chunk: u32, row: u32)
    requires
        chunk < 0x100_0000,
    ensures
        (pack(chunk, row) & 0xff_ffff) as u32 == chunk,
        (pack(chunk, row) >> 24u64) as u32 == row,
{
    assert(chunk < 0x100_0000u32 ==> ((((row as u64) << 24u64) | (chunk as u64)) & 0xff_ffffu64)
        as u32 == chunk) by (bit_vector);
    assert(chunk < 0x100_0000u32 ==> ((((row as u64) << 24u64) | (chunk as u64)) >> 24u64) as u32
        == row) by (bit_vector);
}

} // verus!
