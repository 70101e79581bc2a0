//! Resource-pack transfer engine: splits a named binary resource into
//! fixed-size chunks, serves chunk-by-index, and keeps the size, offset
//! and hash bookkeeping honest.
//!
//! The engine is stateless per request: every byte range is recomputed
//! from the chunk index, so requests may arrive in any order. Reading the
//! pack's bytes from storage is the content store's job; the engine is
//! handed the bytes and proves that each response carries exactly the
//! slice the index names.

use vstd::prelude::*;

verus! {

/// Metadata describing one downloadable content bundle: identity, total
/// size in bytes, a 32-byte content digest computed once when the pack is
/// resolved, and the fixed chunk size used to tile it.
pub struct ResourcePackDescriptor {
    pub identifier: String,
    pub version: String,
    pub total_size: u64,
    pub content_hash: Vec<u8>,
    pub chunk_size: u32,
}

/// Chunk size used by the observed protocol: 100 KiB.
pub const PROTOCOL_CHUNK_SIZE: u32 = 102400;

/// A client's request for one chunk of a named pack.
#[derive(Debug)]
pub struct ChunkRequest {
    pub resource_name: String,
    pub chunk_index: u32,
}

/// One served chunk: the byte range of the pack starting at
/// `byte_offset`, exactly `payload` long.
#[derive(Debug, PartialEq)]
pub struct ChunkResponse {
    pub resource_name: String,
    pub chunk_index: u32,
    pub byte_offset: u64,
    pub payload: Vec<u8>,
}

/// A chunk index at or past the chunk count is a protocol violation.
#[derive(Clone, Copy, Debug, PartialEq, Eq, Structural)]
pub enum TransferError {
    ChunkIndexOutOfRange,
}

impl ResourcePackDescriptor {
    /// A descriptor is well formed when its chunk size is positive and its
    /// digest carries the full 32 bytes.
    pub open spec fn wf(&self) -> bool {
        &&& self.chunk_size > 0
        &&& self.content_hash@.len() == 32
    }

    /// Number of chunks that tile the pack: the total size divided by the
    /// chunk size, rounded up.
    pub open spec fn spec_chunk_count(&self) -> int
        recommends
            self.chunk_size > 0,
    {
        if self.total_size as int % (self.chunk_size as int) == 0 {
            self.total_size as int / (self.chunk_size as int)
        } else {
            self.total_size as int / (self.chunk_size as int) + 1
        }
    }

    /// Where chunk `i` starts.
    pub open spec fn spec_byte_offset(&self, i: int) -> int {
        i * (self.chunk_size as int)
    }

    /// How long chunk `i` is: a full chunk, or whatever remains of the
    /// pack past its start.
    pub open spec fn spec_chunk_len(&self, i: int) -> int {
        if self.spec_byte_offset(i) + self.chunk_size <= self.total_size {
            self.chunk_size as int
        } else {
            self.total_size - self.spec_byte_offset(i)
        }
    }

    /// Every valid chunk starts strictly inside the pack.
    pub proof fn lemma_offset_in_bounds(&self, i: int)
        requires
            self.wf(),
            0 <= i < self.spec_chunk_count(),
        ensures
            0 <= self.spec_byte_offset(i) < self.total_size,
            self.spec_byte_offset(i) + self.spec_chunk_len(i) <= self.total_size,
            1 <= self.spec_chunk_len(i) <= self.chunk_size,
    {
        let t = self.total_size as int;
        let cs = self.chunk_size as int;
        let q = t / cs;
        let r = t % cs;
        vstd::arithmetic::div_mod::lemma_fundamental_div_mod(t, cs);
        assert(0 <= r < cs);
        assert(i * cs >= 0) by (nonlinear_arith)
            requires i >= 0 && cs > 0;
        if r == 0 {
            assert(i <= q - 1);
            assert(i * cs <= (q - 1) * cs) by (nonlinear_arith)
                requires i <= q - 1 && cs > 0;
            assert((q - 1) * cs == q * cs - cs) by (nonlinear_arith);
            assert(i * cs <= t - cs);
        } else {
            assert(i <= q);
            assert(i * cs <= q * cs) by (nonlinear_arith)
                requires i <= q && cs > 0;
            assert(i * cs <= t - r);
        }
    }

    /// The chunks together reach at least to the end of the pack.
    pub proof fn lemma_count_covers(&self)
        requires
            self.wf(),
        ensures
            self.spec_chunk_count() * (self.chunk_size as int) >= self.total_size,
            self.spec_chunk_count() >= 0,
            self.total_size == 0 ==> self.spec_chunk_count() == 0,
            self.total_size > 0 ==> self.spec_chunk_count() > 0,
    {
        let t = self.total_size as int;
        let cs = self.chunk_size as int;
        let q = t / cs;
        let r = t % cs;
        vstd::arithmetic::div_mod::lemma_fundamental_div_mod(t, cs);
        assert(0 <= r < cs);
        assert(q >= 0) by (nonlinear_arith)
            requires t >= 0 && cs > 0 && t == cs * q + r && 0 <= r < cs;
        if r == 0 {
            assert(q * cs == t);
        } else {
            assert((q + 1) * cs == q * cs + cs) by (nonlinear_arith);
            assert(q * cs + cs >= t);
        }
        if t > 0 && r == 0 {
            assert(q > 0) by (nonlinear_arith)
                requires t > 0 && cs > 0 && t == cs * q;
        }
    }

    /// Number of chunks needed to download the whole pack.
    pub fn chunk_count(&self) -> (n: u64)
        requires
            self.wf(),
        ensures
            n == self.spec_chunk_count(),
    {
        let cs = self.chunk_size as u64;
        if self.total_size % cs == 0 {
            self.total_size / cs
        } else {
            proof {
                let t = self.total_size as int;
                assert(t / (cs as int) < u64::MAX) by (nonlinear_arith)
                    requires cs >= 2 && 0 <= t <= u64::MAX;
                assert(cs != 1) by {
                    if cs == 1 {
                        assert(self.total_size as int % 1int == 0) by (nonlinear_arith);
                    }
                }
            }
            self.total_size / cs + 1
        }
    }

    /// Where chunk `chunk_index` starts.
    pub fn byte_offset(&self, chunk_index: u64) -> (off: u64)
        requires
            self.wf(),
            chunk_index < self.spec_chunk_count(),
        ensures
            off == self.spec_byte_offset(chunk_index as int),
            off < self.total_size,
    {
        proof {
            self.lemma_offset_in_bounds(chunk_index as int);
        }
        chunk_index * (self.chunk_size as u64)
    }

    /// How many bytes chunk `chunk_index` carries.
    pub fn chunk_len(&self, chunk_index: u64) -> (len: u64)
        requires
            self.wf(),
            chunk_index < self.spec_chunk_count(),
        ensures
            len == self.spec_chunk_len(chunk_index as int),
            1 <= len <= self.chunk_size,
            self.spec_byte_offset(chunk_index as int) + len <= self.total_size,
    {
        proof {
            self.lemma_offset_in_bounds(chunk_index as int);
        }
        let off = self.byte_offset(chunk_index);
        let remaining = self.total_size - off;
        if remaining >= self.chunk_size as u64 {
            self.chunk_size as u64
        } else {
            remaining
        }
    }

    /// Serve one chunk of this pack out of its full byte image. The
    /// response carries exactly the bytes of the range that the index
    /// names; an index at or past the chunk count is refused.
    pub fn chunk_response(&self, data: &Vec<u8>, req: &ChunkRequest) -> (r: Result<
        ChunkResponse,
        TransferError,
    >)
        requires
            self.wf(),
            data@.len() == self.total_size,
        ensures
            match r {
                Ok(resp) => {
                    &&& (req.chunk_index as int) < self.spec_chunk_count()
                    &&& resp.resource_name@ == req.resource_name@
                    &&& resp.chunk_index == req.chunk_index
                    &&& resp.byte_offset == self.spec_byte_offset(req.chunk_index as int)
                    &&& resp.payload@.len() == self.spec_chunk_len(req.chunk_index as int)
                    &&& resp.payload@ == data@.subrange(
                        resp.byte_offset as int,
                        resp.byte_offset + resp.payload@.len(),
                    )
                },
                Err(e) => {
                    &&& e == TransferError::ChunkIndexOutOfRange
                    &&& (req.chunk_index as int) >= self.spec_chunk_count()
                },
            },
    {
        let count = self.chunk_count();
        if req.chunk_index as u64 >= count {
            return Err(TransferError::ChunkIndexOutOfRange);
        }
        let off = self.byte_offset(req.chunk_index as u64);
        let len = self.chunk_len(req.chunk_index as u64);
        let n = data.len();
        let mut payload: Vec<u8> = Vec::new();
        let mut k: u64 = 0;
        while k < len
            invariant
                k <= len,
                payload@ =~= data@.subrange(off as int, off + k),
                off + len <= self.total_size,
                data@.len() == self.total_size,
                n == data@.len(),
            decreases len - k,
        {
            payload.push(data[(off + k) as usize]);
            k = k + 1;
        }
        Ok(ChunkResponse {
            resource_name: req.resource_name.clone(),
            chunk_index: req.chunk_index,
            byte_offset: off,
            payload,
        })
    }
}

/// The chunk ranges exactly tile `[0, total_size)`: the first chunk
/// starts at byte zero, each chunk ends where the next begins, every
/// chunk ends at the pack's end or after a full chunk's worth of bytes,
/// and the last chunk ends at the pack's last byte. So the ranges cover
/// the pack with no gap and no overlap.
pub proof fn lemma_chunks_tile(desc: ResourcePackDescriptor)
    requires
        desc.wf(),
    ensures
        desc.total_size == 0 <==> desc.spec_chunk_count() == 0,
        desc.spec_byte_offset(0) == 0,
        forall|i: int|
            0 <= i < desc.spec_chunk_count() ==> #[trigger] desc.spec_byte_offset(i)
                + desc.spec_chunk_len(i) == vstd::math::min(
                desc.total_size as int,
                desc.spec_byte_offset(i) + desc.chunk_size,
            ),
        forall|i: int|
            0 <= i && i + 1 < desc.spec_chunk_count() ==> #[trigger] desc.spec_byte_offset(i + 1)
                == desc.spec_byte_offset(i) + desc.spec_chunk_len(i),
        desc.spec_chunk_count() > 0 ==> desc.spec_byte_offset(desc.spec_chunk_count() - 1)
            + desc.spec_chunk_len(desc.spec_chunk_count() - 1) == desc.total_size,
{
    let t = desc.total_size as int;
    let cs = desc.chunk_size as int;
    let c = desc.spec_chunk_count();
    desc.lemma_count_covers();
    assert forall|i: int| 0 <= i < c implies #[trigger] desc.spec_byte_offset(i)
        + desc.spec_chunk_len(i) == vstd::math::min(t, desc.spec_byte_offset(i) + cs) by {
        desc.lemma_offset_in_bounds(i);
    }
    assert forall|i: int| 0 <= i && i + 1 < c implies #[trigger] desc.spec_byte_offset(i + 1)
        == desc.spec_byte_offset(i) + desc.spec_chunk_len(i) by {
        desc.lemma_offset_in_bounds(i + 1);
        assert((i + 1) * cs == i * cs + cs) by (nonlinear_arith);
        assert(desc.spec_byte_offset(i) + cs < t);
    }
    if c > 0 {
        desc.lemma_offset_in_bounds(c - 1);
        assert((c - 1) * cs + cs == c * cs) by (nonlinear_arith);
        assert(desc.spec_byte_offset(c - 1) + cs >= t);
    }
    assert(0 * cs == 0) by (nonlinear_arith);
}

/// One pack the server can hand out: its descriptor together with its
/// full byte image as resolved from the content store.
pub struct PackRecord {
    pub descriptor: ResourcePackDescriptor,
    pub data: Vec<u8>,
}

impl PackRecord {
    /// The bytes must be the whole pack the descriptor describes.
    pub open spec fn wf(&self) -> bool {
        &&& self.descriptor.wf()
        &&& self.data@.len() == self.descriptor.total_size
    }
}

/// The set of packs this server offers, in the stable order clients must
/// apply them; identifiers are unique.
pub struct PackStore {
    pub packs: Vec<PackRecord>,
}

impl PackStore {
    pub open spec fn wf(&self) -> bool {
        &&& forall|i: int| 0 <= i < self.packs@.len() ==> (#[trigger] self.packs@[i]).wf()
        &&& forall|i: int, j: int|
            0 <= i < j < self.packs@.len() ==> self.packs@[i].descriptor.identifier@
                != self.packs@[j].descriptor.identifier@
    }

    /// An empty store: the server offers no packs.
    pub fn new() -> (r: Self)
        ensures
            r.wf(),
            r.packs@.len() == 0,
    {
        PackStore { packs: Vec::new() }
    }

    /// Find the pack with the given identifier.
    pub fn find(&self, name: &String) -> (r: Option<usize>)
        ensures
            match r {
                Some(i) => i < self.packs@.len() && self.packs@[i as int].descriptor.identifier@
                    == name@,
                None => forall|i: int|
                    0 <= i < self.packs@.len()
                        ==> (#[trigger] self.packs@[i]).descriptor.identifier@ != name@,
            },
    {
        let mut i: usize = 0;
        while i < self.packs.len()
            invariant
                i <= self.packs@.len(),
                forall|j: int|
                    0 <= j < i ==> (#[trigger] self.packs@[j]).descriptor.identifier@ != name@,
            decreases self.packs@.len() - i,
        {
            if self.packs[i].descriptor.identifier == *name {
                return Some(i);
            }
            i = i + 1;
        }
        None
    }
}

} // verus!
