//! Bounds-checked access to a WebAssembly linear memory.
use vstd::prelude::*;

verus! {

/// Failure of a linear-memory operation.
#[derive(Debug, PartialEq, Eq)]
pub enum MemoryError {
    /// More memory was requested than one allocation may take.
    RequestedAllocationTooLarge,
    /// The allocator has no space left.
    AllocatorOutOfSpace,
    /// A memory instance is smaller than it was seen to be before.
    MemoryShrinked,
    /// Any other failure, with its description.
    Other(&'static str),
}

/// Largest address of the 32-bit address space.
pub open spec fn addr_max() -> int {
    0xFFFF_FFFFint
}

/// Whether `[offset, offset + length)` lies within a heap of `heap_len` bytes
/// and its end is representable in 32 bits.
pub open spec fn in_heap(offset: u32, length: u32, heap_len: nat) -> bool {
    offset + length <= addr_max() && offset + length <= heap_len
}

/// The `u64` whose little-endian encoding is `b[0..8]`.
pub open spec fn le_u64(b: Seq<u8>) -> u64
    recommends
        b.len() == 8,
{
    (b[0] as u64) | ((b[1] as u64) << 8u64) | ((b[2] as u64) << 16u64) | ((b[3] as u64)
        << 24u64) | ((b[4] as u64) << 32u64) | ((b[5] as u64) << 40u64) | ((b[6] as u64)
        << 48u64) | ((b[7] as u64) << 56u64)
}

/// The eight bytes of `v`, least significant first.
pub open spec fn le_bytes(v: u64) -> Seq<u8> {
    seq![
        v as u8,
        (v >> 8u64) as u8,
        (v >> 16u64) as u8,
        (v >> 24u64) as u8,
        (v >> 32u64) as u8,
        (v >> 40u64) as u8,
        (v >> 48u64) as u8,
        (v >> 56u64) as u8,
    ]
}

/// `heap` with the eight bytes at `ptr` replaced by the encoding of `v`.
pub open spec fn stored(heap: Seq<u8>, ptr: int, v: u64) -> Seq<u8> {
    heap.subrange(0, ptr) + le_bytes(v) + heap.subrange(ptr + 8, heap.len() as int)
}

/// Decoding the encoding of `v` gives `v` back.
pub proof fn lemma_le_round_trip(v: u64)
    ensures
        le_u64(le_bytes(v)) == v,
{
    assert(((v as u8) as u64) | ((((v >> 8u64) as u8) as u64) << 8u64) | ((((v >> 16u64) as u8)
        as u64) << 16u64) | ((((v >> 24u64) as u8) as u64) << 24u64) | ((((v >> 32u64) as u8)
        as u64) << 32u64) | ((((v >> 40u64) as u8) as u64) << 40u64) | ((((v >> 48u64) as u8)
        as u64) << 48u64) | ((((v >> 56u64) as u8) as u64) << 56u64) == v) by (bit_vector);
}

/// A `u64` stored at an address in bounds reads back unchanged, and the heap
/// keeps its size.
pub proof fn lemma_write_then_read(heap: Seq<u8>, ptr: u32, v: u64)
    requires
        in_heap(ptr, 8, heap.len()),
    ensures
        stored(heap, ptr as int, v).len() == heap.len(),
        in_heap(ptr, 8, stored(heap, ptr as int, v).len()),
        le_u64(stored(heap, ptr as int, v).subrange(ptr as int, ptr + 8)) == v,
{
    let h = stored(heap, ptr as int, v);
    assert(h.subrange(ptr as int, ptr + 8) =~= le_bytes(v));
    lemma_le_round_trip(v);
}

/// No eight-byte access at the last address of the 32-bit space is in
/// bounds, whatever the size of the heap: the end is not wrapped round.
pub proof fn lemma_last_address_out_of_bounds(heap_len: nat)
    ensures
        !in_heap(0xFFFF_FFFFu32, 8, heap_len),
{
}

/// Decodes eight little-endian bytes.
pub fn u64_from_le(b0: u8, b1: u8, b2: u8, b3: u8, b4: u8, b5: u8, b6: u8, b7: u8) -> (r: u64)
    ensures
        r == le_u64(seq![b0, b1, b2, b3, b4, b5, b6, b7]),
{
    (b0 as u64) | ((b1 as u64) << 8u64) | ((b2 as u64) << 16u64) | ((b3 as u64) << 24u64) | ((
    b4 as u64) << 32u64) | ((b5 as u64) << 40u64) | ((b6 as u64) << 48u64) | ((b7 as u64)
        << 56u64)
}

/// Encodes `v` as eight little-endian bytes.
pub fn u64_to_le(v: u64) -> (r: [u8; 8])
    ensures
        r@ == le_bytes(v),
{
    let r = [
        v as u8,
        (v >> 8u64) as u8,
        (v >> 16u64) as u8,
        (v >> 24u64) as u8,
        (v >> 32u64) as u8,
        (v >> 40u64) as u8,
        (v >> 48u64) as u8,
        (v >> 56u64) as u8,
    ];
    assert(r@ =~= le_bytes(v));
    r
}

/// The byte range `[offset, offset + length)` of a heap of `heap_len` bytes,
/// or `None` where it does not fit.
fn heap_range(offset: u32, length: u32, heap_len: usize) -> (r: Option<core::ops::Range<usize>>)
    ensures
        r is Some <==> in_heap(offset, length, heap_len as nat),
        r matches Some(range) ==> range.start == offset && range.end == offset + length,
{
    let start = offset as usize;
    let end = match offset.checked_add(length) {
        Some(e) => e as usize,
        None => {
            return None;
        },
    };
    if end <= heap_len {
        Some(start..end)
    } else {
        None
    }
}

/// Creates an allocator error.
fn error(msg: &'static str) -> (r: MemoryError)
    ensures
        r == MemoryError::Other(msg),
{
    MemoryError::Other(msg)
}

/// A byte-addressable linear memory.
pub trait Memory {
    /// The bytes of the memory.
    spec fn heap(&self) -> Seq<u8>;

    /// Reads a `u64` in little-endian form; fails if any of the bytes is out of bounds.
    fn read_le_u64(&self, ptr: u32) -> (r: Result<u64, MemoryError>)
        ensures
            r is Ok <==> in_heap(ptr, 8, self.heap().len()),
            r matches Ok(v) ==> v == le_u64(self.heap().subrange(ptr as int, ptr + 8)),
            r matches Err(e) ==> e == MemoryError::Other("read out of heap bounds"),
    ;

    /// Writes a `u64` in little-endian form; fails, changing nothing, if any of
    /// the bytes is out of bounds.
    fn write_le_u64(&mut self, ptr: u32, val: u64) -> (r: Result<(), MemoryError>)
        ensures
            r is Ok <==> in_heap(ptr, 8, old(self).heap().len()),
            r is Ok ==> final(self).heap() == stored(old(self).heap(), ptr as int, val),
            r matches Err(e) ==> e == MemoryError::Other("write out of heap bounds")
                && final(self).heap() == old(self).heap(),
    ;

    /// The full size of the memory in bytes.
    fn size(&self) -> (r: u32)
        requires
            self.heap().len() <= addr_max(),
        ensures
            r == self.heap().len(),
    ;
}

impl Memory for [u8] {
    open spec fn heap(&self) -> Seq<u8> {
        self@
    }

    fn read_le_u64(&self, ptr: u32) -> (r: Result<u64, MemoryError>) {
        let range = match heap_range(ptr, 8, self.len()) {
            Some(range) => range,
            None => {
                return Err(error("read out of heap bounds"));
            },
        };
        let s = range.start;
        let v = u64_from_le(
            self[s],
            self[s + 1],
            self[s + 2],
            self[s + 3],
            self[s + 4],
            self[s + 5],
            self[s + 6],
            self[s + 7],
        );
        assert(self@.subrange(s as int, s + 8) =~= seq![
            self@[s as int], self@[s + 1], self@[s + 2], self@[s + 3],
            self@[s + 4], self@[s + 5], self@[s + 6], self@[s + 7],
        ]);
        Ok(v)
    }

    fn write_le_u64(&mut self, ptr: u32, val: u64) -> (r: Result<(), MemoryError>) {
        let range = match heap_range(ptr, 8, self.len()) {
            Some(range) => range,
            None => {
                return Err(error("write out of heap bounds"));
            },
        };
        let bytes = u64_to_le(val);
        let s = range.start;
        let e = range.end;
        let mut i: usize = 0;
        while i < 8
            invariant
                e == s + 8,
                e <= self@.len(),
                self@.len() == old(self)@.len(),
                bytes@ == le_bytes(val),
                i <= 8,
                forall|j: int| 0 <= j < s ==> self@[j] == old(self)@[j],
                forall|j: int| s + 8 <= j < self@.len() ==> self@[j] == old(self)@[j],
                forall|j: int| 0 <= j < i ==> self@[s + j] == bytes@[j],
            decreases 8 - i,
        {
            self[s + i] = bytes[i];
            i = i + 1;
        }
        assert(self@ =~= stored(old(self)@, ptr as int, val));
        Ok(())
    }

    fn size(&self) -> (r: u32) {
        self.len() as u32
    }
}

} // verus!
