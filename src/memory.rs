use vstd::prelude::*;

verus! {

use crate::error::KedgeError;

/// Bytes in one page of memory.
pub const PAGE_SIZE: usize = 65536;

/// Pages in a fresh memory.
const DEFAULT_PAGES: usize = 1;

/// The `i32` whose little-endian bytes are the first four of `b`.
pub open spec fn le_i32(b: Seq<u8>) -> i32 {
    (b[0] as u32 | (b[1] as u32) << 8u32 | (b[2] as u32) << 16u32 | (b[3] as u32) << 24u32) as i32
}

/// The four little-endian bytes of `v`.
pub open spec fn i32_le_bytes(v: i32) -> Seq<u8> {
    let u = v as u32;
    seq![
        (u & 0xff) as u8,
        ((u >> 8u32) & 0xff) as u8,
        ((u >> 16u32) & 0xff) as u8,
        ((u >> 24u32) & 0xff) as u8,
    ]
}

/// `m` with `src` written from `offset` on.
pub open spec fn write_spec(m: Seq<u8>, offset: int, src: Seq<u8>) -> Seq<u8> {
    Seq::new(
        m.len(),
        |i: int|
            if offset <= i < offset + src.len() {
                src[i - offset]
            } else {
                m[i]
            },
    )
}

/// A growable, byte-addressed memory whose size is a whole number of pages.
pub struct LinearMemory {
    data: Vec<u8>,
}

impl View for LinearMemory {
    type V = Seq<u8>;

    /// The bytes, from address zero.
    closed spec fn view(&self) -> Seq<u8> {
        self.data@
    }
}

impl LinearMemory {
    /// The size is a positive whole number of pages.
    pub open spec fn wf(&self) -> bool {
        self@.len() > 0 && self@.len() % (PAGE_SIZE as nat) == 0
    }

    /// A memory of one page of zeros.
    pub fn new() -> (r: Self)
        ensures
            r.wf(),
            r@ == Seq::new(PAGE_SIZE as nat, |i: int| 0u8),
    {
        let r = LinearMemory { data: vec![0u8; PAGE_SIZE * DEFAULT_PAGES] };
        assert(r@ =~= Seq::new(PAGE_SIZE as nat, |i: int| 0u8));
        r
    }

    /// The `length` bytes from `offset`; a violation if any lies past the end.
    pub fn read(&self, offset: usize, length: usize) -> (r: Result<&[u8], KedgeError>)
        ensures
            offset + length <= self@.len() ==> r is Ok && r->Ok_0@ == self@.subrange(
                offset as int,
                offset + length,
            ),
            offset + length > self@.len() ==> r == Err::<&[u8], KedgeError>(
                KedgeError::MemoryViolation,
            ),
    {
        if offset > self.data.len() || length > self.data.len() - offset {
            return Err(KedgeError::MemoryViolation);
        }
        Ok(&self.data.as_slice()[offset..offset + length])
    }

    /// The little-endian `i32` at `offset`.
    pub fn read_i32(&self, offset: usize) -> (r: Result<i32, KedgeError>)
        ensures
            offset + 4 <= self@.len() ==> r == Ok::<i32, KedgeError>(
                le_i32(self@.subrange(offset as int, offset + 4)),
            ),
            offset + 4 > self@.len() ==> r == Err::<i32, KedgeError>(KedgeError::MemoryViolation),
    {
        let bytes = self.read(offset, 4)?;
        let v = (bytes[0] as u32 | (bytes[1] as u32) << 8u32 | (bytes[2] as u32) << 16u32
            | (bytes[3] as u32) << 24u32) as i32;
        Ok(v)
    }

    /// Copies `src` to the memory from `offset`; a violation, with nothing
    /// written, if it would pass the end.
    pub fn write(&mut self, offset: usize, src: &[u8]) -> (r: Result<(), KedgeError>)
        ensures
            final(self).wf() == old(self).wf(),
            offset + src@.len() <= old(self)@.len() ==> r is Ok && final(self)@ == write_spec(
                old(self)@,
                offset as int,
                src@,
            ),
            offset + src@.len() > old(self)@.len() ==> r == Err::<(), KedgeError>(
                KedgeError::MemoryViolation,
            ) && final(self)@ == old(self)@,
    {
        if offset > self.data.len() || src.len() > self.data.len() - offset {
            return Err(KedgeError::MemoryViolation);
        }
        let n = self.data.len();
        let mut j: usize = 0;
        while j < src.len()
            invariant
                n == self@.len(),
                offset + src@.len() <= old(self)@.len(),
                j <= src@.len(),
                self@.len() == old(self)@.len(),
                forall|i: int|
                    0 <= i < self@.len() ==> #[trigger] self@[i] == (if offset <= i < offset + j {
                        src@[i - offset]
                    } else {
                        old(self)@[i]
                    }),
            decreases src@.len() - j,
        {
            self.data.set(offset + j, src[j]);
            j = j + 1;
        }
        assert(self@ =~= write_spec(old(self)@, offset as int, src@));
        Ok(())
    }

    /// Writes `value` as four little-endian bytes at `offset`.
    pub fn write_i32(&mut self, offset: usize, value: i32) -> (r: Result<(), KedgeError>)
        ensures
            final(self).wf() == old(self).wf(),
            offset + 4 <= old(self)@.len() ==> r is Ok && final(self)@ == write_spec(
                old(self)@,
                offset as int,
                i32_le_bytes(value),
            ),
            offset + 4 > old(self)@.len() ==> r == Err::<(), KedgeError>(
                KedgeError::MemoryViolation,
            ) && final(self)@ == old(self)@,
    {
        let u = value as u32;
        let bytes: [u8; 4] = [
            (u & 0xff) as u8,
            ((u >> 8u32) & 0xff) as u8,
            ((u >> 16u32) & 0xff) as u8,
            ((u >> 24u32) & 0xff) as u8,
        ];
        assert(bytes@ =~= i32_le_bytes(value));
        self.write(offset, bytes.as_slice())
    }

    /// The size in bytes.
    pub fn size(&self) -> (r: usize)
        ensures
            r == self@.len(),
    {
        self.data.len()
    }

    /// Appends `pages` pages of zeros.
    pub fn grow(&mut self, pages: usize)
        requires
            old(self)@.len() + pages * PAGE_SIZE <= usize::MAX,
        ensures
            final(self)@ == old(self)@ + Seq::new((pages * PAGE_SIZE) as nat, |i: int| 0u8),
            old(self).wf() ==> final(self).wf(),
    {
        let new_len = self.data.len() + pages * PAGE_SIZE;
        self.data.resize(new_len, 0);
        assert(self@ =~= old(self)@ + Seq::new((pages * PAGE_SIZE) as nat, |i: int| 0u8));
        let ghost old_len = old(self)@.len() as int;
        let ghost p = pages as int;
        assert((old_len + p * 65536) % 65536 == old_len % 65536) by (nonlinear_arith)
            requires
                p >= 0,
                old_len >= 0,
        ;
    }
}

/// An `i32` written at an offset where four bytes fit reads back unchanged.
pub proof fn lemma_write_read_i32(m: Seq<u8>, offset: int, v: i32)
    requires
        0 <= offset,
        offset + 4 <= m.len(),
    ensures
        le_i32(write_spec(m, offset, i32_le_bytes(v)).subrange(offset, offset + 4)) == v,
{
    let w = write_spec(m, offset, i32_le_bytes(v)).subrange(offset, offset + 4);
    assert(w =~= i32_le_bytes(v));
    let u = v as u32;
    let b0 = (u & 0xff) as u8;
    let b1 = ((u >> 8u32) & 0xff) as u8;
    let b2 = ((u >> 16u32) & 0xff) as u8;
    let b3 = ((u >> 24u32) & 0xff) as u8;
    assert((b0 as u32 | (b1 as u32) << 8u32 | (b2 as u32) << 16u32 | (b3 as u32) << 24u32) as i32
        == v) by (bit_vector)
        requires
            u == v as u32,
            b0 == (u & 0xff) as u8,
            b1 == ((u >> 8u32) & 0xff) as u8,
            b2 == ((u >> 16u32) & 0xff) as u8,
            b3 == ((u >> 24u32) & 0xff) as u8,
    ;
}

} // verus!
