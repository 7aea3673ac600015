use vstd::prelude::*;

verus! {

use crate::error::KedgeError;

/// The bits that the `i`-th byte of a LEB128 encoding adds to a 32-bit
/// accumulator: its low seven bits, shifted by `7 * i`; nothing once the
/// shift passes the accumulator's width.
pub open spec fn leb_chunk(b: u8, i: nat) -> u32 {
    if i < 5 {
        ((b & 0x7f) as u32) << ((7 * i) as u32)
    } else {
        0
    }
}

/// Unsigned LEB128 decoding of `s` from its `i`-th byte on, with `acc` the bits
/// gathered from the bytes before it. On success: the value and the number of
/// bytes of the encoding.
pub open spec fn u32_leb_from(s: Seq<u8>, i: nat, acc: u32) -> Result<(u32, nat), KedgeError>
    decreases 5 - i,
{
    if i >= s.len() {
        Err(KedgeError::DecodeError("EOF reached"))
    } else {
        let acc2 = acc | leb_chunk(s[i as int], i);
        if s[i as int] & 0x80 == 0 {
            Ok((acc2, i + 1))
        } else if i >= 5 {
            Err(KedgeError::DecodeError("LEB128 overflow"))
        } else {
            u32_leb_from(s, i + 1, acc2)
        }
    }
}

/// Unsigned LEB128 decoding of the start of `s`.
pub open spec fn u32_leb(s: Seq<u8>) -> Result<(u32, nat), KedgeError> {
    u32_leb_from(s, 0, 0)
}

/// Two's-complement sign extension of an accumulator that holds `n` bytes of
/// seven bits each, the last of them `last`.
pub open spec fn leb_sign_extend(acc: u32, last: u8, n: nat) -> u32 {
    if 7 * n < 32 && last & 0x40 != 0 {
        acc | (0xffff_ffffu32 << ((7 * n) as u32))
    } else {
        acc
    }
}

/// Signed LEB128 decoding of `s` from its `i`-th byte on (see `u32_leb_from`).
pub open spec fn i32_leb_from(s: Seq<u8>, i: nat, acc: u32) -> Result<(i32, nat), KedgeError>
    decreases 5 - i,
{
    if i >= s.len() {
        Err(KedgeError::DecodeError("EOF reached"))
    } else {
        let acc2 = acc | leb_chunk(s[i as int], i);
        if s[i as int] & 0x80 == 0 {
            Ok((leb_sign_extend(acc2, s[i as int], i + 1) as i32, i + 1))
        } else if i >= 5 {
            Err(KedgeError::DecodeError("signed LEB128 overflow"))
        } else {
            i32_leb_from(s, i + 1, acc2)
        }
    }
}

/// Signed LEB128 decoding of the start of `s`.
pub open spec fn i32_leb(s: Seq<u8>) -> Result<(i32, nat), KedgeError> {
    i32_leb_from(s, 0, 0)
}

/// A successful unsigned decode consumes at least one byte, and no more than
/// there are.
pub proof fn lemma_u32_leb_size(s: Seq<u8>, i: nat, acc: u32)
    requires
        i <= 5,
    ensures
        u32_leb_from(s, i, acc) matches Ok((_, n)) ==> i < n <= s.len(),
    decreases 5 - i,
{
    if i < s.len() && s[i as int] & 0x80 != 0 && i < 5 {
        lemma_u32_leb_size(s, i + 1, acc | leb_chunk(s[i as int], i));
    }
}

/// A successful signed decode consumes at least one byte, and no more than
/// there are.
pub proof fn lemma_i32_leb_size(s: Seq<u8>, i: nat, acc: u32)
    requires
        i <= 5,
    ensures
        i32_leb_from(s, i, acc) matches Ok((_, n)) ==> i < n <= s.len(),
    decreases 5 - i,
{
    if i < s.len() && s[i as int] & 0x80 != 0 && i < 5 {
        lemma_i32_leb_size(s, i + 1, acc | leb_chunk(s[i as int], i));
    }
}

/// The bytes of `s` from `pos` on.
pub open spec fn rest_of(s: Seq<u8>, pos: nat) -> Seq<u8> {
    s.subrange(pos as int, s.len() as int)
}

/// Cursor over a byte buffer.
pub struct Reader<'a> {
    pub bytes: &'a [u8],
    pub position: usize,
}

impl<'a> Reader<'a> {
    /// The bytes not yet read (none once the cursor stands past the end).
    pub open spec fn remaining(&self) -> Seq<u8> {
        if self.position <= self.bytes@.len() {
            self.bytes@.subrange(self.position as int, self.bytes@.len() as int)
        } else {
            Seq::empty()
        }
    }

    /// A reader over `bytes`, at its start.
    pub fn new(bytes: &'a [u8]) -> (r: Self)
        ensures
            r.bytes@ == bytes@,
            r.position == 0,
    {
        Reader { bytes, position: 0 }
    }

    /// Reads one byte and advances past it.
    pub fn read_u8(&mut self) -> (r: Result<u8, KedgeError>)
        ensures
            final(self).bytes == old(self).bytes,
            old(self).position < old(self).bytes@.len() ==> {
                &&& r == Ok::<u8, KedgeError>(old(self).bytes@[old(self).position as int])
                &&& final(self).position == old(self).position + 1
            },
            old(self).position >= old(self).bytes@.len() ==> {
                &&& r == Err::<u8, KedgeError>(KedgeError::DecodeError("EOF reached"))
                &&& final(self).position == old(self).position
            },
    {
        if self.position >= self.bytes.len() {
            return Err(KedgeError::DecodeError("EOF reached"));
        }
        let byte = self.bytes[self.position];
        self.position = self.position + 1;
        Ok(byte)
    }

    /// Reads exactly `len` bytes and advances past them.
    pub fn read_bytes(&mut self, len: usize) -> (r: Result<&'a [u8], KedgeError>)
        ensures
            final(self).bytes == old(self).bytes,
            old(self).position + len <= old(self).bytes@.len() ==> {
                &&& r is Ok
                &&& r->Ok_0@ == old(self).bytes@.subrange(
                    old(self).position as int,
                    old(self).position + len,
                )
                &&& final(self).position == old(self).position + len
            },
            old(self).position + len > old(self).bytes@.len() ==> {
                &&& r == Err::<&'a [u8], KedgeError>(KedgeError::DecodeError("not enough bytes"))
                &&& final(self).position == old(self).position
            },
    {
        if self.position > self.bytes.len() || len > self.bytes.len() - self.position {
            return Err(KedgeError::DecodeError("not enough bytes"));
        }
        let end = self.position + len;
        let slice = &self.bytes[self.position..end];
        self.position = end;
        Ok(slice)
    }

    /// Reads an unsigned LEB128 integer of at most 32 bits. On failure the
    /// cursor does not move.
    pub fn read_u32_leb128(&mut self) -> (r: Result<u32, KedgeError>)
        ensures
            final(self).bytes == old(self).bytes,
            match u32_leb(old(self).remaining()) {
                Ok((v, n)) => r == Ok::<u32, KedgeError>(v) && final(self).position
                    == old(self).position + n,
                Err(e) => r == Err::<u32, KedgeError>(e) && final(self).position
                    == old(self).position,
            },
    {
        let ghost s = self.remaining();
        let mut result: u32 = 0;
        let mut i: usize = 0;
        loop
            invariant
                i <= 5,
                self.bytes == old(self).bytes,
                self.position == old(self).position,
                s == self.remaining(),
                i > 0 ==> self.position + i <= self.bytes@.len(),
                u32_leb(s) == u32_leb_from(s, i as nat, result),
            decreases 5 - i,
        {
            if self.position > self.bytes.len() || i >= self.bytes.len() - self.position {
                return Err(KedgeError::DecodeError("EOF reached"));
            }
            let byte = self.bytes[self.position + i];
            assert(byte == s[i as int]);
            result = result | chunk(byte, i);
            if byte & 0x80 == 0 {
                self.position = self.position + i + 1;
                return Ok(result);
            }
            if i >= 5 {
                return Err(KedgeError::DecodeError("LEB128 overflow"));
            }
            i = i + 1;
        }
    }

    /// Reads a signed LEB128 integer of at most 32 bits, sign-extending a
    /// short encoding. On failure the cursor does not move.
    pub fn read_i32_leb128(&mut self) -> (r: Result<i32, KedgeError>)
        ensures
            final(self).bytes == old(self).bytes,
            match i32_leb(old(self).remaining()) {
                Ok((v, n)) => r == Ok::<i32, KedgeError>(v) && final(self).position
                    == old(self).position + n,
                Err(e) => r == Err::<i32, KedgeError>(e) && final(self).position
                    == old(self).position,
            },
    {
        let ghost s = self.remaining();
        let mut result: u32 = 0;
        let mut i: usize = 0;
        loop
            invariant
                i <= 5,
                self.bytes == old(self).bytes,
                self.position == old(self).position,
                s == self.remaining(),
                i > 0 ==> self.position + i <= self.bytes@.len(),
                i32_leb(s) == i32_leb_from(s, i as nat, result),
            decreases 5 - i,
        {
            if self.position > self.bytes.len() || i >= self.bytes.len() - self.position {
                return Err(KedgeError::DecodeError("EOF reached"));
            }
            let byte = self.bytes[self.position + i];
            assert(byte == s[i as int]);
            result = result | chunk(byte, i);
            if byte & 0x80 == 0 {
                if i < 4 && byte & 0x40 != 0 {
                    let shift: u32 = (7 * (i + 1)) as u32;
                    result = result | (0xffff_ffffu32 << shift);
                }
                self.position = self.position + i + 1;
                return Ok(result as i32);
            }
            if i >= 5 {
                return Err(KedgeError::DecodeError("signed LEB128 overflow"));
            }
            i = i + 1;
        }
    }

    /// The byte under the cursor, without moving it.
    pub fn peek(&self) -> (r: Option<u8>)
        ensures
            r == (if self.position < self.bytes@.len() {
                Some(self.bytes@[self.position as int])
            } else {
                None
            }),
    {
        if self.position < self.bytes.len() {
            Some(self.bytes[self.position])
        } else {
            None
        }
    }

    /// The cursor's position.
    pub fn offset(&self) -> (r: usize)
        ensures
            r == self.position,
    {
        self.position
    }

    /// Moves the cursor to `pos`, which may be at most the buffer's length.
    pub fn seek(&mut self, pos: usize) -> (r: Result<(), KedgeError>)
        ensures
            final(self).bytes == old(self).bytes,
            pos <= old(self).bytes@.len() ==> r is Ok && final(self).position == pos,
            pos > old(self).bytes@.len() ==> r == Err::<(), KedgeError>(
                KedgeError::DecodeError("seek out of bounds"),
            ) && final(self).position == old(self).position,
    {
        if pos > self.bytes.len() {
            return Err(KedgeError::DecodeError("seek out of bounds"));
        }
        self.position = pos;
        Ok(())
    }

    /// Whether every byte has been read.
    pub fn is_done(&self) -> (r: bool)
        ensures
            r == (self.position >= self.bytes@.len()),
    {
        self.position >= self.bytes.len()
    }
}

/// The bits that byte `b` adds at index `i` of a LEB128 encoding.
fn chunk(b: u8, i: usize) -> (r: u32)
    requires
        i <= 5,
    ensures
        r == leb_chunk(b, i as nat),
{
    if i < 5 {
        let shift: u32 = (7 * i) as u32;
        ((b & 0x7f) as u32) << shift
    } else {
        0
    }
}

} // verus!
