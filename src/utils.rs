use vstd::prelude::*;

use crate::enums::{CellType, SelectedTopTab};

verus! {

/// A read batch: space, first address, number of addresses.
pub type ModbusReadCommand = (SelectedTopTab, u16, u16);

/// A write command: space, address, value.
pub type ModbusWriteCommand = (SelectedTopTab, u16, CellType);

/// Why a macro file could not be decoded.
#[derive(Clone, Copy, Debug, PartialEq, Eq, Structural)]
pub enum CodecError {
    /// The data ends before a field it should hold.
    Truncated,
    /// The file does not start with the magic bytes.
    BadMagic,
    /// The IP version byte is neither 4 nor 6.
    UnknownIpVersion(u8),
    /// A record's function code is neither 5 nor 6.
    UnknownFunctionCode(u8),
    /// A coil record holds a value other than 0xFF00 or 0x0000.
    InvalidCoilValue(u16),
}

/// Big-endian word at positions `i` and `i + 1`.
pub open spec fn u16_at(b: Seq<u8>, i: int) -> u16 {
    (b[i] * 256 + b[i + 1]) as u16
}

/// Big-endian double word at positions `i` through `i + 3`.
pub open spec fn u32_at(b: Seq<u8>, i: int) -> u32 {
    (b[i] * 16777216 + b[i + 1] * 65536 + b[i + 2] * 256 + b[i + 3]) as u32
}

/// Reads big-endian integers and byte runs from the front of a byte slice.
pub struct BufReader<'a> {
    data: &'a [u8],
    position: usize,
}

impl<'a> BufReader<'a> {
    /// The bytes being read.
    pub closed spec fn bytes(&self) -> Seq<u8> {
        self.data@
    }

    /// How many bytes have been consumed.
    pub closed spec fn pos(&self) -> nat {
        self.position as nat
    }

    pub closed spec fn wf(&self) -> bool {
        self.position <= self.data@.len()
    }

    pub fn new(data: &'a [u8]) -> (r: Self)
        ensures
            r.wf(),
            r.bytes() == data@,
            r.pos() == 0,
    {
        BufReader { data, position: 0 }
    }

    /// The next byte, or `Truncated` at the end of the data.
    pub fn read_u8(&mut self) -> (r: Result<u8, CodecError>)
        requires
            old(self).wf(),
        ensures
            final(self).wf(),
            final(self).bytes() == old(self).bytes(),
            old(self).pos() + 1 <= old(self).bytes().len() ==> r == Ok::<u8, CodecError>(
                old(self).bytes()[old(self).pos() as int],
            ) && final(self).pos() == old(self).pos() + 1,
            old(self).pos() + 1 > old(self).bytes().len() ==> r == Err::<u8, CodecError>(
                CodecError::Truncated,
            ),
    {
        if self.position < self.data.len() {
            let b = self.data[self.position];
            self.position = self.position + 1;
            Ok(b)
        } else {
            Err(CodecError::Truncated)
        }
    }

    /// The next big-endian word, or `Truncated` if fewer than two bytes are left.
    pub fn read_u16(&mut self) -> (r: Result<u16, CodecError>)
        requires
            old(self).wf(),
        ensures
            final(self).wf(),
            final(self).bytes() == old(self).bytes(),
            old(self).pos() + 2 <= old(self).bytes().len() ==> r == Ok::<u16, CodecError>(
                u16_at(old(self).bytes(), old(self).pos() as int),
            ) && final(self).pos() == old(self).pos() + 2,
            old(self).pos() + 2 > old(self).bytes().len() ==> r == Err::<u16, CodecError>(
                CodecError::Truncated,
            ),
    {
        if self.data.len() - self.position >= 2 {
            let hi = self.data[self.position] as u16;
            let lo = self.data[self.position + 1] as u16;
            self.position = self.position + 2;
            Ok(hi * 256 + lo)
        } else {
            Err(CodecError::Truncated)
        }
    }

    /// The next big-endian double word, or `Truncated` if fewer than four bytes are left.
    pub fn read_u32(&mut self) -> (r: Result<u32, CodecError>)
        requires
            old(self).wf(),
        ensures
            final(self).wf(),
            final(self).bytes() == old(self).bytes(),
            old(self).pos() + 4 <= old(self).bytes().len() ==> r == Ok::<u32, CodecError>(
                u32_at(old(self).bytes(), old(self).pos() as int),
            ) && final(self).pos() == old(self).pos() + 4,
            old(self).pos() + 4 > old(self).bytes().len() ==> r == Err::<u32, CodecError>(
                CodecError::Truncated,
            ),
    {
        if self.data.len() - self.position >= 4 {
            let p = self.position;
            let b0 = self.data[p] as u32;
            let b1 = self.data[p + 1] as u32;
            let b2 = self.data[p + 2] as u32;
            let b3 = self.data[p + 3] as u32;
            self.position = p + 4;
            Ok(b0 * 16777216 + b1 * 65536 + b2 * 256 + b3)
        } else {
            Err(CodecError::Truncated)
        }
    }

    /// The next `len` bytes, or `Truncated` if fewer are left.
    pub fn read_exact(&mut self, len: usize) -> (r: Result<Vec<u8>, CodecError>)
        requires
            old(self).wf(),
        ensures
            final(self).wf(),
            final(self).bytes() == old(self).bytes(),
            old(self).pos() + len <= old(self).bytes().len() ==> r is Ok && r->Ok_0@
                == old(self).bytes().subrange(old(self).pos() as int, old(self).pos() + len)
                && final(self).pos() == old(self).pos() + len,
            old(self).pos() + len > old(self).bytes().len() ==> r == Err::<Vec<u8>, CodecError>(
                CodecError::Truncated,
            ),
    {
        if self.data.len() - self.position >= len {
            let start = self.position;
            let mut out: Vec<u8> = Vec::new();
            let mut i: usize = 0;
            while i < len
                invariant
                    self.data@ == old(self).data@,
                    self.position == start,
                    start + len <= self.data.len(),
                    i <= len,
                    out@ == self.data@.subrange(start as int, start + i),
                decreases len - i,
            {
                out.push(self.data[start + i]);
                i = i + 1;
                assert(out@ =~= self.data@.subrange(start as int, start + i));
            }
            self.position = start + len;
            Ok(out)
        } else {
            Err(CodecError::Truncated)
        }
    }
}

} // verus!
