//! A little-endian, seekable byte reader and writer over an in-memory
//! buffer, with position tracking and bounds-checked reads.

use vstd::prelude::*;

use crate::silver_error::SilverError;

verus! {

/// Simply a u32, but handled as an array of bytes to pin down endianness.
pub type SectionMagic = [u8; 4];

/// The little-endian 16-bit value stored at byte offset `i` of `b`.
pub open spec fn le16_at(b: Seq<u8>, i: int) -> u16 {
    (b[i] as int + b[i + 1] as int * 0x100) as u16
}

/// The little-endian 32-bit value stored at byte offset `i` of `b`.
pub open spec fn le32_at(b: Seq<u8>, i: int) -> u32 {
    (b[i] as int + b[i + 1] as int * 0x100 + b[i + 2] as int * 0x10000 + b[i + 3] as int
        * 0x1000000) as u32
}

/// Byte `j` (counting from the least significant) of the little-endian
/// encoding of `v`.
pub open spec fn le32_byte(v: u32, j: int) -> u8 {
    ((v as int / pow256(j)) % 0x100) as u8
}

/// 256 raised to the power `j`, for the byte weights of little-endian values.
pub open spec fn pow256(j: int) -> int
    decreases j,
{
    if j <= 0 {
        1
    } else {
        0x100 * pow256(j - 1)
    }
}

/// The four-byte little-endian encoding of `v`.
pub open spec fn le32_bytes(v: u32) -> Seq<u8> {
    Seq::new(4, |j: int| le32_byte(v, j))
}

/// A sequence of `n` zero bytes.
pub open spec fn zero_bytes(n: int) -> Seq<u8> {
    Seq::new((if n >= 0 {
        n
    } else {
        0
    }) as nat, |j: int| 0u8)
}

/// The number of zero bytes that pad a region of `len` bytes out to a
/// four-byte boundary.
pub open spec fn pad4(len: int) -> int {
    (4 - len % 4) % 4
}

/// The byte weights used by the little-endian encodings.
pub proof fn lemma_pow256_small()
    ensures
        pow256(0) == 1,
        pow256(1) == 0x100,
        pow256(2) == 0x10000,
        pow256(3) == 0x1000000,
{
    reveal_with_fuel(pow256, 5);
}

/// Reading back the four bytes of a little-endian encoding yields the
/// encoded value, wherever the encoding sits inside a larger buffer.
pub proof fn lemma_le32_at_bytes(b: Seq<u8>, i: int, v: u32)
    requires
        0 <= i,
        i + 4 <= b.len(),
        b[i] == le32_byte(v, 0),
        b[i + 1] == le32_byte(v, 1),
        b[i + 2] == le32_byte(v, 2),
        b[i + 3] == le32_byte(v, 3),
    ensures
        le32_at(b, i) == v,
{
    lemma_pow256_small();
    let y = v as u64;
    assert(y % 0x100 + (y / 0x100) % 0x100 * 0x100 + (y / 0x10000) % 0x100 * 0x10000 + (y
        / 0x1000000) % 0x100 * 0x1000000 == y) by (bit_vector)
        requires
            y < 0x100000000,
    ;
}

/// Helper to assist with reading and writing little-endian values.
pub struct LittleHelper {
    data: Vec<u8>,
    position: usize,
}

impl LittleHelper {
    /// The bytes held by this helper's buffer.
    pub closed spec fn bytes(&self) -> Seq<u8> {
        self.data@
    }

    /// The current read/write position.
    pub closed spec fn pos(&self) -> int {
        self.position as int
    }

    /// Creates a new LittleHelper with an empty buffer.
    pub fn new() -> (r: Self)
        ensures
            r.bytes() == Seq::<u8>::empty(),
            r.pos() == 0,
    {
        LittleHelper { data: Vec::new(), position: 0 }
    }

    /// Wraps an existing buffer, with the position at its start.
    pub fn from_vec(data: Vec<u8>) -> (r: Self)
        ensures
            r.bytes() == data@,
            r.pos() == 0,
    {
        LittleHelper { data, position: 0 }
    }

    /// Returns the inner buffer represented by this LittleHelper.
    pub fn contents(self) -> (r: Vec<u8>)
        ensures
            r@ == self.bytes(),
    {
        self.data
    }

    /// Returns the length of the inner buffer represented by this LittleHelper.
    pub fn len(&self) -> (r: u32)
        requires
            self.bytes().len() <= u32::MAX,
        ensures
            r == self.bytes().len(),
    {
        self.data.len() as u32
    }

    /// Seeks to the given u32.
    pub fn seek_to_u32(&mut self, offset: u32)
        ensures
            final(self).bytes() == old(self).bytes(),
            final(self).pos() == offset,
    {
        self.position = offset as usize;
    }

    /// Returns the current position as a u32.
    pub fn pos_as_u32(&self) -> (r: u32)
        requires
            self.pos() <= u32::MAX,
        ensures
            r == self.pos(),
    {
        self.position as u32
    }

    /// Reads a little-endian u16.
    pub fn read_u16_le(&mut self) -> (r: Result<u16, SilverError>)
        ensures
            final(self).bytes() == old(self).bytes(),
            r is Ok <==> old(self).pos() + 2 <= old(self).bytes().len(),
            r matches Ok(v) ==> v == le16_at(old(self).bytes(), old(self).pos()) && final(self).pos() == old(self).pos() + 2,
            r is Err ==> r == Err::<u16, SilverError>(SilverError::ParseError) && final(self).pos()
                == old(self).pos(),
    {
        let dlen: usize = self.data.len();
        if self.position <= dlen && dlen - self.position >= 2 {
            let b0: u8 = self.data[self.position];
            let b1: u8 = self.data[self.position + 1];
            self.position = self.position + 2;
            Ok(b0 as u16 + b1 as u16 * 0x100)
        } else {
            Err(SilverError::ParseError)
        }
    }

    /// Reads a little-endian u32.
    pub fn read_u32_le(&mut self) -> (r: Result<u32, SilverError>)
        ensures
            final(self).bytes() == old(self).bytes(),
            r is Ok <==> old(self).pos() + 4 <= old(self).bytes().len(),
            r matches Ok(v) ==> v == le32_at(old(self).bytes(), old(self).pos()) && final(self).pos() == old(self).pos() + 4,
            r is Err ==> r == Err::<u32, SilverError>(SilverError::ParseError) && final(self).pos()
                == old(self).pos(),
    {
        let dlen: usize = self.data.len();
        if self.position <= dlen && dlen - self.position >= 4 {
            let b0: u8 = self.data[self.position];
            let b1: u8 = self.data[self.position + 1];
            let b2: u8 = self.data[self.position + 2];
            let b3: u8 = self.data[self.position + 3];
            self.position = self.position + 4;
            Ok(b0 as u32 + b1 as u32 * 0x100 + b2 as u32 * 0x10000 + b3 as u32 * 0x1000000)
        } else {
            Err(SilverError::ParseError)
        }
    }

    /// Reads an arbitrary length of bytes.
    pub fn read_length(&mut self, length: u32) -> (r: Result<Vec<u8>, SilverError>)
        ensures
            final(self).bytes() == old(self).bytes(),
            r is Ok <==> old(self).pos() + length <= old(self).bytes().len(),
            r matches Ok(v) ==> v@ == old(self).bytes().subrange(
                old(self).pos(),
                old(self).pos() + length,
            ) && final(self).pos() == old(self).pos() + length,
            r is Err ==> r == Err::<Vec<u8>, SilverError>(SilverError::ParseError) && final(self).pos() == old(self).pos(),
    {
        let dlen: usize = self.data.len();
        if self.position <= dlen && dlen - self.position >= length as usize {
            let mut raw_data: Vec<u8> = Vec::new();
            let mut i: usize = 0;
            while i < length as usize
                invariant
                    i <= length,
                    self.position + length as usize <= self.data.len(),
                    raw_data@ == self.data@.subrange(
                        self.position as int,
                        self.position as int + i as int,
                    ),
                decreases length as int - i as int,
            {
                raw_data.push(self.data[self.position + i]);
                i = i + 1;
                proof {
                    assert(raw_data@ =~= self.data@.subrange(
                        self.position as int,
                        self.position as int + i as int,
                    ));
                }
            }
            self.position = self.position + length as usize;
            Ok(raw_data)
        } else {
            Err(SilverError::ParseError)
        }
    }

    /// Reads our little-endian magic (that is, 4 bytes of u8).
    pub fn read_magic(&mut self) -> (r: Result<SectionMagic, SilverError>)
        ensures
            final(self).bytes() == old(self).bytes(),
            r is Ok <==> old(self).pos() + 4 <= old(self).bytes().len(),
            r matches Ok(m) ==> m@ == old(self).bytes().subrange(
                old(self).pos(),
                old(self).pos() + 4,
            ) && final(self).pos() == old(self).pos() + 4,
            r is Err ==> r == Err::<SectionMagic, SilverError>(SilverError::ParseError) && final(self).pos() == old(self).pos(),
    {
        let dlen: usize = self.data.len();
        if self.position <= dlen && dlen - self.position >= 4 {
            let m: SectionMagic = [
                self.data[self.position],
                self.data[self.position + 1],
                self.data[self.position + 2],
                self.data[self.position + 3],
            ];
            self.position = self.position + 4;
            proof {
                assert(m@ =~= old(self).bytes().subrange(old(self).pos(), old(self).pos() + 4));
            }
            Ok(m)
        } else {
            Err(SilverError::ParseError)
        }
    }

    /// Writes a little-endian u32 at the current position, overwriting any
    /// bytes already there and extending the buffer as needed.
    pub fn write_u32_le(&mut self, value: u32)
        requires
            old(self).pos() <= old(self).bytes().len(),
            old(self).bytes().len() + 4 <= u32::MAX,
        ensures
            final(self).pos() == old(self).pos() + 4,
            final(self).bytes().len() == if old(self).pos() + 4 <= old(self).bytes().len() {
                old(self).bytes().len() as int
            } else {
                old(self).pos() + 4
            },
            forall|k: int|
                0 <= k < final(self).bytes().len() ==> final(self).bytes()[k] == (if old(self).pos()
                    <= k < old(self).pos() + 4 {
                    le32_byte(value, k - old(self).pos())
                } else {
                    old(self).bytes()[k]
                }),
            old(self).pos() == old(self).bytes().len() ==> final(self).bytes() == old(self).bytes()
                + le32_bytes(value),
            old(self).pos() + 4 <= old(self).bytes().len() ==> final(self).bytes() == old(
                self,
            ).bytes().subrange(0, old(self).pos()) + le32_bytes(value) + old(
                self,
            ).bytes().subrange(old(self).pos() + 4, old(self).bytes().len() as int),
    {
        proof {
            lemma_pow256_small();
        }
        let b0: u8 = (value % 0x100) as u8;
        let b1: u8 = ((value / 0x100) % 0x100) as u8;
        let b2: u8 = ((value / 0x10000) % 0x100) as u8;
        let b3: u8 = ((value / 0x1000000) % 0x100) as u8;
        self.write_byte_at_pos(b0);
        self.write_byte_at_pos(b1);
        self.write_byte_at_pos(b2);
        self.write_byte_at_pos(b3);
        proof {
            if old(self).pos() == old(self).bytes().len() {
                assert(self.data@ =~= old(self).bytes() + le32_bytes(value));
            }
            if old(self).pos() + 4 <= old(self).bytes().len() {
                assert(self.data@ =~= old(self).bytes().subrange(0, old(self).pos())
                    + le32_bytes(value) + old(self).bytes().subrange(
                    old(self).pos() + 4,
                    old(self).bytes().len() as int,
                ));
            }
        }
    }

    /// Writes one byte at the current position, overwriting or appending.
    fn write_byte_at_pos(&mut self, b: u8)
        requires
            old(self).pos() <= old(self).bytes().len(),
            old(self).bytes().len() + 1 <= u32::MAX,
        ensures
            final(self).pos() == old(self).pos() + 1,
            final(self).bytes().len() == if old(self).pos() < old(self).bytes().len() {
                old(self).bytes().len() as int
            } else {
                old(self).bytes().len() + 1int
            },
            forall|k: int|
                0 <= k < final(self).bytes().len() ==> final(self).bytes()[k] == (if k == old(
                    self,
                ).pos() {
                    b
                } else {
                    old(self).bytes()[k]
                }),
    {
        if self.position < self.data.len() {
            self.data.set(self.position, b);
        } else {
            self.data.push(b);
        }
        self.position = self.position + 1;
    }

    /// Writes an arbitrary length of bytes at the end of the buffer.
    pub fn write_length(&mut self, raw_data: &[u8])
        requires
            old(self).pos() == old(self).bytes().len(),
            old(self).bytes().len() + raw_data@.len() <= u32::MAX,
        ensures
            final(self).bytes() == old(self).bytes() + raw_data@,
            final(self).pos() == final(self).bytes().len(),
    {
        let mut i: usize = 0;
        let n: usize = raw_data.len();
        while i < n
            invariant
                i <= n,
                n == raw_data@.len(),
                self.data@ == old(self).bytes() + raw_data@.subrange(0, i as int),
                self.position == self.data@.len(),
                self.data@.len() + (n - i) <= u32::MAX,
            decreases n - i,
        {
            self.data.push(raw_data[i]);
            i = i + 1;
            proof {
                assert(self.data@ =~= old(self).bytes() + raw_data@.subrange(0, i as int));
            }
            self.position = self.position + 1;
        }
        proof {
            assert(self.data@ =~= old(self).bytes() + raw_data@);
        }
    }

    /// Writes our little-endian magic (that is, 4 bytes of u8).
    pub fn write_magic(&mut self, magic: SectionMagic)
        requires
            old(self).pos() == old(self).bytes().len(),
            old(self).bytes().len() + 4 <= u32::MAX,
        ensures
            final(self).bytes() == old(self).bytes() + magic@,
            final(self).pos() == final(self).bytes().len(),
    {
        let m: [u8; 4] = magic;
        self.write_length(m.as_slice());
        proof {
            assert(old(self).bytes() + m@ =~= old(self).bytes() + magic@);
        }
    }

    /// Writes padding to align a region of the given length to 4 bytes.
    pub fn write_padding(&mut self, length: u32)
        requires
            old(self).pos() == old(self).bytes().len(),
            old(self).bytes().len() + 4 <= u32::MAX,
        ensures
            final(self).bytes() == old(self).bytes() + zero_bytes(pad4(length as int)),
            final(self).pos() == final(self).bytes().len(),
    {
        let alignment: u32 = 4;
        let padding_length: u32 = alignment - (length % alignment);
        if padding_length == alignment {
            // No padding is necessary.
            proof {
                assert(self.data@ =~= old(self).bytes() + zero_bytes(pad4(length as int)));
            }
            return ;
        }
        let mut i: u32 = 0;
        while i < padding_length
            invariant
                i <= padding_length,
                padding_length == pad4(length as int),
                self.data@ == old(self).bytes() + zero_bytes(i as int),
                self.position == self.data@.len(),
                self.data@.len() + (padding_length - i) <= u32::MAX,
            decreases padding_length - i,
        {
            self.data.push(0u8);
            i = i + 1;
            proof {
                assert(self.data@ =~= old(self).bytes() + zero_bytes(i as int));
            }
            self.position = self.position + 1;
        }
    }
}

} // verus!
