//! One guest access to a register space: a direction, a byte offset, a
//! length, and the bytes that travel, with a cursor that handlers advance.
//!
//! A [`ReadOp`] carries bytes from the device to the guest: the handler
//! writes into it. A [`WriteOp`] carries bytes from the guest to the device:
//! the handler reads out of it. Multi-byte values travel in little-endian
//! order.

use vstd::prelude::*;

verus! {

/// Byte `index` of `value` in little-endian order: byte 0 is the lowest, and
/// past the eighth every byte is zero.
pub open spec fn le_byte(value: u64, index: nat) -> u8 {
    if index < 8 {
        ((value >> ((8 * index) as u64)) & 0xff) as u8
    } else {
        0
    }
}

/// The `width` lowest bytes of `value`, lowest first.
pub open spec fn le_bytes(value: u64, width: nat) -> Seq<u8> {
    Seq::new(width, |i: int| le_byte(value, i as nat))
}

/// The bytes `[offset, offset + len)` of `value` in little-endian order:
/// what an access of `len` bytes at `offset` sees of a register that holds
/// `value`.
pub open spec fn le_window(value: u64, offset: nat, len: nat) -> Seq<u8> {
    Seq::new(len, |i: int| le_byte(value, (offset + i) as nat))
}

/// The 16-bit value whose little-endian bytes are the first two of `bytes`.
pub open spec fn le_u16(bytes: Seq<u8>) -> u16 {
    (bytes[0] as u16) | ((bytes[1] as u16) << 8)
}

/// The 32-bit value whose little-endian bytes are the first four of `bytes`.
pub open spec fn le_u32(bytes: Seq<u8>) -> u32 {
    (bytes[0] as u32) | ((bytes[1] as u32) << 8) | ((bytes[2] as u32) << 16) | ((bytes[3] as u32)
        << 24)
}

/// What a [`ReadOp`] is, as plain values.
pub struct ReadView {
    /// Where the access starts, relative to the base of its region.
    pub offset: nat,
    /// The bytes the guest will see, one per byte of the access.
    pub bytes: Seq<u8>,
    /// How many of them, from the front, a handler has written.
    pub written: nat,
}

impl ReadView {
    /// The length of the access in bytes.
    pub open spec fn len(self) -> nat {
        self.bytes.len()
    }

    /// The cursor has not run past the end.
    pub open spec fn wf(self) -> bool {
        self.written <= self.bytes.len()
    }

    /// The bytes still to be written.
    pub open spec fn avail(self) -> nat {
        (self.bytes.len() - self.written) as nat
    }

    /// Every byte has been written.
    pub open spec fn complete(self) -> bool {
        self.written == self.bytes.len()
    }

    /// Nothing has been written yet.
    pub open spec fn fresh(self) -> bool {
        self.written == 0
    }

    /// Nothing has been written yet and every byte is zero.
    pub open spec fn blank(self) -> bool {
        self.written == 0 && self.bytes == Seq::new(self.bytes.len(), |i: int| 0u8)
    }

    /// The operation after `data` was written at the cursor.
    pub open spec fn put(self, data: Seq<u8>) -> ReadView {
        ReadView {
            offset: self.offset,
            bytes: self.bytes.subrange(0, self.written as int) + data + self.bytes.subrange(
                (self.written + data.len()) as int,
                self.bytes.len() as int,
            ),
            written: self.written + data.len(),
        }
    }

    /// The operation after the rest of it was filled with `byte`.
    pub open spec fn filled(self, byte: u8) -> ReadView {
        self.put(Seq::new(self.avail(), |i: int| byte))
    }

    /// Writing nothing changes nothing.
    pub proof fn lemma_put_nothing(self)
        requires
            self.wf(),
        ensures
            self.put(Seq::empty()) == self,
    {
        assert(self.put(Seq::empty()).bytes =~= self.bytes);
    }

    /// Two writes in a row are one write of the two pieces joined.
    pub proof fn lemma_put_put(self, first: Seq<u8>, second: Seq<u8>)
        requires
            self.wf(),
            first.len() + second.len() <= self.avail(),
        ensures
            self.put(first).wf(),
            self.put(first).put(second) == self.put(first + second),
    {
        assert(self.put(first).put(second).bytes =~= self.put(first + second).bytes);
    }

    /// A write keeps the length of the access and every byte outside the
    /// stretch it covers.
    pub proof fn lemma_put_frame(self, data: Seq<u8>)
        requires
            self.wf(),
            data.len() <= self.avail(),
        ensures
            self.put(data).wf(),
            self.put(data).len() == self.len(),
            self.put(data).bytes.subrange(
                self.written as int,
                (self.written + data.len()) as int,
            ) == data,
            forall|i: int|
                0 <= i < self.len() && !(self.written <= i < self.written + data.len())
                    ==> self.put(data).bytes[i] == self.bytes[i],
    {
        assert(self.put(data).bytes.subrange(
                self.written as int,
                (self.written + data.len()) as int,
            )
            =~= data);
    }
}

/// A read access: the device produces `len` bytes for the guest.
pub struct ReadOp {
    offset: usize,
    buf: Vec<u8>,
    pos: usize,
}

impl View for ReadOp {
    type V = ReadView;

    closed spec fn view(&self) -> ReadView {
        ReadView { offset: self.offset as nat, bytes: self.buf@, written: self.pos as nat }
    }
}

impl ReadOp {
    /// The cursor lies within the buffer.
    pub open spec fn wf(&self) -> bool {
        self@.wf()
    }

    /// A read of `len` bytes at `offset`, nothing written yet, every byte zero.
    pub fn new(offset: usize, len: usize) -> (op: ReadOp)
        ensures
            op.wf(),
            op@.offset == offset,
            op@.bytes == Seq::new(len as nat, |i: int| 0u8),
            op@.written == 0,
            op@.blank(),
    {
        let buf = vec![0u8; len];
        assert(buf@ =~= Seq::new(len as nat, |i: int| 0u8));
        ReadOp { offset, buf, pos: 0 }
    }

    /// Where the access starts, relative to the base of its region.
    pub fn offset(&self) -> (r: usize)
        ensures
            r == self@.offset,
    {
        self.offset
    }

    /// The length of the access in bytes.
    pub fn len(&self) -> (r: usize)
        ensures
            r == self@.len(),
    {
        self.buf.len()
    }

    /// How many bytes can still be written.
    pub fn avail(&self) -> (r: usize)
        requires
            self.wf(),
        ensures
            r == self@.avail(),
    {
        self.buf.len() - self.pos
    }

    /// The bytes of the access as they stand, written or not.
    pub fn bytes(&self) -> (r: &[u8])
        ensures
            r@ == self@.bytes,
    {
        self.buf.as_slice()
    }

    /// Gives up the operation for its bytes.
    pub fn into_bytes(self) -> (r: Vec<u8>)
        ensures
            r@ == self@.bytes,
    {
        self.buf
    }

    /// Writes one byte at the cursor.
    pub fn write_u8(&mut self, value: u8)
        requires
            old(self).wf(),
            old(self)@.avail() >= 1,
        ensures
            final(self).wf(),
            final(self)@ == old(self)@.put(seq![value]),
    {
        let pos = self.pos;
        assert(pos < self.buf.len());
        self.buf.set(pos, value);
        self.pos = pos + 1;
        assert(self@.bytes =~= old(self)@.put(seq![value]).bytes);
    }

    /// Writes `data` at the cursor, in order.
    pub fn write_bytes(&mut self, data: &[u8])
        requires
            old(self).wf(),
            data@.len() <= old(self)@.avail(),
        ensures
            final(self).wf(),
            final(self)@ == old(self)@.put(data@),
    {
        let n = data.len();
        let mut i: usize = 0;
        proof {
            assert(data@.take(0) =~= Seq::empty());
            old(self)@.lemma_put_nothing();
        }
        while i < n
            invariant
                n == data@.len(),
                i <= n,
                self.wf(),
                old(self).wf(),
                n <= old(self)@.avail(),
                self@ == old(self)@.put(data@.take(i as int)),
            decreases n - i,
        {
            self.write_u8(data[i]);
            proof {
                assert(data@.take(i + 1) =~= data@.take(i as int) + seq![data@[i as int]]);
                old(self)@.lemma_put_put(data@.take(i as int), seq![data@[i as int]]);
            }
            i += 1;
        }
        assert(data@.take(n as int) =~= data@);
    }

    /// Writes a 16-bit value at the cursor, low byte first.
    pub fn write_u16(&mut self, value: u16)
        requires
            old(self).wf(),
            old(self)@.avail() >= 2,
        ensures
            final(self).wf(),
            final(self)@ == old(self)@.put(le_bytes(value as u64, 2)),
    {
        let data = u16_to_le(value);
        self.write_bytes(&data);
    }

    /// Writes a 32-bit value at the cursor, low byte first.
    pub fn write_u32(&mut self, value: u32)
        requires
            old(self).wf(),
            old(self)@.avail() >= 4,
        ensures
            final(self).wf(),
            final(self)@ == old(self)@.put(le_bytes(value as u64, 4)),
    {
        let data = u32_to_le(value);
        self.write_bytes(&data);
    }

    /// Answers the access from a register that holds `value`: writes the
    /// bytes of `value` that the access covers, going by its offset and
    /// length. An access of a register's full width at offset 0 gets the
    /// value in little-endian order; a narrower or shifted one gets its
    /// part of it.
    pub fn write_value(&mut self, value: u64)
        requires
            old(self).wf(),
            old(self)@.fresh(),
        ensures
            final(self).wf(),
            final(self)@ == old(self)@.put(le_window(value, old(self)@.offset, old(self)@.len())),
            final(self)@.complete(),
    {
        let n = self.buf.len();
        let offset = self.offset;
        proof {
            assert(le_window(value, offset as nat, 0) =~= Seq::empty());
            old(self)@.lemma_put_nothing();
        }
        while self.pos < n
            invariant
                n == self@.len(),
                n == old(self)@.len(),
                offset == old(self)@.offset,
                old(self)@.fresh(),
                self.wf(),
                old(self).wf(),
                self@ == old(self)@.put(le_window(value, offset as nat, self@.written)),
            decreases n - self.pos,
        {
            let i = self.pos;
            let byte = if offset < 8 && i < 8 - offset {
                let shift = 8 * (offset + i);
                ((value >> shift) & 0xff) as u8
            } else {
                0
            };
            assert(byte == le_byte(value, (offset + i) as nat));
            self.write_u8(byte);
            proof {
                assert(le_window(value, offset as nat, (i + 1) as nat) =~= le_window(
                    value,
                    offset as nat,
                    i as nat,
                ) + seq![byte]);
                old(self)@.lemma_put_put(le_window(value, offset as nat, i as nat), seq![byte]);
            }
        }
    }

    /// Fills what is left of the access with `byte`; afterwards the access
    /// is complete.
    pub fn fill(&mut self, byte: u8)
        requires
            old(self).wf(),
        ensures
            final(self).wf(),
            final(self)@ == old(self)@.filled(byte),
            final(self)@.complete(),
    {
        let n = self.buf.len();
        proof {
            assert(Seq::new(0, |i: int| byte) =~= Seq::empty());
            old(self)@.lemma_put_nothing();
        }
        while self.pos < n
            invariant
                n == self@.len(),
                n == old(self)@.len(),
                self.wf(),
                old(self).wf(),
                old(self)@.written <= self@.written,
                self@ == old(self)@.put(
                    Seq::new((self@.written - old(self)@.written) as nat, |i: int| byte),
                ),
            decreases n - self.pos,
        {
            let ghost before = self@;
            self.write_u8(byte);
            proof {
                let k = (before.written - old(self)@.written) as nat;
                assert(self@.written == before.written + 1);
                assert(Seq::new(k + 1, |i: int| byte) =~= Seq::new(k, |i: int| byte) + seq![byte]);
                old(self)@.lemma_put_put(Seq::new(k, |i: int| byte), seq![byte]);
            }
        }
    }
}

/// The two bytes of `value`, low byte first.
pub fn u16_to_le(value: u16) -> (r: [u8; 2])
    ensures
        r@ == le_bytes(value as u64, 2),
{
    let r = [(value & 0xff) as u8, (value >> 8) as u8];
    proof {
        let v = value as u64;
        assert(le_byte(v, 0) == (value & 0xff) as u8 && le_byte(v, 1) == (value >> 8) as u8)
            by (bit_vector)
            requires
                v == value as u64,
        ;
        assert(r@ =~= le_bytes(value as u64, 2));
    }
    r
}

/// The four bytes of `value`, low byte first.
pub fn u32_to_le(value: u32) -> (r: [u8; 4])
    ensures
        r@ == le_bytes(value as u64, 4),
{
    let r = [
        (value & 0xff) as u8,
        ((value >> 8) & 0xff) as u8,
        ((value >> 16) & 0xff) as u8,
        (value >> 24) as u8,
    ];
    proof {
        let v = value as u64;
        assert(le_byte(v, 0) == (value & 0xff) as u8 && le_byte(v, 1) == ((value >> 8)
            & 0xff) as u8 && le_byte(v, 2) == ((value >> 16) & 0xff) as u8 && le_byte(v, 3) == (
        value >> 24) as u8) by (bit_vector)
            requires
                v == value as u64,
        ;
        assert(r@ =~= le_bytes(value as u64, 4));
    }
    r
}

/// Splitting a 16-bit value into bytes and joining them again gives it back.
pub proof fn lemma_le_u16_round_trip(value: u16)
    ensures
        le_u16(le_bytes(value as u64, 2)) == value,
{
    let v = value as u64;
    assert(((le_byte(v, 0) as u16) | ((le_byte(v, 1) as u16) << 8)) == value) by (bit_vector)
        requires
            v == value as u64,
    ;
}

/// Splitting a 32-bit value into bytes and joining them again gives it back.
pub proof fn lemma_le_u32_round_trip(value: u32)
    ensures
        le_u32(le_bytes(value as u64, 4)) == value,
{
    let v = value as u64;
    assert(((le_byte(v, 0) as u32) | ((le_byte(v, 1) as u32) << 8) | ((le_byte(v, 2) as u32) << 16)
        | ((le_byte(v, 3) as u32) << 24)) == value) by (bit_vector)
        requires
            v == value as u64,
    ;
}

/// What a [`WriteOp`] is, as plain values.
pub struct WriteView {
    /// Where the access starts, relative to the base of its region.
    pub offset: nat,
    /// The bytes the guest supplied, one per byte of the access.
    pub bytes: Seq<u8>,
    /// How many of them, from the front, a handler has taken.
    pub consumed: nat,
}

impl WriteView {
    /// The length of the access in bytes.
    pub open spec fn len(self) -> nat {
        self.bytes.len()
    }

    /// The cursor has not run past the end.
    pub open spec fn wf(self) -> bool {
        self.consumed <= self.bytes.len()
    }

    /// The bytes still to be taken.
    pub open spec fn avail(self) -> nat {
        (self.bytes.len() - self.consumed) as nat
    }

    /// Nothing has been taken yet.
    pub open spec fn fresh(self) -> bool {
        self.consumed == 0
    }

    /// The next `n` bytes at the cursor.
    pub open spec fn next(self, n: nat) -> Seq<u8> {
        self.bytes.subrange(self.consumed as int, (self.consumed + n) as int)
    }

    /// The operation after `n` bytes were taken.
    pub open spec fn advanced(self, n: nat) -> WriteView {
        WriteView { consumed: self.consumed + n, ..self }
    }
}

/// A write access: the guest supplies `len` bytes for the device.
pub struct WriteOp<'a> {
    offset: usize,
    buf: &'a [u8],
    pos: usize,
}

impl<'a> View for WriteOp<'a> {
    type V = WriteView;

    closed spec fn view(&self) -> WriteView {
        WriteView { offset: self.offset as nat, bytes: self.buf@, consumed: self.pos as nat }
    }
}

impl<'a> WriteOp<'a> {
    /// The cursor lies within the buffer.
    pub open spec fn wf(&self) -> bool {
        self@.wf()
    }

    /// A write of the bytes `buf` at `offset`, nothing taken yet.
    pub fn from_buf(offset: usize, buf: &'a [u8]) -> (op: WriteOp<'a>)
        ensures
            op.wf(),
            op@ == (WriteView { offset: offset as nat, bytes: buf@, consumed: 0 }),
    {
        WriteOp { offset, buf, pos: 0 }
    }

    /// Where the access starts, relative to the base of its region.
    pub fn offset(&self) -> (r: usize)
        ensures
            r == self@.offset,
    {
        self.offset
    }

    /// The length of the access in bytes.
    pub fn len(&self) -> (r: usize)
        ensures
            r == self@.len(),
    {
        self.buf.len()
    }

    /// How many bytes can still be taken.
    pub fn avail(&self) -> (r: usize)
        requires
            self.wf(),
        ensures
            r == self@.avail(),
    {
        self.buf.len() - self.pos
    }

    /// Takes the next `len` bytes as an access of their own at `offset`,
    /// and moves the cursor past them.
    pub fn take_child(&mut self, offset: usize, len: usize) -> (child: WriteOp<'a>)
        requires
            old(self).wf(),
            len <= old(self)@.avail(),
        ensures
            final(self).wf(),
            final(self)@ == old(self)@.advanced(len as nat),
            child.wf(),
            child@ == (WriteView {
                offset: offset as nat,
                bytes: old(self)@.next(len as nat),
                consumed: 0,
            }),
    {
        let pos = self.pos;
        assert(pos <= self.buf.len());
        let buf = vstd::slice::slice_subrange(self.buf, pos, pos + len);
        self.pos = pos + len;
        WriteOp { offset, buf, pos: 0 }
    }

    /// Takes one byte at the cursor.
    pub fn read_u8(&mut self) -> (r: u8)
        requires
            old(self).wf(),
            old(self)@.avail() >= 1,
        ensures
            final(self).wf(),
            final(self)@ == old(self)@.advanced(1),
            r == old(self)@.bytes[old(self)@.consumed as int],
    {
        let pos = self.pos;
        assert(pos < self.buf.len());
        let r = self.buf[pos];
        self.pos = pos + 1;
        r
    }

    /// Takes a 16-bit value at the cursor, low byte first.
    pub fn read_u16(&mut self) -> (r: u16)
        requires
            old(self).wf(),
            old(self)@.avail() >= 2,
        ensures
            final(self).wf(),
            final(self)@ == old(self)@.advanced(2),
            r == le_u16(old(self)@.next(2)),
    {
        let b0 = self.read_u8();
        let b1 = self.read_u8();
        (b0 as u16) | ((b1 as u16) << 8)
    }

    /// Takes a 32-bit value at the cursor, low byte first.
    pub fn read_u32(&mut self) -> (r: u32)
        requires
            old(self).wf(),
            old(self)@.avail() >= 4,
        ensures
            final(self).wf(),
            final(self)@ == old(self)@.advanced(4),
            r == le_u32(old(self)@.next(4)),
    {
        let b0 = self.read_u8();
        let b1 = self.read_u8();
        let b2 = self.read_u8();
        let b3 = self.read_u8();
        (b0 as u32) | ((b1 as u32) << 8) | ((b2 as u32) << 16) | ((b3 as u32) << 24)
    }
}

/// A guest access of either direction, as a handler receives it.
pub enum RWOp<'a, 'b> {
    /// The device is to produce bytes.
    Read(&'a mut ReadOp),
    /// The device is to take bytes.
    Write(&'a mut WriteOp<'b>),
}

impl<'a, 'b> RWOp<'a, 'b> {
    /// Whether the guest reads.
    pub fn is_read(&self) -> (r: bool)
        ensures
            r == (self is Read),
    {
        match self {
            RWOp::Read(_) => true,
            RWOp::Write(_) => false,
        }
    }

    /// Where the access starts, relative to the base of its region.
    pub fn offset(&self) -> (r: usize)
        ensures
            r == match self {
                RWOp::Read(ro) => ro@.offset,
                RWOp::Write(wo) => wo@.offset,
            },
    {
        match self {
            RWOp::Read(ro) => ro.offset(),
            RWOp::Write(wo) => wo.offset(),
        }
    }

    /// The length of the access in bytes.
    pub fn len(&self) -> (r: usize)
        ensures
            r == match self {
                RWOp::Read(ro) => ro@.len(),
                RWOp::Write(wo) => wo@.len(),
            },
    {
        match self {
            RWOp::Read(ro) => ro.len(),
            RWOp::Write(wo) => wo.len(),
        }
    }
}

/// Copies `src` over `dst`, which has the same length.
pub fn copy_bytes(dst: &mut [u8], src: &[u8])
    requires
        old(dst)@.len() == src@.len(),
    ensures
        final(dst)@ == src@,
{
    let n = src.len();
    let mut i: usize = 0;
    while i < n
        invariant
            n == src@.len(),
            n == dst@.len(),
            i <= n,
            forall|k: int| 0 <= k < i ==> dst@[k] == src@[k],
        decreases n - i,
    {
        dst[i] = src[i];
        i += 1;
    }
    assert(dst@ =~= src@);
}

} // verus!
