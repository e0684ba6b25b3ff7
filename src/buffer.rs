use vstd::prelude::*;

use crate::errors::Packet;
use crate::reader::e_str;
use crate::text::{encode_utf16le, utf16le};

verus! {

/// Largest frame, length prefix included, that the transport carries.
pub const MAX_FRAME: usize = 65535;

/// Size of the zeroed backing store that a fresh buffer starts with.
pub const INITIAL_CAPACITY: usize = 32;

/// Two little-endian bytes of `v`.
pub open spec fn le16(v: i16) -> Seq<u8> {
    seq![(v & 0xff) as u8, ((v >> 8) & 0xff) as u8]
}

/// Four little-endian bytes of `v`.
pub open spec fn le32(v: i32) -> Seq<u8> {
    seq![(v & 0xff) as u8, ((v >> 8) & 0xff) as u8, ((v >> 16) & 0xff) as u8, ((v >> 24) & 0xff) as u8]
}

/// Four little-endian bytes of `v`.
pub open spec fn le_u32(v: u32) -> Seq<u8> {
    seq![(v & 0xff) as u8, ((v >> 8) & 0xff) as u8, ((v >> 16) & 0xff) as u8, ((v >> 24) & 0xff) as u8]
}

/// Eight little-endian bytes of `v`.
pub open spec fn le64(v: i64) -> Seq<u8> {
    seq![
        (v & 0xff) as u8,
        ((v >> 8) & 0xff) as u8,
        ((v >> 16) & 0xff) as u8,
        ((v >> 24) & 0xff) as u8,
        ((v >> 32) & 0xff) as u8,
        ((v >> 40) & 0xff) as u8,
        ((v >> 48) & 0xff) as u8,
        ((v >> 56) & 0xff) as u8,
    ]
}

/// How many more bytes a frame of length `len` can take.
pub open spec fn room(len: nat) -> nat {
    if len < MAX_FRAME {
        (MAX_FRAME - len) as nat
    } else {
        0
    }
}

/// The frame content after appending `bytes` byte by byte to `old`, stopping at the
/// first byte that does not fit.
pub open spec fn appended(old: Seq<u8>, bytes: Seq<u8>) -> Seq<u8> {
    if bytes.len() <= room(old.len()) {
        old + bytes
    } else {
        old + bytes.take(room(old.len()) as int)
    }
}

/// The bytes of `s`, each reinterpreted as unsigned.
pub open spec fn i8_seq_as_u8(s: Seq<i8>) -> Seq<u8> {
    s.map_values(|v: i8| v as u8)
}

/// A growable frame under construction. The first two bytes are reserved for the
/// little-endian length prefix, which `get_data` fills in.
#[derive(Debug, Clone)]
pub struct SendablePacketBuffer {
    data: Vec<u8>,
    position: usize,
}

impl SendablePacketBuffer {
    /// The frame written so far, the two prefix bytes included.
    pub closed spec fn view(&self) -> Seq<u8> {
        self.data@.take(self.position as int)
    }

    /// The size of the backing store, which may exceed the frame.
    pub closed spec fn store_len(&self) -> nat {
        self.data@.len()
    }

    pub closed spec fn wf(&self) -> bool {
        self.position <= self.data@.len()
    }

    /// What every append operation guarantees: the bytes that fit were appended, in
    /// order, and the call succeeded exactly when all of them fit.
    pub open spec fn wrote(old: Self, new: Self, bytes: Seq<u8>, r: Result<(), Packet>) -> bool {
        &&& new.wf()
        &&& new.view() == appended(old.view(), bytes)
        &&& new.store_len() == old.store_len() + (new.view().len() - old.view().len())
        &&& (r is Ok <==> bytes.len() <= room(old.view().len()))
        &&& (r is Err ==> r == Err::<(), Packet>(Packet::Write { max_size: MAX_FRAME }))
    }

    pub fn new() -> (r: Self)
        ensures
            r.wf(),
            r.view() == seq![0u8, 0u8],
            r.store_len() == INITIAL_CAPACITY,
    {
        let r = SendablePacketBuffer { data: vec![0u8; INITIAL_CAPACITY], position: 2 };
        assert(r.view() =~= seq![0u8, 0u8]);
        r
    }

    /// A buffer whose frame is exactly `data` (its first two bytes take the place of
    /// the length prefix).
    pub fn from_bytes(data: &[u8]) -> (r: Self)
        ensures
            r.wf(),
            r.view() == data@,
            r.store_len() == data@.len(),
    {
        let v = vstd::slice::slice_to_vec(data);
        let r = SendablePacketBuffer { data: v, position: data.len() };
        assert(r.view() =~= data@);
        r
    }

    pub fn write(&mut self, value: u8) -> (r: Result<(), Packet>)
        requires
            old(self).wf(),
        ensures
            Self::wrote(*old(self), *final(self), seq![value], r),
    {
        if self.position < Self::get_max_size() {
            self.data.insert(self.position, value);
            self.position = self.position + 1;
            assert(self.view() =~= old(self).view().push(value));
            assert(old(self).view().push(value) =~= old(self).view() + seq![value]);
            Ok(())
        } else {
            assert(appended(old(self).view(), seq![value]) =~= old(self).view());
            Err(Packet::Write { max_size: Self::get_max_size() })
        }
    }

    pub fn write_bytes(&mut self, value: &[u8]) -> (r: Result<(), Packet>)
        requires
            old(self).wf(),
        ensures
            Self::wrote(*old(self), *final(self), value@, r),
    {
        let n = value.len();
        let mut i: usize = 0;
        while i < n
            invariant
                n == value@.len(),
                i <= n,
                self.wf(),
                i <= room(old(self).view().len()),
                self.view() == old(self).view() + value@.take(i as int),
                self.store_len() == old(self).store_len() + i,
            decreases n - i,
        {
            let ghost before = *self;
            let w = self.write(value[i]);
            match w {
                Ok(()) => {
                    assert(value@.take(i + 1) =~= value@.take(i as int).push(value@[i as int]));
                    i = i + 1;
                },
                Err(e) => {
                    assert(self.view() == before.view());
                    assert(i == room(old(self).view().len()));
                    assert(appended(old(self).view(), value@) == old(self).view() + value@.take(i as int));
                    return Err(e);
                },
            }
        }
        assert(value@.take(n as int) =~= value@);
        Ok(())
    }

    pub fn write_i8_bytes(&mut self, value: &[i8]) -> (r: Result<(), Packet>)
        requires
            old(self).wf(),
        ensures
            Self::wrote(*old(self), *final(self), i8_seq_as_u8(value@), r),
    {
        let ghost bytes = i8_seq_as_u8(value@);
        let n = value.len();
        let mut i: usize = 0;
        while i < n
            invariant
                n == value@.len(),
                bytes == i8_seq_as_u8(value@),
                bytes.len() == n,
                i <= n,
                self.wf(),
                i <= room(old(self).view().len()),
                self.view() == old(self).view() + bytes.take(i as int),
                self.store_len() == old(self).store_len() + i,
            decreases n - i,
        {
            let ghost before = *self;
            let w = self.write_i8(value[i]);
            match w {
                Ok(()) => {
                    assert(bytes.take(i + 1) =~= bytes.take(i as int).push(bytes[i as int]));
                    i = i + 1;
                },
                Err(e) => {
                    assert(i == room(old(self).view().len()));
                    return Err(e);
                },
            }
        }
        assert(bytes.take(n as int) =~= bytes);
        Ok(())
    }

    pub fn write_i8(&mut self, value: i8) -> (r: Result<(), Packet>)
        requires
            old(self).wf(),
        ensures
            Self::wrote(*old(self), *final(self), seq![value as u8], r),
    {
        self.write(value as u8)
    }

    pub fn write_u8(&mut self, value: u8) -> (r: Result<(), Packet>)
        requires
            old(self).wf(),
        ensures
            Self::wrote(*old(self), *final(self), seq![value], r),
    {
        self.write(value)
    }

    pub fn write_i8_from_bool(&mut self, value: bool) -> (r: Result<(), Packet>)
        requires
            old(self).wf(),
        ensures
            Self::wrote(*old(self), *final(self), seq![if value { 1u8 } else { 0u8 }], r),
    {
        let v: i8 = if value { 1 } else { 0 };
        self.write_i8(v)
    }

    pub fn write_i16(&mut self, value: i16) -> (r: Result<(), Packet>)
        requires
            old(self).wf(),
        ensures
            Self::wrote(*old(self), *final(self), le16(value), r),
    {
        let b: Vec<u8> = vec![(value & 0xff) as u8, ((value >> 8) & 0xff) as u8];
        assert(b@ =~= le16(value));
        self.write_bytes(b.as_slice())
    }

    pub fn write_i16_from_bool(&mut self, value: bool) -> (r: Result<(), Packet>)
        requires
            old(self).wf(),
        ensures
            Self::wrote(*old(self), *final(self), le16(if value { 1i16 } else { 0i16 }), r),
    {
        let v: i16 = if value { 1 } else { 0 };
        self.write_i16(v)
    }

    pub fn write_i32(&mut self, value: i32) -> (r: Result<(), Packet>)
        requires
            old(self).wf(),
        ensures
            Self::wrote(*old(self), *final(self), le32(value), r),
    {
        let b: Vec<u8> = vec![
            (value & 0xff) as u8,
            ((value >> 8) & 0xff) as u8,
            ((value >> 16) & 0xff) as u8,
            ((value >> 24) & 0xff) as u8,
        ];
        assert(b@ =~= le32(value));
        self.write_bytes(b.as_slice())
    }

    pub fn write_u32(&mut self, value: u32) -> (r: Result<(), Packet>)
        requires
            old(self).wf(),
        ensures
            Self::wrote(*old(self), *final(self), le_u32(value), r),
    {
        let b: Vec<u8> = vec![
            (value & 0xff) as u8,
            ((value >> 8) & 0xff) as u8,
            ((value >> 16) & 0xff) as u8,
            ((value >> 24) & 0xff) as u8,
        ];
        assert(b@ =~= le_u32(value));
        self.write_bytes(b.as_slice())
    }

    pub fn write_i32_from_bool(&mut self, value: bool) -> (r: Result<(), Packet>)
        requires
            old(self).wf(),
        ensures
            Self::wrote(*old(self), *final(self), le32(if value { 1i32 } else { 0i32 }), r),
    {
        let v: i32 = if value { 1 } else { 0 };
        self.write_i32(v)
    }

    pub fn write_i64(&mut self, value: i64) -> (r: Result<(), Packet>)
        requires
            old(self).wf(),
        ensures
            Self::wrote(*old(self), *final(self), le64(value), r),
    {
        let b: Vec<u8> = vec![
            (value & 0xff) as u8,
            ((value >> 8) & 0xff) as u8,
            ((value >> 16) & 0xff) as u8,
            ((value >> 24) & 0xff) as u8,
            ((value >> 32) & 0xff) as u8,
            ((value >> 40) & 0xff) as u8,
            ((value >> 48) & 0xff) as u8,
            ((value >> 56) & 0xff) as u8,
        ];
        assert(b@ =~= le64(value));
        self.write_bytes(b.as_slice())
    }

    pub fn write_i64_from_bool(&mut self, value: bool) -> (r: Result<(), Packet>)
        requires
            old(self).wf(),
        ensures
            Self::wrote(*old(self), *final(self), le64(if value { 1i64 } else { 0i64 }), r),
    {
        let v: i64 = if value { 1 } else { 0 };
        self.write_i64(v)
    }

    /// Writes the string, if any, as UTF-16LE, then a NUL unit.
    pub fn write_string(&mut self, value: Option<&str>) -> (r: Result<(), Packet>)
        requires
            old(self).wf(),
        ensures
            Self::wrote(*old(self), *final(self), string_bytes(value), r),
    {
        let ghost o = *self;
        if let Some(st) = value {
            let b = encode_utf16le(st);
            match self.write_bytes(b.as_slice()) {
                Ok(()) => {},
                Err(e) => {
                    proof {
                        lemma_appended_stops(o.view(), b@, le16(0));
                    }
                    return Err(e);
                },
            }
        }
        let ghost m = *self;
        let r = self.write_i16(0);
        proof {
            if value is Some {
                lemma_appended_chain(o.view(), utf16le(value->Some_0@), le16(0));
            } else {
                assert(Seq::<u8>::empty() + le16(0) =~= le16(0));
            }
        }
        r
    }

    /// Writes a 16-bit length (the string's UTF-8 byte count modulo 256) and the string
    /// as UTF-16LE without terminator; with no string, a zero length only.
    pub fn write_sized_string(&mut self, value: Option<&str>) -> (r: Result<(), Packet>)
        requires
            old(self).wf(),
        ensures
            Self::wrote(*old(self), *final(self), sized_string_bytes(value), r),
    {
        let ghost o = *self;
        if let Some(st) = value {
            let n: i16 = (st.len() % 256) as i16;
            match self.write_i16(n) {
                Ok(()) => {},
                Err(e) => {
                    proof {
                        lemma_appended_stops(o.view(), le16(n), utf16le(st@));
                    }
                    return Err(e);
                },
            }
            let b = encode_utf16le(st);
            let r = self.write_bytes(b.as_slice());
            proof {
                lemma_appended_chain(o.view(), le16(n), utf16le(st@));
            }
            r
        } else {
            self.write_i16(0)
        }
    }

    pub fn get_cursor_position(&self) -> (r: usize)
        requires
            self.wf(),
        ensures
            r == self.view().len(),
    {
        self.position
    }

    pub fn get_size(&self) -> (r: usize)
        ensures
            r == self.store_len(),
    {
        self.data.len()
    }

    /// The finished frame: the content written so far with its length in the first
    /// two bytes.
    pub fn get_data(&self) -> (r: Vec<u8>)
        requires
            self.wf(),
            self.view().len() >= 2,
        ensures
            r@ == with_length_prefix(self.view()),
    {
        let mut r: Vec<u8> = Vec::new();
        let mut i: usize = 0;
        while i < self.position
            invariant
                self.wf(),
                i <= self.position,
                r@ == self.view().take(i as int),
            decreases self.position - i,
        {
            r.push(self.data[i]);
            i = i + 1;
            assert(r@ =~= self.view().take(i as int));
        }
        let p = self.position;
        r.set(0, (p % 256) as u8);
        r.set(1, ((p / 256) % 256) as u8);
        assert(r@ =~= with_length_prefix(self.view()));
        r
    }

    /// Sets the size of the backing store; the frame itself is kept.
    pub fn resize_buffer(&mut self, size: usize)
        requires
            old(self).wf(),
            size >= old(self).view().len(),
        ensures
            final(self).wf(),
            final(self).view() == old(self).view(),
            final(self).store_len() == size,
    {
        self.data.resize(size, 0);
        assert(self.view() =~= old(self).view());
    }

    pub fn get_max_size() -> (r: usize)
        ensures
            r == MAX_FRAME,
    {
        MAX_FRAME
    }
}

/// What `write_string` appends.
pub open spec fn string_bytes(value: Option<&str>) -> Seq<u8> {
    match value {
        Some(s) => utf16le(s@) + le16(0),
        None => le16(0),
    }
}

/// What `write_sized_string` appends.
pub open spec fn sized_string_bytes(value: Option<&str>) -> Seq<u8> {
    match value {
        Some(s) => le16((s.len() % 256) as i16) + utf16le(s@),
        None => le16(0),
    }
}

/// Appending `a` then `b` is appending `a + b`, when `a` fits.
pub proof fn lemma_appended_chain(o: Seq<u8>, a: Seq<u8>, b: Seq<u8>)
    requires
        a.len() <= room(o.len()),
    ensures
        appended(appended(o, a), b) == appended(o, a + b),
        (b.len() <= room((o + a).len())) == ((a + b).len() <= room(o.len())),
{
    assert(appended(o, a) == o + a);
    if b.len() <= room((o + a).len()) {
        assert(o + a + b =~= o + (a + b));
    } else {
        assert(o + a + b.take(room((o + a).len()) as int) =~= o + (a + b).take(room(o.len()) as int));
    }
}

/// Once `a` does not fit, whatever follows it is not written either.
pub proof fn lemma_appended_stops(o: Seq<u8>, a: Seq<u8>, b: Seq<u8>)
    requires
        a.len() > room(o.len()),
    ensures
        appended(o, a) == appended(o, a + b),
        (a + b).len() > room(o.len()),
{
    assert(a.take(room(o.len()) as int) =~= (a + b).take(room(o.len()) as int));
}

/// `frame` with its first two bytes replaced by its length, little-endian.
pub open spec fn with_length_prefix(frame: Seq<u8>) -> Seq<u8> {
    frame.update(0, (frame.len() % 256) as u8).update(1, ((frame.len() / 256) % 256) as u8)
}

} // verus!

verus! {

/// Appends one byte.
pub fn put_u8(v: &mut Vec<u8>, x: u8)
    ensures
        final(v)@ == old(v)@ + seq![x],
{
    v.push(x);
    assert(final(v)@ =~= old(v)@ + seq![x]);
}

/// Appends a slice.
pub fn put_bytes(v: &mut Vec<u8>, x: &[u8])
    ensures
        final(v)@ == old(v)@ + x@,
{
    let n = x.len();
    let mut i: usize = 0;
    while i < n
        invariant
            n == x@.len(),
            i <= n,
            v@ == old(v)@ + x@.take(i as int),
        decreases n - i,
    {
        v.push(x[i]);
        i = i + 1;
        assert(v@ =~= old(v)@ + x@.take(i as int));
    }
    assert(x@.take(n as int) =~= x@);
}

pub fn put_i16(v: &mut Vec<u8>, x: i16)
    ensures
        final(v)@ == old(v)@ + le16(x),
{
    v.push((x & 0xff) as u8);
    v.push(((x >> 8) & 0xff) as u8);
    assert(final(v)@ =~= old(v)@ + le16(x));
}

pub fn put_i32(v: &mut Vec<u8>, x: i32)
    ensures
        final(v)@ == old(v)@ + le32(x),
{
    v.push((x & 0xff) as u8);
    v.push(((x >> 8) & 0xff) as u8);
    v.push(((x >> 16) & 0xff) as u8);
    v.push(((x >> 24) & 0xff) as u8);
    assert(final(v)@ =~= old(v)@ + le32(x));
}

pub fn put_u32(v: &mut Vec<u8>, x: u32)
    ensures
        final(v)@ == old(v)@ + le_u32(x),
{
    v.push((x & 0xff) as u8);
    v.push(((x >> 8) & 0xff) as u8);
    v.push(((x >> 16) & 0xff) as u8);
    v.push(((x >> 24) & 0xff) as u8);
    assert(final(v)@ =~= old(v)@ + le_u32(x));
}

pub fn put_i64(v: &mut Vec<u8>, x: i64)
    ensures
        final(v)@ == old(v)@ + le64(x),
{
    v.push((x & 0xff) as u8);
    v.push(((x >> 8) & 0xff) as u8);
    v.push(((x >> 16) & 0xff) as u8);
    v.push(((x >> 24) & 0xff) as u8);
    v.push(((x >> 32) & 0xff) as u8);
    v.push(((x >> 40) & 0xff) as u8);
    v.push(((x >> 48) & 0xff) as u8);
    v.push(((x >> 56) & 0xff) as u8);
    assert(final(v)@ =~= old(v)@ + le64(x));
}

/// Appends a string as UTF-16LE with a NUL terminator.
pub fn put_str(v: &mut Vec<u8>, s: &str)
    ensures
        final(v)@ == old(v)@ + e_str(s@),
{
    let b = encode_utf16le(s);
    put_bytes(v, b.as_slice());
    put_u8(v, 0);
    put_u8(v, 0);
    assert(final(v)@ =~= old(v)@ + e_str(s@));
}

} // verus!

verus! {

/// A fresh frame holding `body` after the length prefix, as far as it fits.
pub fn framed(body: &[u8]) -> (r: SendablePacketBuffer)
    ensures
        r.wf(),
        r.view() == appended(seq![0u8, 0u8], body@),
        r.view().len() >= 2,
{
    let mut b = SendablePacketBuffer::new();
    let _ = b.write_bytes(body);
    b
}

} // verus!
