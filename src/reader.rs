use vstd::prelude::*;

use crate::buffer::{le16, le32, le64, le_u32};
use crate::text::{
    decode_units, decode_utf16, lemma_decode_units, lemma_units_le_len, lemma_units_nonzero, no_nul,
    units_le, utf16_units, utf16le,
};

verus! {

/// The code unit stored little-endian in two bytes.
pub open spec fn unit_of(lo: u8, hi: u8) -> u16 {
    (lo as u16) | ((hi as u16) << 8)
}

/// The code units of a NUL-terminated UTF-16LE string at the start of `b`, without the
/// terminator; `None` when `b` ends first.
pub open spec fn nul_units(b: Seq<u8>) -> Option<Seq<u16>>
    decreases b.len(),
{
    if b.len() < 2 {
        None
    } else {
        let u = unit_of(b[0], b[1]);
        if u == 0 {
            Some(seq![])
        } else {
            match nul_units(b.skip(2)) {
                Some(t) => Some(seq![u] + t),
                None => None,
            }
        }
    }
}

/// A NUL-terminated string at the start of `b`: the characters and the number of bytes
/// it takes, terminator included.
pub open spec fn parse_string(b: Seq<u8>) -> Option<(Seq<char>, nat)> {
    match nul_units(b) {
        Some(u) => Some((decode_units(u), 2 * u.len() + 2)),
        None => None,
    }
}

/// The `i16` stored little-endian in the first two bytes of `b`.
pub open spec fn i16_from(b: Seq<u8>) -> i16 {
    ((b[0] as u16) | ((b[1] as u16) << 8)) as i16
}

/// The `i32` stored little-endian in the first four bytes of `b`.
pub open spec fn i32_from(b: Seq<u8>) -> i32 {
    ((b[0] as u32) | ((b[1] as u32) << 8) | ((b[2] as u32) << 16) | ((b[3] as u32) << 24)) as i32
}

/// The `u32` stored little-endian in the first four bytes of `b`.
pub open spec fn u32_from(b: Seq<u8>) -> u32 {
    (b[0] as u32) | ((b[1] as u32) << 8) | ((b[2] as u32) << 16) | ((b[3] as u32) << 24)
}

/// The `i64` stored little-endian in the first eight bytes of `b`.
pub open spec fn i64_from(b: Seq<u8>) -> i64 {
    ((b[0] as u64) | ((b[1] as u64) << 8) | ((b[2] as u64) << 16) | ((b[3] as u64) << 24) | ((
    b[4] as u64) << 32) | ((b[5] as u64) << 40) | ((b[6] as u64) << 48) | ((b[7] as u64) << 56))
        as i64
}

pub proof fn lemma_i16_round_trip(v: i16)
    ensures
        i16_from(le16(v)) == v,
{
    let b = le16(v);
    assert(((((v & 0xff) as u8) as u16) | (((((v >> 8) & 0xff) as u8) as u16) << 8)) as i16 == v)
        by (bit_vector);
}

pub proof fn lemma_i32_round_trip(v: i32)
    ensures
        i32_from(le32(v)) == v,
{
    let b = le32(v);
    assert(((((v & 0xff) as u8) as u32) | (((((v >> 8) & 0xff) as u8) as u32) << 8) | (((((v
        >> 16) & 0xff) as u8) as u32) << 16) | (((((v >> 24) & 0xff) as u8) as u32) << 24)) as i32
        == v) by (bit_vector);
}

pub proof fn lemma_u32_round_trip(v: u32)
    ensures
        u32_from(le_u32(v)) == v,
{
    let b = le_u32(v);
    assert(((((v & 0xff) as u8) as u32) | (((((v >> 8) & 0xff) as u8) as u32) << 8) | (((((v
        >> 16) & 0xff) as u8) as u32) << 16) | (((((v >> 24) & 0xff) as u8) as u32) << 24)) == v)
        by (bit_vector);
}

pub proof fn lemma_i64_round_trip(v: i64)
    ensures
        i64_from(le64(v)) == v,
{
    let b = le64(v);
    assert(((((v & 0xff) as u8) as u64) | (((((v >> 8) & 0xff) as u8) as u64) << 8) | (((((v
        >> 16) & 0xff) as u8) as u64) << 16) | (((((v >> 24) & 0xff) as u8) as u64) << 24) | (((((v
        >> 32) & 0xff) as u8) as u64) << 32) | (((((v >> 40) & 0xff) as u8) as u64) << 40) | (((((v
        >> 48) & 0xff) as u8) as u64) << 48) | (((((v >> 56) & 0xff) as u8) as u64) << 56)) as i64
        == v) by (bit_vector);
}

/// A string written as its UTF-16LE units and a NUL unit reads back as those units,
/// provided none of them is NUL.
pub proof fn lemma_nul_units_of_encoding(u: Seq<u16>, rest: Seq<u8>)
    requires
        forall|i: int| 0 <= i < u.len() ==> u[i] != 0,
    ensures
        nul_units(units_le(u) + seq![0u8, 0u8] + rest) == Some(u),
    decreases u.len(),
{
    let b = units_le(u) + seq![0u8, 0u8] + rest;
    if u.len() == 0 {
        assert(b[0] == 0 && b[1] == 0);
        assert(unit_of(0, 0) == 0) by (bit_vector);
    } else {
        let x = u[0];
        let t = u.drop_first();
        assert forall|i: int| 0 <= i < t.len() implies t[i] != 0 by {
            assert(t[i] == u[i + 1]);
        }
        lemma_nul_units_of_encoding(t, rest);
        assert(units_le(u) == seq![(x & 0xff) as u8, (x >> 8) as u8] + units_le(t));
        assert(b[0] == (x & 0xff) as u8 && b[1] == (x >> 8) as u8);
        assert(unit_of((x & 0xff) as u8, (x >> 8) as u8) == x) by (bit_vector);
        assert(b.skip(2) =~= units_le(t) + seq![0u8, 0u8] + rest);
        assert(seq![x] + t =~= u);
    }
}

/// One byte off the front of `b`, and what follows.
pub open spec fn p_u8(b: Seq<u8>) -> Option<(u8, Seq<u8>)> {
    if b.len() >= 1 {
        Some((b[0], b.skip(1)))
    } else {
        None
    }
}

pub open spec fn p_i16(b: Seq<u8>) -> Option<(i16, Seq<u8>)> {
    if b.len() >= 2 {
        Some((i16_from(b), b.skip(2)))
    } else {
        None
    }
}

pub open spec fn p_i32(b: Seq<u8>) -> Option<(i32, Seq<u8>)> {
    if b.len() >= 4 {
        Some((i32_from(b), b.skip(4)))
    } else {
        None
    }
}

pub open spec fn p_u32(b: Seq<u8>) -> Option<(u32, Seq<u8>)> {
    if b.len() >= 4 {
        Some((u32_from(b), b.skip(4)))
    } else {
        None
    }
}

pub open spec fn p_i64(b: Seq<u8>) -> Option<(i64, Seq<u8>)> {
    if b.len() >= 8 {
        Some((i64_from(b), b.skip(8)))
    } else {
        None
    }
}

/// `n` raw bytes off the front of `b`.
pub open spec fn p_bytes(b: Seq<u8>, n: nat) -> Option<(Seq<u8>, Seq<u8>)> {
    if b.len() >= n {
        Some((b.take(n as int), b.skip(n as int)))
    } else {
        None
    }
}

/// A NUL-terminated UTF-16LE string off the front of `b`.
pub open spec fn p_str(b: Seq<u8>) -> Option<(Seq<char>, Seq<u8>)> {
    match parse_string(b) {
        Some((s, n)) => Some((s, b.skip(n as int))),
        None => None,
    }
}

/// How a string goes on the wire: UTF-16LE and a NUL unit.
pub open spec fn e_str(s: Seq<char>) -> Seq<u8> {
    utf16le(s) + seq![0u8, 0u8]
}

pub proof fn lemma_p_u8(x: u8, rest: Seq<u8>)
    ensures
        p_u8(seq![x] + rest) == Some((x, rest)),
{
    assert((seq![x] + rest).skip(1) =~= rest);
}

pub proof fn lemma_p_i16(v: i16, rest: Seq<u8>)
    ensures
        p_i16(le16(v) + rest) == Some((v, rest)),
{
    lemma_i16_round_trip(v);
    assert(i16_from(le16(v) + rest) == i16_from(le16(v)));
    assert((le16(v) + rest).skip(2) =~= rest);
}

pub proof fn lemma_p_i32(v: i32, rest: Seq<u8>)
    ensures
        p_i32(le32(v) + rest) == Some((v, rest)),
{
    lemma_i32_round_trip(v);
    assert(i32_from(le32(v) + rest) == i32_from(le32(v)));
    assert((le32(v) + rest).skip(4) =~= rest);
}

pub proof fn lemma_p_u32(v: u32, rest: Seq<u8>)
    ensures
        p_u32(le_u32(v) + rest) == Some((v, rest)),
{
    lemma_u32_round_trip(v);
    assert(u32_from(le_u32(v) + rest) == u32_from(le_u32(v)));
    assert((le_u32(v) + rest).skip(4) =~= rest);
}

pub proof fn lemma_p_i64(v: i64, rest: Seq<u8>)
    ensures
        p_i64(le64(v) + rest) == Some((v, rest)),
{
    lemma_i64_round_trip(v);
    assert(i64_from(le64(v) + rest) == i64_from(le64(v)));
    assert((le64(v) + rest).skip(8) =~= rest);
}

pub proof fn lemma_p_bytes(x: Seq<u8>, rest: Seq<u8>)
    ensures
        p_bytes(x + rest, x.len()) == Some((x, rest)),
{
    assert((x + rest).take(x.len() as int) =~= x);
    assert((x + rest).skip(x.len() as int) =~= rest);
}

pub proof fn lemma_p_str(s: Seq<char>, rest: Seq<u8>)
    requires
        no_nul(s),
    ensures
        p_str(e_str(s) + rest) == Some((s, rest)),
{
    let u = utf16_units(s);
    lemma_units_nonzero(s);
    lemma_nul_units_of_encoding(u, rest);
    lemma_decode_units(s);
    lemma_units_le_len(u);
    assert(e_str(s) + rest == units_le(u) + seq![0u8, 0u8] + rest);
    assert((e_str(s) + rest).skip((2 * u.len() + 2) as int) =~= rest);
}

/// A cursor over a received frame body.
pub struct ReadablePacketBuffer {
    data: Vec<u8>,
    position: usize,
}

impl ReadablePacketBuffer {
    /// The bytes not read yet.
    pub closed spec fn rest(&self) -> Seq<u8> {
        self.data@.skip(self.position as int)
    }

    /// How many bytes have been read.
    pub closed spec fn consumed(&self) -> nat {
        self.position as nat
    }

    pub closed spec fn wf(&self) -> bool {
        self.position <= self.data@.len()
    }

    pub fn new(data: Vec<u8>) -> (r: Self)
        ensures
            r.wf(),
            r.rest() == data@,
            r.consumed() == 0,
    {
        let r = ReadablePacketBuffer { data, position: 0 };
        assert(r.rest() =~= data@);
        r
    }

    pub fn remaining(&self) -> (r: usize)
        requires
            self.wf(),
        ensures
            r == self.rest().len(),
    {
        self.data.len() - self.position
    }

    pub fn read_byte(&mut self) -> (r: Option<u8>)
        requires
            old(self).wf(),
        ensures
            final(self).wf(),
            old(self).rest().len() >= 1 ==> r == Some(old(self).rest()[0]) && final(self).rest()
                == old(self).rest().skip(1) && final(self).consumed() == old(self).consumed() + 1,
            old(self).rest().len() < 1 ==> r is None && *final(self) == *old(self),
    {
        if self.position < self.data.len() {
            let b = self.data[self.position];
            self.position = self.position + 1;
            assert(self.rest() =~= old(self).rest().skip(1));
            Some(b)
        } else {
            None
        }
    }

    pub fn read_bytes(&mut self, n: usize) -> (r: Option<Vec<u8>>)
        requires
            old(self).wf(),
        ensures
            final(self).wf(),
            old(self).rest().len() >= n ==> r is Some && r->Some_0@ == old(self).rest().take(n as int)
                && final(self).rest() == old(self).rest().skip(n as int) && final(self).consumed()
                == old(self).consumed() + n,
            old(self).rest().len() < n ==> r is None && *final(self) == *old(self),
    {
        if n <= self.data.len() - self.position {
            let mut v: Vec<u8> = Vec::new();
            let start = self.position;
            let stop = start + n;
            let mut j: usize = start;
            while j < stop
                invariant
                    self.wf(),
                    self.position == old(self).position,
                    self.data@ == old(self).data@,
                    start == self.position,
                    stop == start + n,
                    stop <= self.data@.len(),
                    start <= j <= stop,
                    v@ == old(self).rest().take(j - start),
                decreases stop - j,
            {
                v.push(self.data[j]);
                j = j + 1;
                assert(v@ =~= old(self).rest().take(j - start));
            }
            self.position = self.position + n;
            assert(self.rest() =~= old(self).rest().skip(n as int));
            Some(v)
        } else {
            None
        }
    }

    pub fn read_i16(&mut self) -> (r: Option<i16>)
        requires
            old(self).wf(),
        ensures
            final(self).wf(),
            old(self).rest().len() >= 2 ==> r == Some(i16_from(old(self).rest()))
                && final(self).rest() == old(self).rest().skip(2) && final(self).consumed()
                == old(self).consumed() + 2,
            old(self).rest().len() < 2 ==> r is None && *final(self) == *old(self),
    {
        if 2 <= self.data.len() - self.position {
            let b0 = self.data[self.position];
            let b1 = self.data[self.position + 1];
            let v: i16 = ((b0 as u16) | ((b1 as u16) << 8)) as i16;
            self.position = self.position + 2;
            assert(self.rest() =~= old(self).rest().skip(2));
            Some(v)
        } else {
            None
        }
    }

    pub fn read_i32(&mut self) -> (r: Option<i32>)
        requires
            old(self).wf(),
        ensures
            final(self).wf(),
            old(self).rest().len() >= 4 ==> r == Some(i32_from(old(self).rest()))
                && final(self).rest() == old(self).rest().skip(4) && final(self).consumed()
                == old(self).consumed() + 4,
            old(self).rest().len() < 4 ==> r is None && *final(self) == *old(self),
    {
        if 4 <= self.data.len() - self.position {
            let p = self.position;
            let b0 = self.data[p];
            let b1 = self.data[p + 1];
            let b2 = self.data[p + 2];
            let b3 = self.data[p + 3];
            let v: i32 = ((b0 as u32) | ((b1 as u32) << 8) | ((b2 as u32) << 16) | ((b3 as u32)
                << 24)) as i32;
            self.position = self.position + 4;
            assert(self.rest() =~= old(self).rest().skip(4));
            Some(v)
        } else {
            None
        }
    }

    pub fn read_u32(&mut self) -> (r: Option<u32>)
        requires
            old(self).wf(),
        ensures
            final(self).wf(),
            old(self).rest().len() >= 4 ==> r == Some(u32_from(old(self).rest()))
                && final(self).rest() == old(self).rest().skip(4) && final(self).consumed()
                == old(self).consumed() + 4,
            old(self).rest().len() < 4 ==> r is None && *final(self) == *old(self),
    {
        if 4 <= self.data.len() - self.position {
            let p = self.position;
            let b0 = self.data[p];
            let b1 = self.data[p + 1];
            let b2 = self.data[p + 2];
            let b3 = self.data[p + 3];
            let v: u32 = (b0 as u32) | ((b1 as u32) << 8) | ((b2 as u32) << 16) | ((b3 as u32)
                << 24);
            self.position = self.position + 4;
            assert(self.rest() =~= old(self).rest().skip(4));
            Some(v)
        } else {
            None
        }
    }

    pub fn read_i64(&mut self) -> (r: Option<i64>)
        requires
            old(self).wf(),
        ensures
            final(self).wf(),
            old(self).rest().len() >= 8 ==> r == Some(i64_from(old(self).rest()))
                && final(self).rest() == old(self).rest().skip(8) && final(self).consumed()
                == old(self).consumed() + 8,
            old(self).rest().len() < 8 ==> r is None && *final(self) == *old(self),
    {
        if 8 <= self.data.len() - self.position {
            let p = self.position;
            let b0 = self.data[p];
            let b1 = self.data[p + 1];
            let b2 = self.data[p + 2];
            let b3 = self.data[p + 3];
            let b4 = self.data[p + 4];
            let b5 = self.data[p + 5];
            let b6 = self.data[p + 6];
            let b7 = self.data[p + 7];
            let v: i64 = ((b0 as u64) | ((b1 as u64) << 8) | ((b2 as u64) << 16) | ((b3 as u64)
                << 24) | ((b4 as u64) << 32) | ((b5 as u64) << 40) | ((b6 as u64) << 48) | ((b7
                as u64) << 56)) as i64;
            self.position = self.position + 8;
            assert(self.rest() =~= old(self).rest().skip(8));
            Some(v)
        } else {
            None
        }
    }

    /// Reads a NUL-terminated UTF-16LE string.
    pub fn read_string(&mut self) -> (r: Option<String>)
        requires
            old(self).wf(),
        ensures
            final(self).wf(),
            match parse_string(old(self).rest()) {
                Some((s, n)) => r is Some && r->Some_0@ == s && final(self).rest() == old(
                    self,
                ).rest().skip(n as int) && final(self).consumed() == old(self).consumed() + n,
                None => r is None && *final(self) == *old(self),
            },
    {
        let start = self.position;
        let mut units: Vec<u16> = Vec::new();
        loop
            invariant
                self.wf(),
                self.data == old(self).data,
                start == old(self).position,
                self.position == start + 2 * units@.len(),
                nul_units(old(self).rest()) == match nul_units(self.rest()) {
                    Some(t) => Some(units@ + t),
                    None => None::<Seq<u16>>,
                },
            decreases self.data@.len() - self.position,
        {
            if self.data.len() - self.position < 2 {
                assert(nul_units(self.rest()) is None);
                self.position = start;
                return None;
            }
            let lo = self.data[self.position];
            let hi = self.data[self.position + 1];
            let u: u16 = (lo as u16) | ((hi as u16) << 8);
            let ghost rest = self.rest();
            assert(rest[0] == lo && rest[1] == hi);
            self.position = self.position + 2;
            assert(self.rest() =~= rest.skip(2));
            if u == 0 {
                assert(nul_units(rest) == Some(Seq::<u16>::empty()));
                assert(units@ + Seq::<u16>::empty() =~= units@);
                let s = decode_utf16(units.as_slice());
                return Some(s);
            }
            proof {
                match nul_units(self.rest()) {
                    Some(t) => {
                        assert(units@.push(u) + t =~= units@ + (seq![u] + t));
                    },
                    None => {},
                }
            }
            units.push(u);
        }
    }
}

} // verus!
