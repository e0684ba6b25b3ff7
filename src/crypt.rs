use vstd::prelude::*;

use blowfish::cipher::generic_array::GenericArray;
use blowfish::cipher::{BlockDecrypt, BlockEncrypt, KeyInit};
use blowfish::BlowfishLE;

use crate::buffer::{le_u32, MAX_FRAME};
use crate::errors::Packet;
use crate::reader::{lemma_u32_round_trip, u32_from};

verus! {

/// The Blowfish (little-endian word order) encryption of one 8-byte block under a key.
pub uninterp spec fn bf_enc_block(key: Seq<u8>, block: Seq<u8>) -> Seq<u8>;

/// The Blowfish (little-endian word order) decryption of one 8-byte block under a key.
pub uninterp spec fn bf_dec_block(key: Seq<u8>, block: Seq<u8>) -> Seq<u8>;

/// Relies on `blowfish::BlowfishLE` (`KeyInit::new_from_slice`, which takes keys of 4 to
/// 56 bytes, and `BlockEncrypt::encrypt_block`): one block in, one block out, and the
/// crate's `decrypt` runs the Feistel rounds backwards, so decrypting gives the block
/// back.
#[verifier::external_body]
fn encrypt_block(key: &[u8], block: &[u8]) -> (r: Vec<u8>)
    requires
        4 <= key@.len() <= 56,
        block@.len() == 8,
    ensures
        r@ == bf_enc_block(key@, block@),
        r@.len() == 8,
        bf_dec_block(key@, r@) == block@,
{
    let mut b = GenericArray::clone_from_slice(block);
    match BlowfishLE::new_from_slice(key) {
        Ok(c) => c.encrypt_block(&mut b),
        Err(_) => {},
    }
    b.to_vec()
}

/// Relies on `blowfish::BlowfishLE` (`KeyInit::new_from_slice` and
/// `BlockDecrypt::decrypt_block`): one block in, one block out.
#[verifier::external_body]
fn decrypt_block(key: &[u8], block: &[u8]) -> (r: Vec<u8>)
    requires
        4 <= key@.len() <= 56,
        block@.len() == 8,
    ensures
        r@ == bf_dec_block(key@, block@),
        r@.len() == 8,
{
    let mut b = GenericArray::clone_from_slice(block);
    match BlowfishLE::new_from_slice(key) {
        Ok(c) => c.decrypt_block(&mut b),
        Err(_) => {},
    }
    b.to_vec()
}

/// ECB encryption: each 8-byte block encrypted on its own; a short tail is dropped.
pub open spec fn ecb_enc(key: Seq<u8>, d: Seq<u8>) -> Seq<u8>
    decreases d.len(),
{
    if d.len() < 8 {
        seq![]
    } else {
        bf_enc_block(key, d.take(8)) + ecb_enc(key, d.skip(8))
    }
}

/// ECB decryption: each 8-byte block decrypted on its own; a short tail is dropped.
pub open spec fn ecb_dec(key: Seq<u8>, d: Seq<u8>) -> Seq<u8>
    decreases d.len(),
{
    if d.len() < 8 {
        seq![]
    } else {
        bf_dec_block(key, d.take(8)) + ecb_dec(key, d.skip(8))
    }
}

proof fn lemma_ecb_enc_push(key: Seq<u8>, d: Seq<u8>, block: Seq<u8>)
    requires
        d.len() % 8 == 0,
        block.len() == 8,
    ensures
        ecb_enc(key, d + block) == ecb_enc(key, d) + bf_enc_block(key, block),
    decreases d.len(),
{
    if d.len() == 0 {
        assert((d + block).take(8) =~= block);
        let t = (d + block).skip(8);
        assert(t.len() == 0);
        assert(ecb_enc(key, t) == Seq::<u8>::empty());
        assert(ecb_enc(key, d) == Seq::<u8>::empty());
        assert(ecb_enc(key, d + block) == bf_enc_block(key, (d + block).take(8)) + ecb_enc(key, t));
        assert(ecb_enc(key, d + block) =~= bf_enc_block(key, block));
        assert(ecb_enc(key, d) + bf_enc_block(key, block) =~= bf_enc_block(key, block));
    } else {
        assert((d + block).take(8) =~= d.take(8));
        assert((d + block).skip(8) =~= d.skip(8) + block);
        lemma_ecb_enc_push(key, d.skip(8), block);
    }
}

proof fn lemma_ecb_dec_push(key: Seq<u8>, d: Seq<u8>, block: Seq<u8>)
    requires
        d.len() % 8 == 0,
        block.len() == 8,
    ensures
        ecb_dec(key, d + block) == ecb_dec(key, d) + bf_dec_block(key, block),
    decreases d.len(),
{
    if d.len() == 0 {
        assert((d + block).take(8) =~= block);
        let t = (d + block).skip(8);
        assert(t.len() == 0);
        assert(ecb_dec(key, t) == Seq::<u8>::empty());
        assert(ecb_dec(key, d) == Seq::<u8>::empty());
        assert(ecb_dec(key, d + block) == bf_dec_block(key, (d + block).take(8)) + ecb_dec(key, t));
        assert(ecb_dec(key, d + block) =~= bf_dec_block(key, block));
        assert(ecb_dec(key, d) + bf_dec_block(key, block) =~= bf_dec_block(key, block));
    } else {
        assert((d + block).take(8) =~= d.take(8));
        assert((d + block).skip(8) =~= d.skip(8) + block);
        lemma_ecb_dec_push(key, d.skip(8), block);
    }
}

/// The word at word index `i` of `b`.
pub open spec fn word(b: Seq<u8>, i: nat) -> u32 {
    u32_from(b.skip(4 * i as int))
}

/// XOR of the first `count` little-endian words of `b`.
pub open spec fn xor_fold(b: Seq<u8>, count: nat) -> u32
    decreases count,
{
    if count == 0 {
        0
    } else {
        xor_fold(b, (count - 1) as nat) ^ word(b, (count - 1) as nat)
    }
}

/// Whether the last word of `b` is the XOR of all the words before it.
pub open spec fn checksum_ok(b: Seq<u8>) -> bool {
    &&& b.len() % 4 == 0
    &&& b.len() > 4
    &&& word(b, (b.len() / 4 - 1) as nat) == xor_fold(b, (b.len() / 4 - 1) as nat)
}

/// `b` with its last word replaced by the XOR of the words before it.
pub open spec fn with_checksum(b: Seq<u8>) -> Seq<u8> {
    b.take(b.len() - 4) + le_u32(xor_fold(b, (b.len() / 4 - 1) as nat))
}

proof fn lemma_xor_fold_prefix(a: Seq<u8>, b: Seq<u8>, count: nat)
    requires
        4 * count <= a.len(),
        4 * count <= b.len(),
        a.take(4 * count as int) == b.take(4 * count as int),
    ensures
        xor_fold(a, count) == xor_fold(b, count),
    decreases count,
{
    if count > 0 {
        let c = (count - 1) as nat;
        assert(a.take(4 * c as int) =~= a.take(4 * count as int).take(4 * c as int));
        assert(b.take(4 * c as int) =~= b.take(4 * count as int).take(4 * c as int));
        lemma_xor_fold_prefix(a, b, c);
        let i = 4 * c as int;
        assert(a[i] == a.take(4 * count as int)[i]);
        assert(a[i + 1] == a.take(4 * count as int)[i + 1]);
        assert(a[i + 2] == a.take(4 * count as int)[i + 2]);
        assert(a[i + 3] == a.take(4 * count as int)[i + 3]);
        assert(b[i] == b.take(4 * count as int)[i]);
        assert(b[i + 1] == b.take(4 * count as int)[i + 1]);
        assert(b[i + 2] == b.take(4 * count as int)[i + 2]);
        assert(b[i + 3] == b.take(4 * count as int)[i + 3]);
        assert(word(a, c) == word(b, c));
    }
}

/// A body with its checksum in place passes the check.
pub proof fn lemma_with_checksum_ok(b: Seq<u8>)
    requires
        b.len() % 4 == 0,
        b.len() > 4,
    ensures
        checksum_ok(with_checksum(b)),
        with_checksum(b).len() == b.len(),
        with_checksum(b).take(b.len() - 4) == b.take(b.len() - 4),
{
    let w = with_checksum(b);
    let k = (b.len() / 4 - 1) as nat;
    let x = xor_fold(b, k);
    assert(w.take(b.len() - 4) =~= b.take(b.len() - 4));
    assert(4 * k == b.len() - 4);
    lemma_xor_fold_prefix(w, b, k);
    assert(w.skip(4 * k as int) =~= le_u32(x));
    lemma_u32_round_trip(x);
}

/// How many zero bytes follow the payload: four for the checksum, then enough to reach
/// a multiple of eight.
pub open spec fn pad_len(n: nat) -> nat {
    4 + ((8 - (n + 4) % 8) % 8) as nat
}

/// The plaintext body that carries `payload`: the payload, zero padding and the
/// checksum in the last four bytes.
pub open spec fn plain_body(payload: Seq<u8>) -> Seq<u8> {
    with_checksum(payload + Seq::new(pad_len(payload.len()), |i: int| 0u8))
}

/// `frame` is a sealed frame of `payload` under `key`: a length prefix, then a body
/// that decrypts to the payload's plaintext body.
pub open spec fn sealed(key: Seq<u8>, payload: Seq<u8>, frame: Seq<u8>) -> bool {
    &&& frame.len() == 2 + plain_body(payload).len()
    &&& frame[0] == (frame.len() % 256) as u8
    &&& frame[1] == ((frame.len() / 256) % 256) as u8
    &&& frame.skip(2).len() % 8 == 0
    &&& ecb_dec(key, frame.skip(2)) == plain_body(payload)
}

/// What receiving an encrypted body gives: its plaintext when the length is a whole
/// number of blocks and the checksum holds.
pub open spec fn opened(key: Seq<u8>, body: Seq<u8>) -> Option<Seq<u8>> {
    if body.len() % 8 == 0 && checksum_ok(ecb_dec(key, body)) {
        Some(ecb_dec(key, body))
    } else {
        None
    }
}

/// Blowfish key material of one link.
pub struct Crypt {
    key: Vec<u8>,
}

impl Crypt {
    pub closed spec fn key(&self) -> Seq<u8> {
        self.key@
    }

    pub open spec fn wf(&self) -> bool {
        4 <= self.key().len() <= 56
    }

    /// A cipher for the key; `None` when the key is shorter than 4 or longer than 56
    /// bytes.
    pub fn from_u8_key(key: &[u8]) -> (r: Option<Crypt>)
        ensures
            r is Some <==> 4 <= key@.len() <= 56,
            r is Some ==> r->Some_0.wf() && r->Some_0.key() == key@,
    {
        if key.len() < 4 || key.len() > 56 {
            None
        } else {
            Some(Crypt { key: vstd::slice::slice_to_vec(key) })
        }
    }

    /// The key bytes.
    pub fn key_bytes(&self) -> (r: Vec<u8>)
        ensures
            r@ == self.key(),
    {
        vstd::slice::slice_to_vec(self.key.as_slice())
    }

    /// Encrypts a whole number of blocks.
    pub fn crypt(&self, data: &[u8]) -> (r: Vec<u8>)
        requires
            self.wf(),
            data@.len() % 8 == 0,
        ensures
            r@ == ecb_enc(self.key(), data@),
            r@.len() == data@.len(),
            ecb_dec(self.key(), r@) == data@,
    {
        let n = data.len();
        let mut out: Vec<u8> = Vec::new();
        let mut i: usize = 0;
        assert(ecb_enc(self.key(), data@.take(0)) =~= Seq::<u8>::empty());
        assert(ecb_dec(self.key(), out@) =~= data@.take(0));
        while i < n
            invariant
                self.wf(),
                n == data@.len(),
                n % 8 == 0,
                i % 8 == 0,
                i <= n,
                out@.len() == i,
                out@ == ecb_enc(self.key(), data@.take(i as int)),
                ecb_dec(self.key(), out@) == data@.take(i as int),
            decreases n - i,
        {
            let block = vstd::slice::slice_subrange(data, i, i + 8);
            let e = encrypt_block(self.key.as_slice(), block);
            proof {
                lemma_ecb_enc_push(self.key(), data@.take(i as int), block@);
                lemma_ecb_dec_push(self.key(), out@, e@);
                assert(data@.take(i as int) + block@ =~= data@.take(i + 8));
            }
            let mut j: usize = 0;
            let ghost out0 = out@;
            while j < 8
                invariant
                    j <= 8,
                    e@.len() == 8,
                    out@ == out0 + e@.take(j as int),
                decreases 8 - j,
            {
                out.push(e[j]);
                j = j + 1;
                assert(out@ =~= out0 + e@.take(j as int));
            }
            assert(e@.take(8) =~= e@);
            i = i + 8;
        }
        assert(data@.take(n as int) =~= data@);
        out
    }

    /// Decrypts a whole number of blocks.
    pub fn decrypt(&self, data: &[u8]) -> (r: Vec<u8>)
        requires
            self.wf(),
            data@.len() % 8 == 0,
        ensures
            r@ == ecb_dec(self.key(), data@),
    {
        let n = data.len();
        let mut out: Vec<u8> = Vec::new();
        let mut i: usize = 0;
        assert(ecb_dec(self.key(), data@.take(0)) =~= Seq::<u8>::empty());
        while i < n
            invariant
                self.wf(),
                n == data@.len(),
                n % 8 == 0,
                i % 8 == 0,
                i <= n,
                out@ == ecb_dec(self.key(), data@.take(i as int)),
            decreases n - i,
        {
            let block = vstd::slice::slice_subrange(data, i, i + 8);
            let d = decrypt_block(self.key.as_slice(), block);
            proof {
                lemma_ecb_dec_push(self.key(), data@.take(i as int), block@);
                assert(data@.take(i as int) + block@ =~= data@.take(i + 8));
            }
            let mut j: usize = 0;
            let ghost out0 = out@;
            while j < 8
                invariant
                    j <= 8,
                    d@.len() == 8,
                    out@ == out0 + d@.take(j as int),
                decreases 8 - j,
            {
                out.push(d[j]);
                j = j + 1;
                assert(out@ =~= out0 + d@.take(j as int));
            }
            assert(d@.take(8) =~= d@);
            i = i + 8;
        }
        assert(data@.take(n as int) =~= data@);
        out
    }
}

/// Writes the checksum of `body` into its last four bytes.
pub fn append_checksum(body: &mut Vec<u8>)
    requires
        old(body)@.len() % 4 == 0,
        old(body)@.len() > 4,
    ensures
        final(body)@ == with_checksum(old(body)@),
{
    let n = body.len();
    let count = n / 4 - 1;
    let mut chk: u32 = 0;
    let mut i: usize = 0;
    while i < count
        invariant
            body@ == old(body)@,
            n == body@.len(),
            count == n / 4 - 1,
            i <= count,
            chk == xor_fold(body@, i as nat),
        decreases count - i,
    {
        let p = 4 * i;
        let w: u32 = (body[p] as u32) | ((body[p + 1] as u32) << 8) | ((body[p + 2] as u32) << 16)
            | ((body[p + 3] as u32) << 24);
        assert(w == word(body@, i as nat));
        chk = chk ^ w;
        i = i + 1;
    }
    let p = n - 4;
    body.set(p, (chk & 0xff) as u8);
    body.set(p + 1, ((chk >> 8) & 0xff) as u8);
    body.set(p + 2, ((chk >> 16) & 0xff) as u8);
    body.set(p + 3, ((chk >> 24) & 0xff) as u8);
    assert(body@ =~= with_checksum(old(body)@));
}

/// Whether the last word of `body` is the XOR of the words before it.
pub fn verify_checksum(body: &[u8]) -> (r: bool)
    ensures
        r == checksum_ok(body@),
{
    let n = body.len();
    if n % 4 != 0 || n <= 4 {
        return false;
    }
    let count = n / 4 - 1;
    let mut chk: u32 = 0;
    let mut i: usize = 0;
    while i < count
        invariant
            n == body@.len(),
            count == n / 4 - 1,
            i <= count,
            chk == xor_fold(body@, i as nat),
        decreases count - i,
    {
        let p = 4 * i;
        let w: u32 = (body[p] as u32) | ((body[p + 1] as u32) << 8) | ((body[p + 2] as u32) << 16)
            | ((body[p + 3] as u32) << 24);
        assert(w == word(body@, i as nat));
        chk = chk ^ w;
        i = i + 1;
    }
    let p = n - 4;
    let last: u32 = (body[p] as u32) | ((body[p + 1] as u32) << 8) | ((body[p + 2] as u32) << 16)
        | ((body[p + 3] as u32) << 24);
    assert(last == word(body@, count as nat));
    last == chk
}

proof fn lemma_pad(n: nat)
    ensures
        (n + pad_len(n)) % 8 == 0,
        n + pad_len(n) > 4,
        pad_len(n) <= 11,
{
}

/// The payload followed by `pad_len` zeros.
fn padded(payload: &[u8]) -> (r: Vec<u8>)
    requires
        payload@.len() <= MAX_FRAME,
    ensures
        r@ == payload@ + Seq::new(pad_len(payload@.len()), |i: int| 0u8),
{
    let n = payload.len();
    let pad: usize = 4 + (8 - (n + 4) % 8) % 8;
    let mut body = vstd::slice::slice_to_vec(payload);
    let mut k: usize = 0;
    while k < pad
        invariant
            k <= pad,
            body@ == payload@ + Seq::new(k as nat, |i: int| 0u8),
        decreases pad - k,
    {
        body.push(0);
        k = k + 1;
        assert(body@ =~= payload@ + Seq::new(k as nat, |i: int| 0u8));
    }
    body
}

/// `body` with its length, counting the two prefix bytes, in front.
fn prefixed(body: &Vec<u8>) -> (r: Vec<u8>)
    requires
        2 + body@.len() <= MAX_FRAME,
    ensures
        r@.len() == 2 + body@.len(),
        r@[0] == (r@.len() % 256) as u8,
        r@[1] == ((r@.len() / 256) % 256) as u8,
        r@.skip(2) == body@,
{
    let total = 2 + body.len();
    let mut frame: Vec<u8> = Vec::new();
    frame.push((total % 256) as u8);
    frame.push(((total / 256) % 256) as u8);
    let mut j: usize = 0;
    while j < body.len()
        invariant
            j <= body@.len(),
            total == 2 + body@.len(),
            frame@.len() == 2 + j,
            frame@[0] == (total % 256) as u8,
            frame@[1] == ((total / 256) % 256) as u8,
            frame@.skip(2) == body@.take(j as int),
        decreases body@.len() - j,
    {
        frame.push(body[j]);
        j = j + 1;
        assert(frame@.skip(2) =~= body@.take(j as int));
    }
    assert(body@.take(body@.len() as int) =~= body@);
    frame
}

/// Builds the frame that carries `payload`: pads it with zeros to leave room for the
/// checksum and reach a whole number of blocks, writes the checksum, encrypts, and
/// puts the length in front. Fails when the frame would exceed the largest size.
pub fn seal_frame(c: &Crypt, payload: &[u8]) -> (r: Result<Vec<u8>, Packet>)
    requires
        c.wf(),
    ensures
        r is Ok <==> 2 + plain_body(payload@).len() <= MAX_FRAME,
        r is Ok ==> sealed(c.key(), payload@, r->Ok_0@),
        r is Err ==> r == Err::<Vec<u8>, Packet>(Packet::Write { max_size: MAX_FRAME }),
{
    let n = payload.len();
    let ghost zeros = Seq::new(pad_len(n as nat), |i: int| 0u8);
    proof {
        lemma_pad(n as nat);
    }
    if n > MAX_FRAME {
        proof {
            lemma_with_checksum_ok(payload@ + zeros);
        }
        return Err(Packet::Write { max_size: MAX_FRAME });
    }
    let mut body = padded(payload);
    proof {
        lemma_with_checksum_ok(body@);
    }
    if 2 + body.len() > MAX_FRAME {
        return Err(Packet::Write { max_size: MAX_FRAME });
    }
    append_checksum(&mut body);
    let enc = c.crypt(body.as_slice());
    Ok(prefixed(&enc))
}

/// Decrypts a received body and checks its checksum; the plaintext on success.
pub fn open_frame(c: &Crypt, body: &[u8]) -> (r: Result<Vec<u8>, Packet>)
    requires
        c.wf(),
    ensures
        match opened(c.key(), body@) {
            Some(p) => r is Ok && r->Ok_0@ == p,
            None => r is Err,
        },
{
    if body.len() % 8 != 0 {
        return Err(Packet::Encryption);
    }
    let plain = c.decrypt(body);
    if !verify_checksum(plain.as_slice()) {
        return Err(Packet::Checksum);
    }
    Ok(plain)
}

/// A sealed frame opens: its body decrypts to a plaintext that passes the checksum and
/// starts with the payload, byte for byte.
pub proof fn lemma_sealed_opens(key: Seq<u8>, payload: Seq<u8>, frame: Seq<u8>)
    requires
        sealed(key, payload, frame),
    ensures
        opened(key, frame.skip(2)) == Some(plain_body(payload)),
        plain_body(payload).take(payload.len() as int) == payload,
{
    let padded = payload + Seq::new(pad_len(payload.len()), |i: int| 0u8);
    assert(padded.len() % 8 == 0);
    lemma_with_checksum_ok(padded);
    assert(plain_body(payload).take(payload.len() as int) =~= padded.take(padded.len() - 4).take(
        payload.len() as int,
    ));
    assert(padded.take(padded.len() - 4).take(payload.len() as int) =~= payload);
}

} // verus!
