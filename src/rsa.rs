use vstd::prelude::*;

use openssl::pkey::Private;
use openssl::rsa::{Padding, Rsa};

verus! {

/// Size in bytes of the 1024-bit modulus.
pub const MODULUS_BYTES: usize = 128;

#[verifier::external_type_specification]
#[verifier::external_body]
#[verifier::reject_recursive_types(T)]
pub struct ExRsa<T>(Rsa<T>);

#[verifier::external_type_specification]
#[verifier::external_body]
pub struct ExPrivate(Private);

/// Relies on `openssl::rsa::Rsa::generate`: a fresh 1024-bit key pair with public
/// exponent 65537, or `None` when OpenSSL fails.
#[verifier::external_body]
fn rsa_generate() -> (r: Option<Rsa<Private>>) {
    Rsa::generate(1024).ok()
}

/// Relies on `openssl::bn::BigNumRef::to_vec_padded`: the modulus, big-endian, padded
/// with leading zeros to exactly 128 bytes; `None` when it does not fit.
#[verifier::external_body]
fn rsa_modulus(key: &Rsa<Private>) -> (r: Option<Vec<u8>>)
    ensures
        r is Some ==> r->Some_0@.len() == MODULUS_BYTES,
{
    key.n().to_vec_padded(128).ok()
}

/// Raw RSA decryption (no padding) of a block under the key with this public modulus
/// and public exponent, both big-endian: the block raised to the private exponent modulo
/// the modulus, which the two public values fix.
pub uninterp spec fn rsa_raw_dec(modulus: Seq<u8>, exponent: Seq<u8>, block: Seq<u8>) -> Seq<u8>;

/// Relies on `openssl::bn::BigNumRef::to_vec`: the public exponent, big-endian.
#[verifier::external_body]
fn rsa_exponent(key: &Rsa<Private>) -> (r: Vec<u8>) {
    key.e().to_vec()
}

/// Relies on `openssl::rsa::RsaRef::private_decrypt` without padding (into a buffer of
/// the key's size), `RsaRef::n` and `RsaRef::e`: the raw decryption of the block, with
/// the modulus (padded to 128 bytes) and the exponent of the key that made it; `None`
/// when OpenSSL refuses the block or the modulus does not fit.
#[verifier::external_body]
fn rsa_decrypt(key: &Rsa<Private>, block: &[u8]) -> (r: Option<(Vec<u8>, Vec<u8>, Vec<u8>)>)
    requires
        block@.len() <= i32::MAX,
    ensures
        r is Some ==> r->Some_0.2@ == rsa_raw_dec(r->Some_0.0@, r->Some_0.1@, block@),
{
    let n = key.n().to_vec_padded(128).ok()?;
    let mut to = vec![0u8; key.size() as usize];
    match key.private_decrypt(block, &mut to, Padding::NONE) {
        Ok(len) => {
            to.truncate(len);
            Some((n, key.e().to_vec(), to))
        },
        Err(_) => None,
    }
}

/// Whether two byte strings are equal.
fn bytes_eq(a: &[u8], b: &[u8]) -> (r: bool)
    ensures
        r == (a@ == b@),
{
    if a.len() != b.len() {
        return false;
    }
    let mut i: usize = 0;
    while i < a.len()
        invariant
            a@.len() == b@.len(),
            i <= a@.len(),
            forall|j: int| 0 <= j < i ==> a@[j] == b@[j],
        decreases a@.len() - i,
    {
        if a[i] != b[i] {
            return false;
        }
        i = i + 1;
    }
    assert(a@ =~= b@);
    true
}

/// The first step of scrambling: bytes 0x00..0x04 trade places with 0x4d..0x51.
pub open spec fn scramble_swap(m: Seq<u8>) -> Seq<u8> {
    Seq::new(
        m.len(),
        |i: int|
            if i < 4 {
                m[0x4d + i]
            } else if 0x4d <= i < 0x51 {
                m[i - 0x4d]
            } else {
                m[i]
            },
    )
}

/// The second step: each of the first 0x40 bytes XOR the byte 0x40 after it.
pub open spec fn scramble_fold_low(m: Seq<u8>) -> Seq<u8> {
    Seq::new(m.len(), |i: int| if i < 0x40 { m[i] ^ m[0x40 + i] } else { m[i] })
}

/// The third step: bytes 0x0d..0x11 XOR bytes 0x34..0x38.
pub open spec fn scramble_mix(m: Seq<u8>) -> Seq<u8> {
    Seq::new(m.len(), |i: int| if 0x0d <= i < 0x11 { m[i] ^ m[i + 0x27] } else { m[i] })
}

/// The fourth step: each of the last 0x40 bytes XOR the byte 0x40 before it.
pub open spec fn scramble_fold_high(m: Seq<u8>) -> Seq<u8> {
    Seq::new(m.len(), |i: int| if i >= 0x40 { m[i] ^ m[i - 0x40] } else { m[i] })
}

/// The modulus as the client protocol sends it.
pub open spec fn scrambled(m: Seq<u8>) -> Seq<u8> {
    scramble_fold_high(scramble_mix(scramble_fold_low(scramble_swap(m))))
}

/// Scrambles a 128-byte modulus for the `Init` packet.
pub fn scramble_modulus(modulus: &[u8]) -> (r: Vec<u8>)
    requires
        modulus@.len() == MODULUS_BYTES,
    ensures
        r@ == scrambled(modulus@),
{
    let mut s = vstd::slice::slice_to_vec(modulus);
    let ghost m0 = modulus@;
    let mut i: usize = 0;
    while i < 4
        invariant
            s@.len() == 128,
            m0.len() == 128,
            i <= 4,
            forall|j: int|
                0 <= j < 128 ==> #[trigger] s@[j] == if j < i {
                    m0[0x4d + j]
                } else if 0x4d <= j < 0x4d + i {
                    m0[j - 0x4d]
                } else {
                    m0[j]
                },
        decreases 4 - i,
    {
        let t = s[i];
        let u = s[0x4d + i];
        s.set(i, u);
        s.set(0x4d + i, t);
        i = i + 1;
    }
    assert(s@ =~= scramble_swap(m0));
    let ghost m1 = s@;
    let mut i: usize = 0;
    while i < 0x40
        invariant
            s@.len() == 128,
            m1.len() == 128,
            i <= 0x40,
            forall|j: int| 0 <= j < 128 ==> #[trigger] s@[j] == if j < i { m1[j] ^ m1[0x40 + j] } else { m1[j] },
        decreases 0x40 - i,
    {
        let v = s[i] ^ s[0x40 + i];
        s.set(i, v);
        i = i + 1;
    }
    assert(s@ =~= scramble_fold_low(m1));
    let ghost m2 = s@;
    let mut i: usize = 0;
    while i < 4
        invariant
            s@.len() == 128,
            m2.len() == 128,
            i <= 4,
            forall|j: int|
                0 <= j < 128 ==> #[trigger] s@[j] == if 0x0d <= j < 0x0d + i {
                    m2[j] ^ m2[j + 0x27]
                } else {
                    m2[j]
                },
        decreases 4 - i,
    {
        let v = s[0x0d + i] ^ s[0x34 + i];
        s.set(0x0d + i, v);
        i = i + 1;
    }
    assert(s@ =~= scramble_mix(m2));
    let ghost m3 = s@;
    let mut i: usize = 0;
    while i < 0x40
        invariant
            s@.len() == 128,
            m3.len() == 128,
            i <= 0x40,
            forall|j: int|
                0 <= j < 128 ==> #[trigger] s@[j] == if 0x40 <= j < 0x40 + i {
                    m3[j] ^ m3[j - 0x40]
                } else {
                    m3[j]
                },
        decreases 0x40 - i,
    {
        let v = s[0x40 + i] ^ s[i];
        s.set(0x40 + i, v);
        i = i + 1;
    }
    assert(s@ =~= scramble_fold_high(m3));
    s
}

/// An RSA key pair with its modulus in plain and in scrambled form.
pub struct ScrambledRSAKeyPair {
    key: Rsa<Private>,
    modulus: Vec<u8>,
    exponent: Vec<u8>,
    scrambled_modulus: Vec<u8>,
}

impl ScrambledRSAKeyPair {
    pub closed spec fn modulus_view(&self) -> Seq<u8> {
        self.modulus@
    }

    pub closed spec fn exponent_view(&self) -> Seq<u8> {
        self.exponent@
    }

    pub closed spec fn scrambled_view(&self) -> Seq<u8> {
        self.scrambled_modulus@
    }

    pub open spec fn wf(&self) -> bool {
        &&& self.modulus_view().len() == MODULUS_BYTES
        &&& self.scrambled_view() == scrambled(self.modulus_view())
    }

    /// A fresh key pair; `None` when OpenSSL cannot make one.
    pub fn generate() -> (r: Option<Self>)
        ensures
            r is Some ==> r->Some_0.wf(),
    {
        let key = rsa_generate()?;
        let modulus = rsa_modulus(&key)?;
        let exponent = rsa_exponent(&key);
        let scrambled_modulus = scramble_modulus(modulus.as_slice());
        Some(ScrambledRSAKeyPair { key, modulus, exponent, scrambled_modulus })
    }

    /// The modulus, big-endian, 128 bytes.
    pub fn get_modulus(&self) -> (r: Vec<u8>)
        ensures
            r@ == self.modulus_view(),
    {
        vstd::slice::slice_to_vec(self.modulus.as_slice())
    }

    /// The public exponent, big-endian.
    pub fn get_exponent(&self) -> (r: Vec<u8>)
        ensures
            r@ == self.exponent_view(),
    {
        vstd::slice::slice_to_vec(self.exponent.as_slice())
    }

    /// The modulus as the client protocol sends it.
    pub fn get_scrambled_modulus(&self) -> (r: Vec<u8>)
        ensures
            r@ == self.scrambled_view(),
    {
        vstd::slice::slice_to_vec(self.scrambled_modulus.as_slice())
    }

    /// Decrypts one block with the private key, without padding; `None` when OpenSSL
    /// refuses the block.
    pub fn decrypt_data(&self, data: &[u8]) -> (r: Option<Vec<u8>>)
        requires
            data@.len() <= i32::MAX,
        ensures
            r is Some ==> r->Some_0@ == rsa_raw_dec(self.modulus_view(), self.exponent_view(), data@),
    {
        let (n, e, m) = rsa_decrypt(&self.key, data)?;
        if bytes_eq(n.as_slice(), self.modulus.as_slice()) && bytes_eq(e.as_slice(), self.exponent.as_slice()) {
            Some(m)
        } else {
            None
        }
    }
}

/// Key pairs made at start-up; each new link draws one.
pub struct RsaPool {
    pairs: Vec<ScrambledRSAKeyPair>,
}

impl RsaPool {
    pub closed spec fn size(&self) -> nat {
        self.pairs@.len()
    }

    pub closed spec fn at(&self, i: int) -> ScrambledRSAKeyPair {
        self.pairs@[i]
    }

    /// A pool of up to `n` pairs; fewer when OpenSSL fails to make some.
    pub fn generate(n: usize) -> (r: Self)
        ensures
            r.size() <= n,
            forall|i: int| 0 <= i < r.size() ==> (#[trigger] r.at(i)).wf(),
    {
        let mut pairs: Vec<ScrambledRSAKeyPair> = Vec::new();
        let mut i: usize = 0;
        while i < n
            invariant
                i <= n,
                pairs@.len() <= i,
                forall|j: int| 0 <= j < pairs@.len() ==> (#[trigger] pairs@[j]).wf(),
            decreases n - i,
        {
            if let Some(p) = ScrambledRSAKeyPair::generate() {
                pairs.push(p);
            }
            i = i + 1;
        }
        RsaPool { pairs }
    }

    pub fn len(&self) -> (r: usize)
        ensures
            r == self.size(),
    {
        self.pairs.len()
    }

    /// The pair that a random draw `draw` picks.
    pub fn get_random_rsa_key_pair(&self, draw: usize) -> (r: &ScrambledRSAKeyPair)
        requires
            self.size() > 0,
        ensures
            *r == self.at((draw % self.size() as usize) as int),
    {
        &self.pairs[draw % self.pairs.len()]
    }
}

} // verus!
