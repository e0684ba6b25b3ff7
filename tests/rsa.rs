use openssl::bn::BigNum;
use openssl::rsa::{Padding, Rsa};
use l2_login::rsa::{scramble_modulus, RsaPool, ScrambledRSAKeyPair};

fn scramble_by_steps(m: &[u8]) -> Vec<u8> {
    let mut s = m.to_vec();
    for i in 0..4 {
        s.swap(i, 0x4d + i);
    }
    for i in 0..0x40 {
        s[i] ^= s[0x40 + i];
    }
    for i in 0..4 {
        s[0x0d + i] ^= s[0x34 + i];
    }
    for i in 0..0x40 {
        s[0x40 + i] ^= s[i];
    }
    s
}

#[test]
fn scrambling_follows_the_four_steps() {
    let m: Vec<u8> = (0..128).map(|i| (i * 7 + 3) as u8).collect();
    let s = scramble_modulus(&m);
    assert_eq!(s, scramble_by_steps(&m));
    assert_ne!(s, m);
    assert_eq!(s[0] , m[0x4d] ^ m[0x40]);
}

#[test]
fn generated_pair_has_scrambled_modulus() {
    let p = ScrambledRSAKeyPair::generate().unwrap();
    let m = p.get_modulus();
    assert_eq!(m.len(), 128);
    assert!(m[0] & 0x80 != 0);
    assert_eq!(p.get_scrambled_modulus(), scramble_by_steps(&m));
}

#[test]
fn pool_draws_by_index() {
    let pool = RsaPool::generate(2);
    assert_eq!(pool.len(), 2);
    let a = pool.get_random_rsa_key_pair(0).get_modulus();
    let b = pool.get_random_rsa_key_pair(2).get_modulus();
    assert_eq!(a, b);
}

#[test]
fn pair_decrypts_what_its_public_key_encrypted() {
    let p = ScrambledRSAKeyPair::generate().unwrap();
    let public = Rsa::from_public_components(
        BigNum::from_slice(&p.get_modulus()).unwrap(),
        BigNum::from_slice(&p.get_exponent()).unwrap(),
    )
    .unwrap();
    let mut plain = vec![0u8; 128];
    plain[0x5E..0x5E + 5].copy_from_slice(b"alice");
    let mut enc = vec![0u8; 128];
    public.public_encrypt(&plain, &mut enc, Padding::NONE).unwrap();
    assert_eq!(p.decrypt_data(&enc), Some(plain));
}
