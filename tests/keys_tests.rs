use vanity_grind::keys::{candidate_from_seed, generate_candidate};

fn hex32(s: &str) -> [u8; 32] {
    let mut out = [0u8; 32];
    for i in 0..32 {
        out[i] = u8::from_str_radix(&s[2 * i..2 * i + 2], 16).unwrap();
    }
    out
}

#[test]
fn candidate_from_known_seed() {
    // RFC 8032, section 7.1, test 1.
    let seed = hex32("9d61b19deffd5a60ba844af492ec2cc44449c5697b326919703bac031cae7f60");
    let public = hex32("d75a980182b10ab7d54bfed3c964073a0ee172f3daa62325af021a68f707511a");
    let c = candidate_from_seed(seed);
    assert_eq!(c.seed, seed);
    assert_eq!(c.identifier, public);
    assert_ne!(c.identifier, seed);
    assert_eq!(c.encoded, bs58::encode(public).into_string());
    assert!(c.encoded.len() >= 43 && c.encoded.len() <= 44);
}

#[test]
fn base58_text_of_small_identifier() {
    let c = candidate_from_seed([0u8; 32]);
    let decoded = bs58::decode(&c.encoded).into_vec().unwrap();
    assert_eq!(decoded, c.identifier.to_vec());
}

#[test]
fn derivation_is_deterministic() {
    let seed = [7u8; 32];
    let a = candidate_from_seed(seed);
    let b = candidate_from_seed(seed);
    assert_eq!(a.identifier, b.identifier);
    assert_eq!(a.encoded, b.encoded);
    let other = candidate_from_seed([8u8; 32]);
    assert_ne!(a.identifier, other.identifier);
}

#[test]
fn generated_candidates_are_consistent() {
    for _ in 0..8 {
        let c = generate_candidate();
        let expected = ed25519_dalek::SigningKey::from_bytes(&c.seed).verifying_key().to_bytes();
        assert_eq!(c.identifier, expected);
        assert_eq!(c.encoded, bs58::encode(c.identifier).into_string());
    }
    let a = generate_candidate();
    let b = generate_candidate();
    assert_ne!(a.seed, b.seed);
}

#[test]
fn keypair_bytes_are_seed_then_public_key() {
    let c = candidate_from_seed([3u8; 32]);
    let kp = c.keypair_bytes();
    assert_eq!(kp.len(), 64);
    assert_eq!(&kp[..32], &c.seed[..]);
    assert_eq!(&kp[32..], &c.identifier[..]);
}

#[test]
fn duplicate_keeps_every_field() {
    let c = candidate_from_seed([5u8; 32]);
    let d = c.duplicate();
    assert_eq!(d.seed, c.seed);
    assert_eq!(d.identifier, c.identifier);
    assert_eq!(d.encoded, c.encoded);
}
