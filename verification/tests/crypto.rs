use callchain::crypto::{ed25519_public_key, ed25519_sign, ed25519_verify, keccak256};

fn unhex(s: &str) -> Vec<u8> {
    (0..s.len() / 2).map(|i| u8::from_str_radix(&s[2 * i..2 * i + 2], 16).unwrap()).collect()
}

fn key() -> [u8; 32] {
    unhex("9d61b19deffd5a60ba844af492ec2cc44449c5697b326919703bac031cae7f60").try_into().unwrap()
}

#[test]
fn keccak_of_nothing_is_the_known_digest() {
    let digest = unhex("c5d2460186f7233c927e7db2dcc703c0e500b653ca82273b7bfad8045d85a470");
    assert_eq!(keccak256(&[]).to_be_bytes(), digest);
    let digest = unhex("4e03657aea45a94fc7d47ba826c8d667c0d1e6e33a64a036ec44f58fa12d6c45");
    assert_eq!(keccak256(b"abc").to_be_bytes(), digest);
}

#[test]
fn public_key_belongs_to_secret() {
    let public = unhex("d75a980182b10ab7d54bfed3c964073a0ee172f3daa62325af021a68f707511a");
    assert_eq!(ed25519_public_key(&key()).to_vec(), public);
}

#[test]
fn signature_is_the_known_one_and_accepted() {
    let known = unhex(concat_signature().as_str());
    let signature = ed25519_sign(&key(), &[]);
    assert_eq!(signature.to_vec(), known);
    assert!(ed25519_verify(&ed25519_public_key(&key()), &signature, &[]));
}

fn concat_signature() -> String {
    let head = "e5564300c360ac729086e2cc806e828a84877f1eb8e5d974d873e06522490155";
    let tail = "5fb8821590a33bacc61e39701cf9b46bd25bf5f0595bbe24655141438e7a100b";
    format!("{head}{tail}")
}

#[test]
fn signature_on_another_message_is_refused() {
    let public = ed25519_public_key(&key());
    let mut signature = ed25519_sign(&key(), b"one");
    assert!(ed25519_verify(&public, &signature, b"one"));
    assert!(!ed25519_verify(&public, &signature, b"two"));
    assert!(!ed25519_verify(&ed25519_public_key(&[7; 32]), &signature, b"one"));
    signature[0] ^= 1;
    assert!(!ed25519_verify(&public, &signature, b"one"));
}

#[test]
fn bytes_that_are_no_key_accept_nothing() {
    let mut no_key = [0u8; 32];
    no_key[0] = 2;
    let signature = ed25519_sign(&key(), b"one");
    assert!(!ed25519_verify(&no_key, &signature, b"one"));
}
