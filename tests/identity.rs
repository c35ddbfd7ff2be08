use ed25519_dalek::ExpandedSecretKey;
use tor_core::bytes::{Reader, Writeable};
use tor_core::ed25519::{
    validate_batch, Ed25519Identity, Ed25519PublicKey, Ed25519Signature,
    ValidatableEd25519Signature,
};

fn keypair(seed: u8) -> (ExpandedSecretKey, ed25519_dalek::PublicKey) {
    let secret = ed25519_dalek::SecretKey::from_bytes(&[seed; 32]).unwrap();
    let public: ed25519_dalek::PublicKey = (&secret).into();
    let expanded: ExpandedSecretKey = (&secret).into();
    (expanded, public)
}

fn signed(seed: u8, msg: &[u8], signed_text: &[u8]) -> ValidatableEd25519Signature {
    let (exp, public) = keypair(seed);
    let sig = exp.sign(msg, &public);
    let key = Ed25519PublicKey::from_bytes(public.to_bytes()).unwrap();
    let sig = Ed25519Signature::from_bytes(sig.to_bytes()).unwrap();
    ValidatableEd25519Signature::new(key, sig, signed_text)
}

#[test]
fn identity_round_trip_and_display() {
    let id = Ed25519Identity::new([0x20; 32]);
    let mut out: Vec<u8> = Vec::new();
    let bytes: [u8; 32] = id.as_bytes().try_into().unwrap();
    bytes.write_onto(&mut out);
    let mut r = Reader::from_slice(&out);
    let back: [u8; 32] = r.extract().unwrap();
    assert!(Ed25519Identity::from(back) == id);
    assert_eq!(id.to_string(), "ICAgICAgICAgICAgICAgICAgICAgICAgICAgICAgICA");
}

#[test]
fn identity_from_slice_and_eq() {
    assert!(Ed25519Identity::from_slice(&[1u8; 31]).is_none());
    let a = Ed25519Identity::from_slice(&[1u8; 32]).unwrap();
    assert_eq!(a.as_bytes(), &[1u8; 32][..]);
    assert!(a == Ed25519Identity::new([1; 32]));
    assert!(a != Ed25519Identity::new([2; 32]));
}

#[test]
fn identity_to_public_key() {
    let good = Ed25519Identity::new(*b"klsadjfkladsfjklsdafkljasdfsdsd!");
    assert!(good.to_public_key().is_some());
    let bad = Ed25519Identity::new(*b"aaaaaaaaaaaaaaaaaaaaaaaaaaaaaaaa");
    assert!(bad.to_public_key().is_none());
}

#[test]
fn signature_validity() {
    let ok = signed(3, b"hello world", b"hello world");
    assert!(ok.is_valid());
    let wrong = signed(3, b"hello world", b"hello there");
    assert!(!wrong.is_valid());
}

#[test]
fn batch_validation() {
    assert!(validate_batch(&[]));
    let a = signed(1, b"one", b"one");
    let b = signed(2, b"two", b"two");
    let c = signed(3, b"three", b"tree");
    assert!(validate_batch(&[&a]));
    assert!(!validate_batch(&[&c]));
    assert!(validate_batch(&[&a, &b]));
    assert!(!validate_batch(&[&a, &b, &c]));
}
