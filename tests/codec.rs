use tor_core::bytes::{write_items, write_u16, write_u32, Reader, Readable, Writeable, Writer};
use tor_core::ed25519::{Curve25519PublicKey, Ed25519PublicKey, Ed25519Signature, RsaIdentity};
use tor_core::error::Error;
use tor_core::net::{Ipv4Address, Ipv6Address};

fn encode<T: Writeable>(v: &T) -> Vec<u8> {
    let mut out: Vec<u8> = Vec::new();
    v.write_onto(&mut out);
    out
}

fn decode<T: Readable>(b: &[u8]) -> Result<T, Error> {
    let mut r = Reader::from_slice(b);
    r.extract::<T>()
}

#[test]
fn integers_round_trip() {
    assert_eq!(encode(&0x12u8), vec![0x12]);
    assert_eq!(encode(&0x1234u16), vec![0x12, 0x34]);
    assert_eq!(encode(&0x12345678u32), vec![0x12, 0x34, 0x56, 0x78]);
    assert_eq!(encode(&0x0102030405060708u64), vec![1, 2, 3, 4, 5, 6, 7, 8]);
    let big: u128 = 0x0102030405060708090a0b0c0d0e0f10;
    assert_eq!(encode(&big), (1..=16u8).collect::<Vec<u8>>());
    assert_eq!(decode::<u16>(&encode(&0xbeefu16)), Ok(0xbeef));
    assert_eq!(decode::<u32>(&encode(&u32::MAX)), Ok(u32::MAX));
    assert_eq!(decode::<u64>(&encode(&7u64)), Ok(7));
    assert_eq!(decode::<u128>(&encode(&big)), Ok(big));
    assert_eq!(decode::<u8>(&[0xff]), Ok(0xff));
}

#[test]
fn reader_takes_in_order() {
    let bytes = [0x01, 0x02, 0x03, 0x04, 0x05, 0x06, 0x07];
    let mut r = Reader::from_slice(&bytes);
    assert_eq!(r.take_u8(), Ok(1));
    assert_eq!(r.take_u16(), Ok(0x0203));
    assert_eq!(r.remaining(), 4);
    assert_eq!(r.take_u32(), Ok(0x04050607));
    assert_eq!(r.remaining(), 0);
    assert_eq!(r.take_u8(), Err(Error::BadMessage("truncated")));
}

#[test]
fn truncated_input_rejected() {
    let bytes = [0x01, 0x02, 0x03];
    let mut r = Reader::from_slice(&bytes);
    assert_eq!(r.take_u32(), Err(Error::BadMessage("truncated")));
    assert_eq!(r.remaining(), 3);
    assert_eq!(r.take(4), Err(Error::BadMessage("truncated")));
    assert_eq!(r.take(2), Ok(&bytes[0..2]));
    assert!(matches!(decode::<[u8; 20]>(&[0u8; 19]), Err(Error::BadMessage(_))));
    assert!(matches!(decode::<Ipv6Address>(&[0u8; 15]), Err(Error::BadMessage(_))));
    assert!(matches!(decode::<u64>(&[1u8; 7]), Err(Error::BadMessage(_))));
}

#[test]
fn ipv4_wire_form() {
    let a = Ipv4Address { octets: [192, 0, 2, 1] };
    let enc = encode(&a);
    assert_eq!(enc, vec![0xC0, 0x00, 0x02, 0x01]);
    assert_eq!(decode::<Ipv4Address>(&enc), Ok(a));
}

#[test]
fn ipv6_round_trip() {
    let mut o = [0u8; 16];
    o[0] = 0x20;
    o[1] = 0x01;
    o[2] = 0x0d;
    o[3] = 0xb8;
    o[15] = 1;
    let a = Ipv6Address { octets: o };
    let enc = encode(&a);
    assert_eq!(enc, o.to_vec());
    assert_eq!(decode::<Ipv6Address>(&enc), Ok(a));
}

#[test]
fn arrays_and_rsa_round_trip() {
    let a16 = [5u8; 16];
    assert_eq!(decode::<[u8; 16]>(&encode(&a16)), Ok(a16));
    let a32: [u8; 32] = core::array::from_fn(|i| i as u8);
    assert_eq!(decode::<[u8; 32]>(&encode(&a32)), Ok(a32));
    let rsa = RsaIdentity { id: [0xab; 20] };
    assert_eq!(encode(&rsa), vec![0xab; 20]);
    assert_eq!(decode::<RsaIdentity>(&[0xab; 20]), Ok(rsa));
}

#[test]
fn ed25519_bad_key_rejected_curve_zero_accepted() {
    // Not the encoding of a curve point.
    let bad = *b"aaaaaaaaaaaaaaaaaaaaaaaaaaaaaaaa";
    match decode::<Ed25519PublicKey>(&bad) {
        Err(e) => assert_eq!(e, Error::BadMessage("Couldn't decode Ed25519 public key")),
        Ok(_) => panic!("accepted an invalid key"),
    }
    let zeros = [0u8; 32];
    let c = decode::<Curve25519PublicKey>(&zeros).unwrap();
    assert_eq!(c.bytes, zeros);
    assert_eq!(encode(&c), zeros.to_vec());
}

#[test]
fn ed25519_key_round_trip() {
    let secret = ed25519_dalek::SecretKey::from_bytes(&[7u8; 32]).unwrap();
    let public: ed25519_dalek::PublicKey = (&secret).into();
    let bytes = public.to_bytes();
    let k = decode::<Ed25519PublicKey>(&bytes).unwrap();
    assert_eq!(k.to_bytes(), bytes);
    assert_eq!(encode(&k), bytes.to_vec());
}

#[test]
fn ed25519_signature_parse() {
    let mut good = [0x11u8; 64];
    good[63] = 0x0f;
    let s = decode::<Ed25519Signature>(&good).unwrap();
    assert_eq!(encode(&s), good.to_vec());
    let mut bad = good;
    bad[63] = 0xf0;
    assert_eq!(
        decode::<Ed25519Signature>(&bad).err(),
        Some(Error::BadMessage("Couldn't decode Ed25519 signature."))
    );
    assert!(Ed25519Signature::from_bytes(bad).is_none());
    assert!(Ed25519Signature::from_bytes(good).is_some());
}

#[test]
fn sequence_round_trip() {
    let items: Vec<u16> = vec![1, 0x0203, 0xffff, 0];
    let mut out: Vec<u8> = Vec::new();
    write_items(&items, &mut out);
    out.push(0x99);
    assert_eq!(out, vec![0, 1, 2, 3, 0xff, 0xff, 0, 0, 0x99]);
    let mut r = Reader::from_slice(&out);
    assert_eq!(r.extract_n::<u16>(4), Ok(items));
    assert_eq!(r.remaining(), 1);
    let mut r2 = Reader::from_slice(&out[..7]);
    assert!(matches!(r2.extract_n::<u16>(4), Err(Error::BadMessage(_))));
}

#[test]
fn writer_helpers() {
    let mut out: Vec<u8> = Vec::new();
    out.write_all(&[1, 2]);
    out.write_zeros(3);
    write_u16(&mut out, 0x0a0b);
    write_u32(&mut out, 0x01020304);
    assert_eq!(out, vec![1, 2, 0, 0, 0, 0x0a, 0x0b, 1, 2, 3, 4]);
    let v: Vec<u8> = vec![9, 8];
    v.write_onto(&mut out);
    assert_eq!(out.len(), 13);
}

#[test]
fn sequence_element_error_passed_on() {
    let secret = ed25519_dalek::SecretKey::from_bytes(&[7u8; 32]).unwrap();
    let public: ed25519_dalek::PublicKey = (&secret).into();
    let mut bytes = public.to_bytes().to_vec();
    bytes.extend_from_slice(b"aaaaaaaaaaaaaaaaaaaaaaaaaaaaaaaa");
    let mut r = Reader::from_slice(&bytes);
    assert_eq!(
        r.extract_n::<Ed25519PublicKey>(2).err(),
        Some(Error::BadMessage("Couldn't decode Ed25519 public key"))
    );
    let mut r2 = Reader::from_slice(&bytes[..40]);
    assert_eq!(
        r2.extract_n::<Ed25519PublicKey>(2).err(),
        Some(Error::BadMessage("truncated"))
    );
}
