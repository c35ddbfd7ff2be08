//! Ed25519 identities, keys and signatures, with their wire encodings.
//!
//! Keys and signatures are held as their encoded bytes; whether bytes are
//! a valid key, and whether a signature verifies, is decided by
//! ed25519-dalek.
use vstd::prelude::*;
use crate::bytes::{array_from_slice, Readable, Reader, Writeable, Writer};
use crate::ct::ct_eq_bytes;
use crate::error::Error;
use ed25519_dalek::Verifier;

verus! {

/// Whether `b` is the encoding of a point on the Ed25519 curve.
pub uninterp spec fn ed25519_point_valid(b: Seq<u8>) -> bool;

/// Whether `sig` is a valid Ed25519 signature of `msg` under the key `key`.
pub uninterp spec fn ed25519_verifies(key: Seq<u8>, sig: Seq<u8>, msg: Seq<u8>) -> bool;

/// The character of the standard base64 alphabet for the 6-bit value `v`.
pub open spec fn base64_char(v: int) -> char {
    if v < 26 {
        (65 + v) as char
    } else if v < 52 {
        (97 + v - 26) as char
    } else if v < 62 {
        (48 + v - 52) as char
    } else if v == 62 {
        '+'
    } else {
        '/'
    }
}

/// The standard base64 encoding of `b`, without padding: each group of
/// three bytes gives four characters of six bits each, and a final group
/// of one or two bytes gives two or three characters.
pub open spec fn base64_nopad(b: Seq<u8>) -> Seq<char>
    decreases b.len(),
{
    let x = b[0] as int;
    let y = b[1] as int;
    let z = b[2] as int;
    if b.len() == 0 {
        Seq::empty()
    } else if b.len() == 1 {
        seq![base64_char(x / 4), base64_char((x % 4) * 16)]
    } else if b.len() == 2 {
        seq![base64_char(x / 4), base64_char((x % 4) * 16 + y / 16), base64_char((y % 16) * 4)]
    } else {
        seq![
            base64_char(x / 4),
            base64_char((x % 4) * 16 + y / 16),
            base64_char((y % 16) * 4 + z / 64),
            base64_char(z % 64),
        ] + base64_nopad(b.skip(3))
    }
}

/// Relies on ed25519_dalek::PublicKey::from_bytes: on 32 bytes it succeeds
/// exactly when they decompress to a curve point.
#[verifier::external_body]
fn ed25519_decodes(b: &[u8; 32]) -> (r: bool)
    ensures
        r == ed25519_point_valid(b@),
{
    ed25519_dalek::PublicKey::from_bytes(&b[..]).is_ok()
}

/// Relies on ed25519::Signature::from_bytes: on 64 bytes it succeeds
/// exactly when the three high bits of the last byte are clear.
#[verifier::external_body]
fn ed25519_signature_parses(b: &[u8; 64]) -> (r: bool)
    ensures
        r == (b@[63] & 0xe0u8 == 0),
{
    ed25519_dalek::Signature::from_bytes(&b[..]).is_ok()
}

/// Relies on ed25519_dalek's `Verifier` impl for `PublicKey`, a function of
/// the key, the signature and the message alone.
#[verifier::external_body]
fn ed25519_verify(key: &[u8; 32], sig: &[u8; 64], msg: &[u8]) -> (r: bool)
    ensures
        r == ed25519_verifies(key@, sig@, msg@),
{
    let pk = match ed25519_dalek::PublicKey::from_bytes(&key[..]) {
        Ok(pk) => pk,
        Err(_) => return false,
    };
    match ed25519_dalek::Signature::from_bytes(&sig[..]) {
        Ok(s) => pk.verify(msg, &s).is_ok(),
        Err(_) => false,
    }
}

/// Relies on ed25519_dalek::verify_batch.  It draws random coefficients, so
/// only this holds of every outcome: a batch of equally many messages,
/// signatures and keys, each of which verifies on its own, is accepted.
#[verifier::external_body]
fn ed25519_verify_batch(msgs: &Vec<&[u8]>, sigs: &Vec<[u8; 64]>, keys: &Vec<[u8; 32]>) -> (r: bool)
    ensures
        msgs@.len() == sigs@.len() && sigs@.len() == keys@.len() && (forall|i: int|
            0 <= i < sigs@.len() ==> ed25519_verifies(keys@[i]@, sigs@[i]@, msgs@[i]@)) ==> r,
{
    let pks: Result<Vec<ed25519_dalek::PublicKey>, _> = keys.iter().map(
        |k| ed25519_dalek::PublicKey::from_bytes(&k[..]),
    ).collect();
    let ss: Result<Vec<ed25519_dalek::Signature>, _> = sigs.iter().map(
        |s| ed25519_dalek::Signature::from_bytes(&s[..]),
    ).collect();
    match (pks, ss) {
        (Ok(p), Ok(s)) => ed25519_dalek::verify_batch(&msgs[..], &s[..], &p[..]).is_ok(),
        _ => false,
    }
}

/// Relies on base64::encode_config with `STANDARD_NO_PAD`: the standard
/// alphabet, six bits per character, and no padding characters.
#[verifier::external_body]
fn encode_base64_nopad(b: &[u8; 32]) -> (r: String)
    ensures
        r@ == base64_nopad(b@),
{
    base64::encode_config(&b[..], base64::STANDARD_NO_PAD)
}

/// A relay's identity, as an unchecked, unvalidated Ed25519 key.
#[derive(Clone, Copy, Debug)]
pub struct Ed25519Identity {
    /// A raw unchecked Ed25519 public key.
    id: [u8; 32],
}

impl View for Ed25519Identity {
    type V = Seq<u8>;

    closed spec fn view(&self) -> Seq<u8> {
        self.id@
    }
}

impl Ed25519Identity {
    /// Construct a new identity from 32 bytes, which might or might not
    /// be a valid Ed25519 public key.
    pub fn new(id: [u8; 32]) -> (r: Self)
        ensures
            r@ == id@,
    {
        Ed25519Identity { id }
    }

    /// Wrap `id` as an identity if it is exactly 32 bytes long.
    pub fn from_slice(id: &[u8]) -> (r: Option<Self>)
        ensures
            id@.len() == 32 <==> r is Some,
            r matches Some(x) ==> x@ == id@,
    {
        if id.len() == 32 {
            let a: [u8; 32] = array_from_slice(id);
            assert(id@.take(32) =~= id@);
            Some(Ed25519Identity::new(a))
        } else {
            None
        }
    }

    /// The bytes of this identity.
    pub fn as_bytes(&self) -> (r: &[u8])
        ensures
            r@ == self@,
    {
        self.id.as_slice()
    }

    /// The validated public key with these bytes, if they encode a curve
    /// point.
    pub fn to_public_key(&self) -> (r: Option<Ed25519PublicKey>)
        ensures
            r is Some <==> ed25519_point_valid(self@),
            r matches Some(k) ==> k@ == self@,
    {
        if ed25519_decodes(&self.id) {
            Some(Ed25519PublicKey { bytes: self.id })
        } else {
            None
        }
    }

    /// Display form: the bytes in base64 without padding.
    pub fn to_string(&self) -> (r: String)
        ensures
            r@ == base64_nopad(self@),
    {
        encode_base64_nopad(&self.id)
    }
}

impl From<[u8; 32]> for Ed25519Identity {
    fn from(id: [u8; 32]) -> (r: Self) {
        Ed25519Identity { id }
    }
}

impl vstd::std_specs::convert::FromSpecImpl<[u8; 32]> for Ed25519Identity {
    open spec fn obeys_from_spec() -> bool {
        true
    }

    closed spec fn from_spec(id: [u8; 32]) -> Self {
        Ed25519Identity { id }
    }
}

impl PartialEq for Ed25519Identity {
    /// Compare in constant time.
    fn eq(&self, other: &Ed25519Identity) -> (r: bool) {
        ct_eq_bytes(self.id.as_slice(), other.id.as_slice())
    }
}

impl vstd::std_specs::cmp::PartialEqSpecImpl for Ed25519Identity {
    open spec fn obeys_eq_spec() -> bool {
        true
    }

    open spec fn eq_spec(&self, other: &Ed25519Identity) -> bool {
        self@ == other@
    }
}

impl Eq for Ed25519Identity {
}

/// A validated Ed25519 public key, held as its 32-byte encoding.
#[derive(Clone, Copy, Debug)]
pub struct Ed25519PublicKey {
    bytes: [u8; 32],
}

impl View for Ed25519PublicKey {
    type V = Seq<u8>;

    closed spec fn view(&self) -> Seq<u8> {
        self.bytes@
    }
}

impl Ed25519PublicKey {
    /// The key encoded by `bytes`, if they encode a curve point.
    pub fn from_bytes(bytes: [u8; 32]) -> (r: Option<Ed25519PublicKey>)
        ensures
            r is Some <==> ed25519_point_valid(bytes@),
            r matches Some(k) ==> k@ == bytes@,
    {
        if ed25519_decodes(&bytes) {
            Some(Ed25519PublicKey { bytes })
        } else {
            None
        }
    }

    /// The 32-byte encoding of this key.
    pub fn to_bytes(&self) -> (r: [u8; 32])
        ensures
            r@ == self@,
    {
        self.bytes
    }
}

impl Writeable for Ed25519PublicKey {
    open spec fn encoding(&self) -> Seq<u8> {
        self@
    }

    fn write_onto<W: Writer>(&self, w: &mut W) {
        w.write_all(self.bytes.as_slice())
    }
}

impl Readable for Ed25519PublicKey {
    open spec fn wire_len() -> nat {
        32
    }

    open spec fn accepts(s: Seq<u8>) -> bool {
        ed25519_point_valid(s)
    }

    closed spec fn from_wire(s: Seq<u8>) -> Ed25519PublicKey {
        Ed25519PublicKey { bytes: choose|a: [u8; 32]| a@ == s }
    }

    open spec fn legal(&self) -> bool {
        ed25519_point_valid(self@)
    }

    open spec fn rejection() -> Error {
        Error::BadMessage("Couldn't decode Ed25519 public key")
    }

    proof fn lemma_rejection_bad_message() {
    }

    proof fn lemma_round_trip(v: Ed25519PublicKey) {
        let c = Self::from_wire(v@);
        assert(exists|a: [u8; 32]| a@ == v@);
        assert(c.bytes =~= v.bytes);
    }

    fn take_from(r: &mut Reader) -> (res: Result<Ed25519PublicKey, Error>) {
        let bytes = match r.take(32) {
            Ok(b) => b,
            Err(_) => return Err(Error::BadMessage("truncated")),
        };
        let a: [u8; 32] = array_from_slice(bytes);
        proof {
            let s = old(r).rest().take(32);
            assert(bytes@ =~= s);
            let c = Self::from_wire(s);
            assert(exists|x: [u8; 32]| x@ == s);
            assert(c.bytes =~= a);
        }
        if ed25519_decodes(&a) {
            Ok(Ed25519PublicKey { bytes: a })
        } else {
            Err(Error::BadMessage("Couldn't decode Ed25519 public key"))
        }
    }
}

/// An Ed25519 signature, held as its 64-byte encoding.
#[derive(Clone, Copy, Debug)]
pub struct Ed25519Signature {
    bytes: [u8; 64],
}

impl View for Ed25519Signature {
    type V = Seq<u8>;

    closed spec fn view(&self) -> Seq<u8> {
        self.bytes@
    }
}

/// Whether the 64 bytes `s` are accepted as a signature encoding: the
/// three high bits of the scalar's last byte must be clear.
pub open spec fn signature_bytes_ok(s: Seq<u8>) -> bool {
    s[63] & 0xe0u8 == 0
}

impl Ed25519Signature {
    /// The signature encoded by `bytes`, if they are acceptable.
    pub fn from_bytes(bytes: [u8; 64]) -> (r: Option<Ed25519Signature>)
        ensures
            r is Some <==> signature_bytes_ok(bytes@),
            r matches Some(s) ==> s@ == bytes@,
    {
        if ed25519_signature_parses(&bytes) {
            Some(Ed25519Signature { bytes })
        } else {
            None
        }
    }

    /// The 64-byte encoding of this signature.
    pub fn to_bytes(&self) -> (r: [u8; 64])
        ensures
            r@ == self@,
    {
        self.bytes
    }
}

impl Writeable for Ed25519Signature {
    open spec fn encoding(&self) -> Seq<u8> {
        self@
    }

    fn write_onto<W: Writer>(&self, w: &mut W) {
        w.write_all(self.bytes.as_slice())
    }
}

impl Readable for Ed25519Signature {
    open spec fn wire_len() -> nat {
        64
    }

    open spec fn accepts(s: Seq<u8>) -> bool {
        signature_bytes_ok(s)
    }

    closed spec fn from_wire(s: Seq<u8>) -> Ed25519Signature {
        Ed25519Signature { bytes: choose|a: [u8; 64]| a@ == s }
    }

    open spec fn legal(&self) -> bool {
        signature_bytes_ok(self@)
    }

    open spec fn rejection() -> Error {
        Error::BadMessage("Couldn't decode Ed25519 signature.")
    }

    proof fn lemma_rejection_bad_message() {
    }

    proof fn lemma_round_trip(v: Ed25519Signature) {
        let c = Self::from_wire(v@);
        assert(exists|a: [u8; 64]| a@ == v@);
        assert(c.bytes =~= v.bytes);
    }

    fn take_from(r: &mut Reader) -> (res: Result<Ed25519Signature, Error>) {
        let bytes = match r.take(64) {
            Ok(b) => b,
            Err(_) => return Err(Error::BadMessage("truncated")),
        };
        let a: [u8; 64] = array_from_slice(bytes);
        proof {
            let s = old(r).rest().take(64);
            assert(bytes@ =~= s);
            let c = Self::from_wire(s);
            assert(exists|x: [u8; 64]| x@ == s);
            assert(c.bytes =~= a);
        }
        if ed25519_signature_parses(&a) {
            Ok(Ed25519Signature { bytes: a })
        } else {
            Err(Error::BadMessage("Couldn't decode Ed25519 signature."))
        }
    }
}

/// An Ed25519 signature, plus the document that it signs and its
/// public key.
pub struct ValidatableEd25519Signature {
    /// The key that allegedly produced the signature.
    key: Ed25519PublicKey,
    /// The alleged signature.
    sig: Ed25519Signature,
    /// The entire body of text that is allegedly signed here.
    entire_text_of_signed_thing: Vec<u8>,
}

impl ValidatableEd25519Signature {
    /// Whether the signature verifies.
    pub closed spec fn valid_spec(&self) -> bool {
        ed25519_verifies(self.key@, self.sig@, self.entire_text_of_signed_thing@)
    }

    /// Bundle a key, a signature and a copy of the signed text.
    pub fn new(key: Ed25519PublicKey, sig: Ed25519Signature, text: &[u8]) -> (r: Self)
        ensures
            r.valid_spec() == ed25519_verifies(key@, sig@, text@),
    {
        let mut copy: Vec<u8> = Vec::new();
        copy.extend_from_slice(text);
        assert(copy@ =~= text@);
        ValidatableEd25519Signature { key, sig, entire_text_of_signed_thing: copy }
    }

    /// Whether the signature is a valid signature of the text under the key.
    pub fn is_valid(&self) -> (r: bool)
        ensures
            r == self.valid_spec(),
    {
        ed25519_verify(&self.key.bytes, &self.sig.bytes, self.entire_text_of_signed_thing.as_slice())
    }
}

/// Check a batch of signatures: `true` for an empty batch, the single
/// signature's own validity for a batch of one, and otherwise the answer of
/// a batch verification of all of them together.
pub fn validate_batch(sigs: &[&ValidatableEd25519Signature]) -> (r: bool)
    ensures
        sigs@.len() == 0 ==> r,
        sigs@.len() == 1 ==> r == sigs@[0].valid_spec(),
        (forall|i: int| 0 <= i < sigs@.len() ==> (#[trigger] sigs@[i]).valid_spec()) ==> r,
{
    if sigs.len() == 0 {
        true
    } else if sigs.len() == 1 {
        sigs[0].is_valid()
    } else {
        let mut msgs: Vec<&[u8]> = Vec::new();
        let mut ss: Vec<[u8; 64]> = Vec::new();
        let mut keys: Vec<[u8; 32]> = Vec::new();
        let mut i: usize = 0;
        while i < sigs.len()
            invariant
                i <= sigs@.len(),
                msgs@.len() == i,
                ss@.len() == i,
                keys@.len() == i,
                forall|j: int|
                    0 <= j < i ==> {
                        &&& (#[trigger] msgs@[j])@ == sigs@[j].entire_text_of_signed_thing@
                        &&& ss@[j]@ == sigs@[j].sig@
                        &&& keys@[j]@ == sigs@[j].key@
                    },
            decreases sigs@.len() - i,
        {
            let s = sigs[i];
            msgs.push(s.entire_text_of_signed_thing.as_slice());
            ss.push(s.sig.bytes);
            keys.push(s.key.bytes);
            i = i + 1;
        }
        ed25519_verify_batch(&msgs, &ss, &keys)
    }
}

/// A Curve25519 public key, held as its 32-byte encoding; any 32 bytes
/// are accepted.
#[derive(Clone, Copy, Debug, PartialEq, Eq)]
pub struct Curve25519PublicKey {
    pub bytes: [u8; 32],
}

impl Writeable for Curve25519PublicKey {
    open spec fn encoding(&self) -> Seq<u8> {
        self.bytes@
    }

    fn write_onto<W: Writer>(&self, w: &mut W) {
        w.write_all(self.bytes.as_slice())
    }
}

impl Readable for Curve25519PublicKey {
    open spec fn wire_len() -> nat {
        32
    }

    open spec fn accepts(s: Seq<u8>) -> bool {
        true
    }

    open spec fn from_wire(s: Seq<u8>) -> Curve25519PublicKey {
        Curve25519PublicKey { bytes: <[u8; 32]>::from_wire(s) }
    }

    open spec fn legal(&self) -> bool {
        true
    }

    open spec fn rejection() -> Error {
        Error::BadMessage("invalid encoding")
    }

    proof fn lemma_rejection_bad_message() {
    }

    proof fn lemma_round_trip(v: Curve25519PublicKey) {
        <[u8; 32]>::lemma_round_trip(v.bytes);
    }

    fn take_from(r: &mut Reader) -> (res: Result<Curve25519PublicKey, Error>) {
        match r.extract::<[u8; 32]>() {
            Ok(bytes) => Ok(Curve25519PublicKey { bytes }),
            Err(e) => Err(e),
        }
    }
}

/// Length of an RSA identity (a SHA-1 digest of the key), in bytes.
pub const RSA_ID_LEN: usize = 20;

/// An RSA identity: the digest of a relay's RSA key.
#[derive(Clone, Copy, Debug, PartialEq, Eq)]
pub struct RsaIdentity {
    pub id: [u8; 20],
}

impl Writeable for RsaIdentity {
    open spec fn encoding(&self) -> Seq<u8> {
        self.id@
    }

    fn write_onto<W: Writer>(&self, w: &mut W) {
        w.write_all(self.id.as_slice())
    }
}

impl Readable for RsaIdentity {
    open spec fn wire_len() -> nat {
        RSA_ID_LEN as nat
    }

    open spec fn accepts(s: Seq<u8>) -> bool {
        true
    }

    open spec fn from_wire(s: Seq<u8>) -> RsaIdentity {
        RsaIdentity { id: <[u8; 20]>::from_wire(s) }
    }

    open spec fn legal(&self) -> bool {
        true
    }

    open spec fn rejection() -> Error {
        Error::BadMessage("invalid encoding")
    }

    proof fn lemma_rejection_bad_message() {
    }

    proof fn lemma_round_trip(v: RsaIdentity) {
        <[u8; 20]>::lemma_round_trip(v.id);
    }

    fn take_from(r: &mut Reader) -> (res: Result<RsaIdentity, Error>) {
        match r.extract::<[u8; 20]>() {
            Ok(id) => Ok(RsaIdentity { id }),
            Err(e) => Err(e),
        }
    }
}

} // verus!
