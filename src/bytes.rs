//! Byte-stream codec primitives: an append-only `Writer`, a forward
//! `Reader` cursor over a borrowed slice, and the fixed-width big-endian
//! integer encodings that every protocol message is built from.
use vstd::prelude::*;
use crate::error::Error;
use vstd::arithmetic::div_mod::lemma_fundamental_div_mod;

verus! {

/// `256` raised to the power `n`.
pub open spec fn pow256(n: nat) -> nat
    decreases n,
{
    if n == 0 {
        1
    } else {
        256 * pow256((n - 1) as nat)
    }
}

/// The `n` low-order base-256 digits of `v`, most significant first.
pub open spec fn be_bytes(v: nat, n: nat) -> Seq<u8>
    decreases n,
{
    if n == 0 {
        Seq::empty()
    } else {
        be_bytes(v / 256, (n - 1) as nat).push((v % 256) as u8)
    }
}

/// The number whose base-256 digits, most significant first, are `s`.
pub open spec fn be_value(s: Seq<u8>) -> nat
    decreases s.len(),
{
    if s.len() == 0 {
        0
    } else {
        be_value(s.drop_last()) * 256 + s.last() as nat
    }
}

pub proof fn lemma_be_bytes_len(v: nat, n: nat)
    ensures
        be_bytes(v, n).len() == n,
    decreases n,
{
    if n > 0 {
        lemma_be_bytes_len(v / 256, (n - 1) as nat);
    }
}

pub proof fn lemma_be_value_bound(s: Seq<u8>)
    ensures
        be_value(s) < pow256(s.len()),
    decreases s.len(),
{
    if s.len() > 0 {
        lemma_be_value_bound(s.drop_last());
        let a = be_value(s.drop_last());
        let p = pow256((s.len() - 1) as nat);
        let d = s.last() as nat;
        assert(a * 256 + d < 256 * p) by (nonlinear_arith)
            requires a < p, d < 256;
    }
}

/// Decoding the `n`-digit encoding of a value below `256^n` gives it back.
pub proof fn lemma_be_round_trip(v: nat, n: nat)
    requires
        v < pow256(n),
    ensures
        be_value(be_bytes(v, n)) == v,
    decreases n,
{
    if n > 0 {
        let p = pow256((n - 1) as nat);
        lemma_fundamental_div_mod(v as int, 256);
        assert(v / 256 < p) by (nonlinear_arith)
            requires v < 256 * p, v == 256 * (v / 256) + v % 256, v % 256 >= 0;
        lemma_be_round_trip(v / 256, (n - 1) as nat);
        let s = be_bytes(v, n);
        assert(s.drop_last() =~= be_bytes(v / 256, (n - 1) as nat));
    }
}

proof fn lemma_pow256_facts()
    ensures
        pow256(1) == 0x100,
        pow256(2) == 0x1_0000,
        pow256(4) == 0x1_0000_0000,
        pow256(8) == 0x1_0000_0000_0000_0000,
        pow256(16) == 0x1_0000_0000_0000_0000_0000_0000_0000_0000,
{
    reveal_with_fuel(pow256, 17);
}

proof fn lemma_pow256_mono(a: nat, b: nat)
    requires
        a <= b,
    ensures
        pow256(a) <= pow256(b),
    decreases b,
{
    if a < b {
        lemma_pow256_mono(a, (b - 1) as nat);
    }
}

/// Build the `n`-byte big-endian encoding of `v` (its `n` low-order digits).
pub fn be_encode(v: u128, n: usize) -> (r: Vec<u8>)
    ensures
        r@ == be_bytes(v as nat, n as nat),
    decreases n,
{
    if n == 0 {
        Vec::new()
    } else {
        let mut r = be_encode(v / 256, n - 1);
        r.push((v % 256) as u8);
        r
    }
}

/// An append-only sink of bytes.
pub trait Writer {
    /// Everything written so far.
    spec fn written(&self) -> Seq<u8>;

    /// Append `bytes`.
    fn write_all(&mut self, bytes: &[u8])
        requires
            old(self).written().len() + bytes@.len() <= usize::MAX,
        ensures
            final(self).written() == old(self).written() + bytes@,
    ;

    /// Append `n` zero bytes.
    fn write_zeros(&mut self, n: usize)
        requires
            old(self).written().len() + n <= usize::MAX,
        ensures
            final(self).written() == old(self).written() + Seq::new(n as nat, |i: int| 0u8),
    ;
}

impl Writer for Vec<u8> {
    open spec fn written(&self) -> Seq<u8> {
        self@
    }

    fn write_all(&mut self, bytes: &[u8]) {
        self.extend_from_slice(bytes);
    }

    fn write_zeros(&mut self, n: usize) {
        let new_len = self.len() + n;
        self.resize(new_len, 0);
        assert(self@ =~= old(self)@ + Seq::new(n as nat, |i: int| 0u8));
    }
}

/// Append the `n`-byte big-endian encoding of `v`.
fn write_be<W: Writer>(w: &mut W, v: u128, n: usize)
    requires
        old(w).written().len() + n <= usize::MAX,
    ensures
        final(w).written() == old(w).written() + be_bytes(v as nat, n as nat),
{
    let b = be_encode(v, n);
    proof {
        lemma_be_bytes_len(v as nat, n as nat);
    }
    w.write_all(b.as_slice());
}

/// Append `x` as one byte.
pub fn write_u8<W: Writer>(w: &mut W, x: u8)
    requires
        old(w).written().len() + 1 <= usize::MAX,
    ensures
        final(w).written() == old(w).written() + be_bytes(x as nat, 1),
{
    write_be(w, x as u128, 1)
}

/// Append `x` as two bytes, big-endian.
pub fn write_u16<W: Writer>(w: &mut W, x: u16)
    requires
        old(w).written().len() + 2 <= usize::MAX,
    ensures
        final(w).written() == old(w).written() + be_bytes(x as nat, 2),
{
    write_be(w, x as u128, 2)
}

/// Append `x` as four bytes, big-endian.
pub fn write_u32<W: Writer>(w: &mut W, x: u32)
    requires
        old(w).written().len() + 4 <= usize::MAX,
    ensures
        final(w).written() == old(w).written() + be_bytes(x as nat, 4),
{
    write_be(w, x as u128, 4)
}

/// Append `x` as eight bytes, big-endian.
pub fn write_u64<W: Writer>(w: &mut W, x: u64)
    requires
        old(w).written().len() + 8 <= usize::MAX,
    ensures
        final(w).written() == old(w).written() + be_bytes(x as nat, 8),
{
    write_be(w, x as u128, 8)
}

/// Append `x` as sixteen bytes, big-endian.
pub fn write_u128<W: Writer>(w: &mut W, x: u128)
    requires
        old(w).written().len() + 16 <= usize::MAX,
    ensures
        final(w).written() == old(w).written() + be_bytes(x as nat, 16),
{
    write_be(w, x, 16)
}

/// A forward cursor over a borrowed byte slice.
pub struct Reader<'a> {
    b: &'a [u8],
    off: usize,
}

impl<'a> Reader<'a> {
    #[verifier::type_invariant]
    spec fn inv(&self) -> bool {
        self.off <= self.b@.len()
    }

    /// The bytes not yet consumed.
    pub closed spec fn rest(&self) -> Seq<u8> {
        self.b@.subrange(self.off as int, self.b@.len() as int)
    }

    /// A reader positioned at the start of `b`.
    pub fn from_slice(b: &'a [u8]) -> (r: Reader<'a>)
        ensures
            r.rest() == b@,
    {
        let r = Reader { b, off: 0 };
        assert(r.rest() =~= b@);
        r
    }

    /// Number of bytes not yet consumed.
    pub fn remaining(&self) -> (r: usize)
        ensures
            r == self.rest().len(),
    {
        proof {
            use_type_invariant(self);
        }
        self.b.len() - self.off
    }

    /// Consume and return the next `n` bytes, or fail with a truncation
    /// error (consuming nothing) when fewer remain.
    pub fn take(&mut self, n: usize) -> (r: Result<&'a [u8], Error>)
        ensures
            n <= old(self).rest().len() ==> r is Ok && r->Ok_0@ == old(self).rest().take(n as int)
                && final(self).rest() == old(self).rest().skip(n as int),
            n > old(self).rest().len() ==> r == Err::<&'a [u8], Error>(Error::BadMessage("truncated"))
                && final(self).rest() == old(self).rest(),
    {
        proof {
            use_type_invariant(&*self);
        }
        if n > self.b.len() - self.off {
            return Err(Error::BadMessage("truncated"));
        }
        let start = self.off;
        let end = self.off + n;
        let out = &self.b[start..end];
        self.off = end;
        assert(out@ =~= old(self).rest().take(n as int));
        assert(self.rest() =~= old(self).rest().skip(n as int));
        Ok(out)
    }

    /// Consume `n` bytes as a big-endian number.
    fn take_be(&mut self, n: usize) -> (r: Result<u128, Error>)
        requires
            n <= 16,
        ensures
            n <= old(self).rest().len() ==> r == Ok::<u128, Error>(
                be_value(old(self).rest().take(n as int)) as u128,
            ) && be_value(old(self).rest().take(n as int)) < pow256(n as nat)
                && final(self).rest() == old(self).rest().skip(n as int),
            n > old(self).rest().len() ==> r == Err::<u128, Error>(Error::BadMessage("truncated"))
                && final(self).rest() == old(self).rest(),
    {
        let bytes = match self.take(n) {
            Ok(b) => b,
            Err(e) => return Err(e),
        };
        let mut acc: u128 = 0;
        let mut i: usize = 0;
        proof {
            lemma_pow256_facts();
        }
        while i < n
            invariant
                i <= n,
                n <= 16,
                bytes@.len() == n,
                acc as nat == be_value(bytes@.take(i as int)),
                pow256(16) == 0x1_0000_0000_0000_0000_0000_0000_0000_0000,
            decreases n - i,
        {
            proof {
                lemma_be_value_bound(bytes@.take(i as int));
                lemma_pow256_mono((i + 1) as nat, 16);
                assert(bytes@.take(i + 1).drop_last() =~= bytes@.take(i as int));
                let a = acc as nat;
                let p = pow256(i as nat);
                let d = bytes@[i as int] as nat;
                assert(a * 256 + d < 256 * p) by (nonlinear_arith)
                    requires a < p, d < 256;
            }
            acc = acc * 256 + bytes[i] as u128;
            i = i + 1;
        }
        proof {
            assert(bytes@.take(n as int) =~= bytes@);
            lemma_be_value_bound(bytes@);
        }
        Ok(acc)
    }
}

impl<'a> Reader<'a> {
    /// Consume one byte.
    pub fn take_u8(&mut self) -> (r: Result<u8, Error>)
        ensures
            old(self).rest().len() >= 1 ==> r == Ok::<u8, Error>(
                be_value(old(self).rest().take(1)) as u8,
            ) && final(self).rest() == old(self).rest().skip(1),
            old(self).rest().len() < 1 ==> r == Err::<u8, Error>(Error::BadMessage("truncated"))
                && final(self).rest() == old(self).rest(),
    {
        proof {
            lemma_pow256_facts();
        }
        match self.take_be(1) {
            Ok(v) => Ok(v as u8),
            Err(e) => Err(e),
        }
    }

    /// Consume two bytes as a big-endian number.
    pub fn take_u16(&mut self) -> (r: Result<u16, Error>)
        ensures
            old(self).rest().len() >= 2 ==> r == Ok::<u16, Error>(
                be_value(old(self).rest().take(2)) as u16,
            ) && final(self).rest() == old(self).rest().skip(2),
            old(self).rest().len() < 2 ==> r == Err::<u16, Error>(Error::BadMessage("truncated"))
                && final(self).rest() == old(self).rest(),
    {
        proof {
            lemma_pow256_facts();
        }
        match self.take_be(2) {
            Ok(v) => Ok(v as u16),
            Err(e) => Err(e),
        }
    }

    /// Consume four bytes as a big-endian number.
    pub fn take_u32(&mut self) -> (r: Result<u32, Error>)
        ensures
            old(self).rest().len() >= 4 ==> r == Ok::<u32, Error>(
                be_value(old(self).rest().take(4)) as u32,
            ) && final(self).rest() == old(self).rest().skip(4),
            old(self).rest().len() < 4 ==> r == Err::<u32, Error>(Error::BadMessage("truncated"))
                && final(self).rest() == old(self).rest(),
    {
        proof {
            lemma_pow256_facts();
        }
        match self.take_be(4) {
            Ok(v) => Ok(v as u32),
            Err(e) => Err(e),
        }
    }

    /// Consume eight bytes as a big-endian number.
    pub fn take_u64(&mut self) -> (r: Result<u64, Error>)
        ensures
            old(self).rest().len() >= 8 ==> r == Ok::<u64, Error>(
                be_value(old(self).rest().take(8)) as u64,
            ) && final(self).rest() == old(self).rest().skip(8),
            old(self).rest().len() < 8 ==> r == Err::<u64, Error>(Error::BadMessage("truncated"))
                && final(self).rest() == old(self).rest(),
    {
        proof {
            lemma_pow256_facts();
        }
        match self.take_be(8) {
            Ok(v) => Ok(v as u64),
            Err(e) => Err(e),
        }
    }

    /// Consume sixteen bytes as a big-endian number.
    pub fn take_u128(&mut self) -> (r: Result<u128, Error>)
        ensures
            old(self).rest().len() >= 16 ==> r == Ok::<u128, Error>(
                be_value(old(self).rest().take(16)) as u128,
            ) && final(self).rest() == old(self).rest().skip(16),
            old(self).rest().len() < 16 ==> r == Err::<u128, Error>(Error::BadMessage("truncated"))
                && final(self).rest() == old(self).rest(),
    {
        self.take_be(16)
    }

    /// Consume and decode one value of type `T`.
    pub fn extract<T: Readable>(&mut self) -> (r: Result<T, Error>)
        ensures
            decode_ok::<T>(old(self).rest()) ==> r == Ok::<T, Error>(
                T::from_wire(old(self).rest().take(T::wire_len() as int)),
            ) && final(self).rest() == old(self).rest().skip(T::wire_len() as int),
            !decode_ok::<T>(old(self).rest()) ==> r == Err::<T, Error>(
                decode_error::<T>(old(self).rest()),
            ),
            !decode_ok::<T>(old(self).rest()) ==> (r matches Err(Error::BadMessage(_))),
            old(self).rest().len() < T::wire_len() ==> final(self).rest() == old(self).rest(),
    {
        T::take_from(self)
    }
}

/// A value that can be encoded onto a `Writer`.
pub trait Writeable {
    /// The bytes that encode this value.
    spec fn encoding(&self) -> Seq<u8>;

    /// Append the encoding of this value.
    fn write_onto<W: Writer>(&self, w: &mut W)
        requires
            old(w).written().len() + self.encoding().len() <= usize::MAX,
        ensures
            final(w).written() == old(w).written() + self.encoding(),
    ;
}

/// A value with a fixed-width encoding that can be decoded from a `Reader`.
pub trait Readable: Writeable + Sized {
    /// Number of bytes in an encoding.
    spec fn wire_len() -> nat;

    /// Whether `s`, of `wire_len()` bytes, is the encoding of a value.
    spec fn accepts(s: Seq<u8>) -> bool;

    /// The value that the accepted bytes `s` encode.
    spec fn from_wire(s: Seq<u8>) -> Self;

    /// Whether this is a value that the type admits.
    spec fn legal(&self) -> bool;

    /// The error for `wire_len()` bytes that encode no value.
    spec fn rejection() -> Error;

    /// That error is a `BadMessage`.
    proof fn lemma_rejection_bad_message()
        ensures
            Self::rejection() is BadMessage,
    ;

    /// Decoding the encoding of a legal value gives that value back.
    proof fn lemma_round_trip(v: Self)
        requires
            v.legal(),
        ensures
            v.encoding().len() == Self::wire_len(),
            Self::accepts(v.encoding()),
            Self::from_wire(v.encoding()) == v,
    ;

    /// Decode one value from `r`; fail with `BadMessage` when the bytes
    /// remaining do not start with an encoding.
    fn take_from(r: &mut Reader) -> (res: Result<Self, Error>)
        ensures
            old(r).rest().len() >= Self::wire_len() && Self::accepts(
                old(r).rest().take(Self::wire_len() as int),
            ) ==> res == Ok::<Self, Error>(
                Self::from_wire(old(r).rest().take(Self::wire_len() as int)),
            ) && final(r).rest() == old(r).rest().skip(Self::wire_len() as int),
            !(old(r).rest().len() >= Self::wire_len() && Self::accepts(
                old(r).rest().take(Self::wire_len() as int),
            )) ==> (res matches Err(Error::BadMessage(_))),
            old(r).rest().len() < Self::wire_len() ==> res == Err::<Self, Error>(
                Error::BadMessage("truncated"),
            ) && final(r).rest() == old(r).rest(),
            old(r).rest().len() >= Self::wire_len() && !Self::accepts(
                old(r).rest().take(Self::wire_len() as int),
            ) ==> res == Err::<Self, Error>(Self::rejection()),
    ;
}

/// The error of decoding a `T` from bytes that do not start with an
/// encoding of one: truncation when too few bytes remain, and otherwise
/// the type's own rejection.
pub open spec fn decode_error<T: Readable>(s: Seq<u8>) -> Error {
    if s.len() < T::wire_len() {
        Error::BadMessage("truncated")
    } else {
        T::rejection()
    }
}

/// Whether `s` starts with an encoding of a `T`.
pub open spec fn decode_ok<T: Readable>(s: Seq<u8>) -> bool {
    s.len() >= T::wire_len() && T::accepts(s.take(T::wire_len() as int))
}

/// Reading a `T` from bytes that start with the encoding of a legal value
/// `v` succeeds, gives `v`, and consumes exactly its encoding.
pub proof fn lemma_read_after_write<T: Readable>(v: T, rest: Seq<u8>)
    requires
        v.legal(),
    ensures
        decode_ok::<T>(v.encoding() + rest),
        T::from_wire((v.encoding() + rest).take(T::wire_len() as int)) == v,
        (v.encoding() + rest).skip(T::wire_len() as int) == rest,
{
    T::lemma_round_trip(v);
    assert((v.encoding() + rest).take(T::wire_len() as int) =~= v.encoding());
    assert((v.encoding() + rest).skip(T::wire_len() as int) =~= rest);
}

proof fn lemma_int_round_trip(v: nat, n: nat)
    requires
        v < pow256(n),
    ensures
        be_bytes(v, n).len() == n,
        be_value(be_bytes(v, n)) == v,
{
    lemma_be_bytes_len(v, n);
    lemma_be_round_trip(v, n);
}

impl Writeable for u8 {
    open spec fn encoding(&self) -> Seq<u8> {
        be_bytes(*self as nat, 1)
    }

    fn write_onto<W: Writer>(&self, w: &mut W) {
        proof {
            lemma_be_bytes_len(*self as nat, 1);
        }
        write_u8(w, *self)
    }
}

impl Readable for u8 {
    open spec fn wire_len() -> nat {
        1
    }

    open spec fn accepts(s: Seq<u8>) -> bool {
        true
    }

    open spec fn from_wire(s: Seq<u8>) -> u8 {
        be_value(s) as u8
    }

    open spec fn legal(&self) -> bool {
        true
    }

    open spec fn rejection() -> Error {
        Error::BadMessage("invalid encoding")
    }

    proof fn lemma_rejection_bad_message() {
    }

    proof fn lemma_round_trip(v: u8) {
        lemma_pow256_facts();
        lemma_int_round_trip(v as nat, 1);
    }

    fn take_from(r: &mut Reader) -> (res: Result<u8, Error>) {
        r.take_u8()
    }
}

impl Writeable for u16 {
    open spec fn encoding(&self) -> Seq<u8> {
        be_bytes(*self as nat, 2)
    }

    fn write_onto<W: Writer>(&self, w: &mut W) {
        proof {
            lemma_be_bytes_len(*self as nat, 2);
        }
        write_u16(w, *self)
    }
}

impl Readable for u16 {
    open spec fn wire_len() -> nat {
        2
    }

    open spec fn accepts(s: Seq<u8>) -> bool {
        true
    }

    open spec fn from_wire(s: Seq<u8>) -> u16 {
        be_value(s) as u16
    }

    open spec fn legal(&self) -> bool {
        true
    }

    open spec fn rejection() -> Error {
        Error::BadMessage("invalid encoding")
    }

    proof fn lemma_rejection_bad_message() {
    }

    proof fn lemma_round_trip(v: u16) {
        lemma_pow256_facts();
        lemma_int_round_trip(v as nat, 2);
    }

    fn take_from(r: &mut Reader) -> (res: Result<u16, Error>) {
        r.take_u16()
    }
}

impl Writeable for u32 {
    open spec fn encoding(&self) -> Seq<u8> {
        be_bytes(*self as nat, 4)
    }

    fn write_onto<W: Writer>(&self, w: &mut W) {
        proof {
            lemma_be_bytes_len(*self as nat, 4);
        }
        write_u32(w, *self)
    }
}

impl Readable for u32 {
    open spec fn wire_len() -> nat {
        4
    }

    open spec fn accepts(s: Seq<u8>) -> bool {
        true
    }

    open spec fn from_wire(s: Seq<u8>) -> u32 {
        be_value(s) as u32
    }

    open spec fn legal(&self) -> bool {
        true
    }

    open spec fn rejection() -> Error {
        Error::BadMessage("invalid encoding")
    }

    proof fn lemma_rejection_bad_message() {
    }

    proof fn lemma_round_trip(v: u32) {
        lemma_pow256_facts();
        lemma_int_round_trip(v as nat, 4);
    }

    fn take_from(r: &mut Reader) -> (res: Result<u32, Error>) {
        r.take_u32()
    }
}

impl Writeable for u64 {
    open spec fn encoding(&self) -> Seq<u8> {
        be_bytes(*self as nat, 8)
    }

    fn write_onto<W: Writer>(&self, w: &mut W) {
        proof {
            lemma_be_bytes_len(*self as nat, 8);
        }
        write_u64(w, *self)
    }
}

impl Readable for u64 {
    open spec fn wire_len() -> nat {
        8
    }

    open spec fn accepts(s: Seq<u8>) -> bool {
        true
    }

    open spec fn from_wire(s: Seq<u8>) -> u64 {
        be_value(s) as u64
    }

    open spec fn legal(&self) -> bool {
        true
    }

    open spec fn rejection() -> Error {
        Error::BadMessage("invalid encoding")
    }

    proof fn lemma_rejection_bad_message() {
    }

    proof fn lemma_round_trip(v: u64) {
        lemma_pow256_facts();
        lemma_int_round_trip(v as nat, 8);
    }

    fn take_from(r: &mut Reader) -> (res: Result<u64, Error>) {
        r.take_u64()
    }
}

impl Writeable for u128 {
    open spec fn encoding(&self) -> Seq<u8> {
        be_bytes(*self as nat, 16)
    }

    fn write_onto<W: Writer>(&self, w: &mut W) {
        proof {
            lemma_be_bytes_len(*self as nat, 16);
        }
        write_u128(w, *self)
    }
}

impl Readable for u128 {
    open spec fn wire_len() -> nat {
        16
    }

    open spec fn accepts(s: Seq<u8>) -> bool {
        true
    }

    open spec fn from_wire(s: Seq<u8>) -> u128 {
        be_value(s) as u128
    }

    open spec fn legal(&self) -> bool {
        true
    }

    open spec fn rejection() -> Error {
        Error::BadMessage("invalid encoding")
    }

    proof fn lemma_rejection_bad_message() {
    }

    proof fn lemma_round_trip(v: u128) {
        lemma_pow256_facts();
        lemma_int_round_trip(v as nat, 16);
    }

    fn take_from(r: &mut Reader) -> (res: Result<u128, Error>) {
        r.take_u128()
    }
}

impl<const N: usize> Writeable for [u8; N] {
    open spec fn encoding(&self) -> Seq<u8> {
        self@
    }

    fn write_onto<W: Writer>(&self, w: &mut W) {
        w.write_all(self.as_slice())
    }
}

/// Copy the first `N` bytes of `b` into an array.
pub fn array_from_slice<const N: usize>(b: &[u8]) -> (r: [u8; N])
    requires
        b@.len() >= N,
    ensures
        r@ == b@.take(N as int),
{
    let mut a: [u8; N] = [0u8; N];
    let mut i: usize = 0;
    while i < N
        invariant
            i <= N,
            b@.len() >= N,
            a@.len() == N,
            forall|j: int| 0 <= j < i ==> a@[j] == b@[j],
        decreases N - i,
    {
        a[i] = b[i];
        i = i + 1;
    }
    assert(a@ =~= b@.take(N as int));
    a
}

impl<const N: usize> Readable for [u8; N] {
    open spec fn wire_len() -> nat {
        N as nat
    }

    open spec fn accepts(s: Seq<u8>) -> bool {
        true
    }

    open spec fn from_wire(s: Seq<u8>) -> [u8; N] {
        choose|a: [u8; N]| a@ == s
    }

    open spec fn legal(&self) -> bool {
        true
    }

    open spec fn rejection() -> Error {
        Error::BadMessage("invalid encoding")
    }

    proof fn lemma_rejection_bad_message() {
    }

    proof fn lemma_round_trip(v: [u8; N]) {
        let c = Self::from_wire(v@);
        assert(exists|a: [u8; N]| a@ == v@);
        assert(c =~= v);
    }

    fn take_from(r: &mut Reader) -> (res: Result<[u8; N], Error>) {
        let bytes = match r.take(N) {
            Ok(b) => b,
            Err(_) => return Err(Error::BadMessage("truncated")),
        };
        let a: [u8; N] = array_from_slice(bytes);
        proof {
            let s = old(r).rest().take(N as int);
            assert(bytes@ =~= s);
            let c = Self::from_wire(s);
            assert(exists|x: [u8; N]| x@ == s);
            assert(c =~= a);
        }
        Ok(a)
    }
}

impl Writeable for Vec<u8> {
    open spec fn encoding(&self) -> Seq<u8> {
        self@
    }

    fn write_onto<W: Writer>(&self, w: &mut W) {
        w.write_all(self.as_slice())
    }
}

/// The concatenated encodings of `vs`, in order.
pub open spec fn encode_seq<T: Writeable>(vs: Seq<T>) -> Seq<u8>
    decreases vs.len(),
{
    if vs.len() == 0 {
        Seq::empty()
    } else {
        vs[0].encoding() + encode_seq(vs.drop_first())
    }
}

/// The `n` values that `s` starts with, when it starts with `n` encodings.
pub open spec fn decode_n<T: Readable>(s: Seq<u8>, n: nat) -> Option<Seq<T>>
    decreases n,
{
    if n == 0 {
        Some(Seq::empty())
    } else if !decode_ok::<T>(s) {
        None
    } else {
        match decode_n::<T>(s.skip(T::wire_len() as int), (n - 1) as nat) {
            Some(vs) => Some(seq![T::from_wire(s.take(T::wire_len() as int))] + vs),
            None => None,
        }
    }
}

/// What is left of `s` after `n` encodings of `T`.
pub open spec fn skip_n<T: Readable>(s: Seq<u8>, n: nat) -> Seq<u8>
    decreases n,
{
    if n == 0 {
        s
    } else {
        skip_n::<T>(s.skip(T::wire_len() as int), (n - 1) as nat)
    }
}

/// The error of the first of `n` encodings of `T` that `s` fails to
/// start with.
pub open spec fn first_error<T: Readable>(s: Seq<u8>, n: nat) -> Error
    decreases n,
{
    if n == 0 || !decode_ok::<T>(s) {
        decode_error::<T>(s)
    } else {
        first_error::<T>(s.skip(T::wire_len() as int), (n - 1) as nat)
    }
}

/// Writing a sequence of legal values and reading back as many values
/// gives the same sequence, and leaves exactly the bytes that followed.
pub proof fn lemma_seq_round_trip<T: Readable>(vs: Seq<T>, rest: Seq<u8>)
    requires
        forall|i: int| 0 <= i < vs.len() ==> (#[trigger] vs[i]).legal(),
    ensures
        decode_n::<T>(encode_seq(vs) + rest, vs.len()) == Some(vs),
        skip_n::<T>(encode_seq(vs) + rest, vs.len()) == rest,
    decreases vs.len(),
{
    if vs.len() > 0 {
        let tail = vs.drop_first();
        assert forall|i: int| 0 <= i < tail.len() implies (#[trigger] tail[i]).legal() by {
            assert(tail[i] == vs[i + 1]);
        }
        lemma_seq_round_trip(tail, rest);
        let whole = encode_seq(vs) + rest;
        assert(whole =~= vs[0].encoding() + (encode_seq(tail) + rest));
        lemma_read_after_write(vs[0], encode_seq(tail) + rest);
        assert(seq![vs[0]] + tail =~= vs);
    }
}

impl<'a> Reader<'a> {
    /// Consume and decode `n` consecutive values of type `T`.
    pub fn extract_n<T: Readable>(&mut self, n: usize) -> (r: Result<Vec<T>, Error>)
        ensures
            decode_n::<T>(old(self).rest(), n as nat) matches Some(vs) ==> r is Ok && r->Ok_0@ == vs
                && final(self).rest() == skip_n::<T>(old(self).rest(), n as nat),
            decode_n::<T>(old(self).rest(), n as nat) is None ==> r == Err::<Vec<T>, Error>(
                first_error::<T>(old(self).rest(), n as nat),
            ),
            decode_n::<T>(old(self).rest(), n as nat) is None ==> (r matches Err(
                Error::BadMessage(_),
            )),
    {
        let mut out: Vec<T> = Vec::new();
        let mut i: usize = 0;
        while i < n
            invariant
                i <= n,
                decode_n::<T>(old(self).rest(), n as nat) == match decode_n::<T>(
                    self.rest(),
                    (n - i) as nat,
                ) {
                    Some(vs) => Some(out@ + vs),
                    None => None::<Seq<T>>,
                },
                skip_n::<T>(old(self).rest(), n as nat) == skip_n::<T>(self.rest(), (n - i) as nat),
                first_error::<T>(old(self).rest(), n as nat) == first_error::<T>(
                    self.rest(),
                    (n - i) as nat,
                ),
            decreases n - i,
        {
            let ghost before = self.rest();
            let ghost out_before = out@;
            match T::take_from(self) {
                Ok(v) => {
                    out.push(v);
                    proof {
                        match decode_n::<T>(self.rest(), (n - i - 1) as nat) {
                            Some(vs) => {
                                assert(out_before + (seq![v] + vs) =~= out@ + vs);
                            },
                            None => {},
                        }
                    }
                },
                Err(e) => {
                    proof {
                        T::lemma_rejection_bad_message();
                    }
                    return Err(e);
                },
            }
            i = i + 1;
        }
        proof {
            assert(out@ + Seq::<T>::empty() =~= out@);
        }
        Ok(out)
    }
}

/// Append the encodings of `items`, in order.
pub fn write_items<T: Writeable, W: Writer>(items: &Vec<T>, w: &mut W)
    requires
        old(w).written().len() + encode_seq(items@).len() <= usize::MAX,
    ensures
        final(w).written() == old(w).written() + encode_seq(items@),
{
    let mut i: usize = 0;
    assert(items@.skip(0) =~= items@);
    while i < items.len()
        invariant
            i <= items@.len(),
            old(w).written().len() + encode_seq(items@).len() <= usize::MAX,
            old(w).written() + encode_seq(items@) == w.written() + encode_seq(items@.skip(i as int)),
        decreases items@.len() - i,
    {
        let ghost w_before = w.written();
        proof {
            let s = items@.skip(i as int);
            assert(s.drop_first() =~= items@.skip(i + 1));
            assert(s[0] == items@[i as int]);
            assert(encode_seq(s) == s[0].encoding() + encode_seq(s.drop_first()));
            assert((old(w).written() + encode_seq(items@)).len() == (w.written() + encode_seq(
                s,
            )).len());
        }
        items[i].write_onto(w);
        proof {
            let s = items@.skip(i as int);
            assert(w_before + encode_seq(s) =~= w.written() + encode_seq(items@.skip(i + 1)));
        }
        i = i + 1;
    }
    proof {
        assert(items@.skip(i as int) =~= Seq::<T>::empty());
        assert(w.written() + Seq::<u8>::empty() =~= w.written());
    }
}

} // verus!
