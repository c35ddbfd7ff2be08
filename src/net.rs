//! IPv4 and IPv6 addresses, encoded as their octets in network order.
use vstd::prelude::*;
use crate::bytes::{Readable, Reader, Writeable, Writer};
use crate::error::Error;

verus! {

/// An IPv4 address, as its four octets in network order.
#[derive(Clone, Copy, Debug, PartialEq, Eq)]
pub struct Ipv4Address {
    pub octets: [u8; 4],
}

impl Writeable for Ipv4Address {
    open spec fn encoding(&self) -> Seq<u8> {
        self.octets@
    }

    fn write_onto<W: Writer>(&self, w: &mut W) {
        w.write_all(self.octets.as_slice())
    }
}

impl Readable for Ipv4Address {
    open spec fn wire_len() -> nat {
        4
    }

    open spec fn accepts(s: Seq<u8>) -> bool {
        true
    }

    open spec fn from_wire(s: Seq<u8>) -> Ipv4Address {
        Ipv4Address { octets: <[u8; 4]>::from_wire(s) }
    }

    open spec fn legal(&self) -> bool {
        true
    }

    open spec fn rejection() -> Error {
        Error::BadMessage("invalid encoding")
    }

    proof fn lemma_rejection_bad_message() {
    }

    proof fn lemma_round_trip(v: Ipv4Address) {
        <[u8; 4]>::lemma_round_trip(v.octets);
    }

    fn take_from(r: &mut Reader) -> (res: Result<Ipv4Address, Error>) {
        match r.extract::<[u8; 4]>() {
            Ok(octets) => Ok(Ipv4Address { octets }),
            Err(e) => Err(e),
        }
    }
}

/// An IPv6 address, as its sixteen octets in network order.
#[derive(Clone, Copy, Debug, PartialEq, Eq)]
pub struct Ipv6Address {
    pub octets: [u8; 16],
}

impl Writeable for Ipv6Address {
    open spec fn encoding(&self) -> Seq<u8> {
        self.octets@
    }

    fn write_onto<W: Writer>(&self, w: &mut W) {
        w.write_all(self.octets.as_slice())
    }
}

impl Readable for Ipv6Address {
    open spec fn wire_len() -> nat {
        16
    }

    open spec fn accepts(s: Seq<u8>) -> bool {
        true
    }

    open spec fn from_wire(s: Seq<u8>) -> Ipv6Address {
        Ipv6Address { octets: <[u8; 16]>::from_wire(s) }
    }

    open spec fn legal(&self) -> bool {
        true
    }

    open spec fn rejection() -> Error {
        Error::BadMessage("invalid encoding")
    }

    proof fn lemma_rejection_bad_message() {
    }

    proof fn lemma_round_trip(v: Ipv6Address) {
        <[u8; 16]>::lemma_round_trip(v.octets);
    }

    fn take_from(r: &mut Reader) -> (res: Result<Ipv6Address, Error>) {
        match r.extract::<[u8; 16]>() {
            Ok(octets) => Ok(Ipv6Address { octets }),
            Err(e) => Err(e),
        }
    }
}

} // verus!
