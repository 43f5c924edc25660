//! Identifiers of visitor connections.
use uuid::Uuid;
use vstd::prelude::*;

use crate::wire::{be_bytes, be_value, lemma_be_bytes_of_value};

verus! {

/// The UUID that identifies one visitor connection on a tunnel.
#[derive(Clone, Copy, Debug, PartialEq, Eq, Structural)]
pub struct StreamId {
    /// The UUID as a number, its first octet the most significant.
    pub value: u128,
}

impl StreamId {
    /// The sixteen octets of the UUID.
    pub open spec fn octets(self) -> Seq<u8> {
        be_bytes(self.value as nat, 16)
    }

    /// A random UUID: version 4, of the variant that RFC 9562 describes.
    pub open spec fn is_random_uuid(self) -> bool {
        let v = self.value as nat;
        &&& (v / 0x1000_0000_0000_0000_0000) % 16 == 4
        &&& (v / 0x4000_0000_0000_0000) % 4 == 2
    }

    /// The identifier with the given octets.
    pub fn from_bytes(bytes: [u8; 16]) -> (id: StreamId)
        ensures
            id.octets() == bytes@,
    {
        let value: u128 = uuid_from_bytes(bytes);
        proof {
            lemma_be_bytes_of_value(bytes@);
        }
        StreamId { value }
    }

    /// The octets of the identifier.
    pub fn as_bytes(&self) -> (bytes: [u8; 16])
        ensures
            bytes@ == self.octets(),
    {
        uuid_as_bytes(self.value)
    }

    /// A fresh random identifier. Which one it is, chance decides.
    pub fn random() -> (id: StreamId)
        ensures
            id.is_random_uuid(),
    {
        StreamId { value: uuid_new_v4() }
    }
}

/// `Uuid::from_bytes`, read back as a number: the octets in the order given.
#[verifier::external_body]
fn uuid_from_bytes(bytes: [u8; 16]) -> (value: u128)
    ensures
        value as nat == be_value(bytes@),
{
    Uuid::from_bytes(bytes).as_u128()
}

/// `Uuid::as_bytes` of the UUID that a number denotes: its octets, the most
/// significant first.
#[verifier::external_body]
fn uuid_as_bytes(value: u128) -> (bytes: [u8; 16])
    ensures
        bytes@ == be_bytes(value as nat, 16),
{
    *Uuid::from_u128(value).as_bytes()
}

/// `Uuid::new_v4` as a number. The operating system draws the bits; only the
/// version and the variant are the same in every outcome.
#[verifier::external_body]
fn uuid_new_v4() -> (value: u128)
    ensures
        (StreamId { value }).is_random_uuid(),
{
    Uuid::new_v4().as_u128()
}

} // verus!
