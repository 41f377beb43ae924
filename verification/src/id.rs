use vstd::prelude::*;

use uuid::parser::ParseError;
use uuid::Uuid;

verus! {

/// The error that uuid's parser reports for a text that is no UUID.
#[verifier::external_type_specification]
#[verifier::external_body]
pub struct ExUuidParseError(uuid::parser::ParseError);

/// The text that uuid's `Display` for `Uuid` prints for the UUID whose sixteen
/// octets, read as a big-endian integer, are `bits`.
pub uninterp spec fn uuid_text(bits: u128) -> Seq<char>;

/// What uuid's `Uuid::parse_str` makes of a text: the sixteen octets of the
/// UUID it reads, as a big-endian integer, or `None` where it reports an error.
pub uninterp spec fn uuid_parse(text: Seq<char>) -> Option<u128>;

/// A version 4 UUID, as RFC 4122 lays one out: read as a big-endian
/// integer, the version field (the high four bits of octet 6) holds 4 and
/// the variant field (the high two bits of octet 8) holds binary 10.
pub open spec fn is_version4(bits: u128) -> bool {
    &&& (bits / 0x1000_0000_0000_0000_0000) % 16 == 4
    &&& (bits / 0x4000_0000_0000_0000) % 4 == 2
}

/// Calls uuid's `Uuid::new_v4`, which draws random octets and then sets the
/// version field to 4 (`Version::Random`) and the variant field to RFC 4122;
/// the octets come back as a big-endian integer. Those two fields are
/// claimed; the other bits are chance.
#[verifier::external_body]
fn random_uuid_bits() -> (bits: u128)
    ensures
        is_version4(bits),
{
    u128::from_be_bytes(*Uuid::new_v4().as_bytes())
}

/// Calls uuid's `Display` for `Uuid` (through `to_string`) on the UUID with
/// the given octets. The text is named `uuid_text`. uuid documents that
/// `parse_str` accepts every form that the crate prints, so the claim that the
/// text parses back to the same octets is made too.
#[verifier::external_body]
fn uuid_bits_to_string(bits: u128) -> (s: String)
    ensures
        s@ == uuid_text(bits),
        uuid_parse(s@) == Some(bits),
{
    Uuid::from_bytes(bits.to_be_bytes()).to_string()
}

/// Calls uuid's `Uuid::parse_str`. Whether it succeeds, and the octets it
/// reads, are named `uuid_parse`; the error value itself is not described.
#[verifier::external_body]
fn parse_uuid_bits(text: &str) -> (r: Result<u128, ParseError>)
    ensures
        match r {
            Ok(bits) => uuid_parse(text@) == Some(bits),
            Err(_) => uuid_parse(text@) is None,
        },
{
    match Uuid::parse_str(text) {
        Ok(u) => Ok(u128::from_be_bytes(*u.as_bytes())),
        Err(e) => Err(e),
    }
}

/// The identity of a node: a UUID, held as its sixteen octets read as a
/// big-endian integer.
#[derive(Clone, Copy, Debug, PartialEq, Eq, Structural, Hash)]
pub struct NodeId(pub u128);

impl NodeId {
    /// A fresh random identity: a version 4 UUID of the RFC 4122 variant,
    /// whose other bits are drawn at random.
    pub fn new_v4() -> (id: NodeId)
        ensures
            is_version4(id.0),
    {
        NodeId(random_uuid_bits())
    }

    /// The identity with the given octets.
    pub fn from_u128(bits: u128) -> (id: NodeId)
        ensures
            id.0 == bits,
    {
        NodeId(bits)
    }

    /// The octets of the identity, read as a big-endian integer.
    pub fn as_u128(&self) -> (bits: u128)
        ensures
            bits == self.0,
    {
        self.0
    }

    /// Reads an identity from its textual form, as uuid's parser does.
    pub fn parse_str(text: &str) -> (r: Result<NodeId, ParseError>)
        ensures
            match r {
                Ok(id) => uuid_parse(text@) == Some(id.0),
                Err(_) => uuid_parse(text@) is None,
            },
    {
        match parse_uuid_bits(text) {
            Ok(bits) => Ok(NodeId(bits)),
            Err(e) => Err(e),
        }
    }

    /// The textual (hyphenated, lower case) form of the identity.
    pub fn to_string(&self) -> (s: String)
        ensures
            s@ == uuid_text(self.0),
            uuid_parse(s@) == Some(self.0),
    {
        uuid_bits_to_string(self.0)
    }
}

} // verus!
