//! Identifiers of invocations, workloads and runs.

use crate::text::digits;
use vstd::prelude::*;

verus! {

/// A universally unique identifier, as the number that its 128 bits write.
#[derive(Debug, Clone, Copy, PartialEq, Eq, Structural)]
pub struct Uuid {
    pub bits: u128,
}

/// The hyphenated form: 32 lower-case hexadecimal digits, in groups of 8, 4, 4, 4 and 12.
pub open spec fn uuid_text(bits: u128) -> Seq<char> {
    let hex = digits(bits as nat, 16, 32);
    hex.subrange(0, 8) + seq!['-'] + hex.subrange(8, 12) + seq!['-'] + hex.subrange(12, 16)
        + seq!['-'] + hex.subrange(16, 20) + seq!['-'] + hex.subrange(20, 32)
}

/// What a text is read as: `None` if it is no identifier in any of the accepted notations.
pub uninterp spec fn parsed_uuid(text: Seq<char>) -> Option<u128>;

/// Calls `to_string` of `uuid::Uuid`, which writes the hyphenated form.
#[verifier::external_body]
fn format_uuid(bits: u128) -> (text: String)
    ensures
        text@ == uuid_text(bits),
{
    uuid::Uuid::from_u128(bits).to_string()
}

/// Calls `from_str` of `uuid::Uuid`. What it accepts is named, not spelt out, but that the
/// hyphenated form of an identifier is read as that identifier is stated.
#[verifier::external_body]
fn parse_uuid(text: &str) -> (bits: Option<u128>)
    ensures
        bits == parsed_uuid(text@),
        forall|b: u128| text@ == #[trigger] uuid_text(b) ==> bits == Some(b),
{
    text.parse::<uuid::Uuid>().ok().map(|id| id.as_u128())
}

/// Calls `now_v7` of `uuid::Uuid`, which combines the time with random bits. Of every
/// identifier that it makes the version is 7 and the variant is that of RFC 4122; nothing else
/// is stated.
#[verifier::external_body]
fn fresh_uuid() -> (bits: u128)
    ensures
        (bits >> 76) & 0xf == 7u128,
        (bits >> 62) & 3 == 2u128,
{
    uuid::Uuid::now_v7().as_u128()
}

impl Uuid {
    /// The version that the identifier carries.
    pub open spec fn version(self) -> u128 {
        (self.bits >> 76) & 0xf
    }

    /// The two bits that mark the layout of RFC 4122.
    pub open spec fn variant(self) -> u128 {
        (self.bits >> 62) & 3
    }

    /// Makes an identifier out of the time and random bits.
    pub fn now_v7() -> (id: Uuid)
        ensures
            id.version() == 7,
            id.variant() == 2,
    {
        Uuid { bits: fresh_uuid() }
    }

    /// The hyphenated form of the identifier.
    pub fn to_text(&self) -> (text: String)
        ensures
            text@ == uuid_text(self.bits),
    {
        format_uuid(self.bits)
    }

    /// Reads an identifier. What `to_text` writes is read back as the same identifier.
    pub fn parse(text: &str) -> (id: Option<Uuid>)
        ensures
            match id {
                Some(id) => parsed_uuid(text@) == Some(id.bits),
                None => parsed_uuid(text@) is None,
            },
            forall|id0: Uuid| text@ == #[trigger] uuid_text(id0.bits) ==> id == Some(id0),
    {
        match parse_uuid(text) {
            Some(bits) => Some(Uuid { bits }),
            None => None,
        }
    }
}

} // verus!
