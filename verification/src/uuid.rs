//! Second Life / OpenSimulator identifiers: 16 bytes, written as the
//! hyphenated lower-case hex form `8-4-4-4-12`.

use vstd::prelude::*;

verus! {

#[verifier::external_type_specification]
#[verifier::external_body]
pub struct ExUuidError(uuid::Error);

/// An identifier, held as its 16 bytes.
#[derive(Clone, Copy, PartialEq, Eq, Hash, PartialOrd, Ord, Debug)]
pub struct UUID(pub [u8; 16]);

/// The lower-case hex digit for `n < 16`.
pub open spec fn spec_hex_digit(n: u8) -> char {
    if n < 10 {
        (n + 0x30) as char
    } else {
        (n - 10 + 0x61) as char
    }
}

/// Two lower-case hex digits per byte, most significant digit first.
pub open spec fn spec_hex_lower(b: Seq<u8>) -> Seq<char>
    decreases b.len(),
{
    if b.len() == 0 {
        Seq::<char>::empty()
    } else {
        spec_hex_lower(b.drop_last()) + seq![spec_hex_digit(b.last() / 16), spec_hex_digit(b.last() % 16)]
    }
}

/// The hyphenated form of 16 bytes: hex groups of 4, 2, 2, 2 and 6 bytes.
pub open spec fn spec_uuid_hyphenated(b: Seq<u8>) -> Seq<char> {
    spec_hex_lower(b.subrange(0, 4)) + seq!['-'] + spec_hex_lower(b.subrange(4, 6)) + seq!['-']
        + spec_hex_lower(b.subrange(6, 8)) + seq!['-'] + spec_hex_lower(b.subrange(8, 10)) + seq!['-']
        + spec_hex_lower(b.subrange(10, 16))
}

/// What `uuid::Uuid::parse_str` gives for a string: the 16 bytes it spells,
/// or `None` when it is not one of the accepted forms (simple, hyphenated,
/// braced, URN).
pub uninterp spec fn uuid_parse_str(s: Seq<char>) -> Option<Seq<u8>>;

/// `uuid::Uuid::parse_str`, returning the parsed bytes. Its result is named
/// by `uuid_parse_str`; of its grammar the contract states that the
/// hyphenated lower-case form of any 16 bytes parses to those bytes, and that
/// a string whose UTF-8 length is not 32, 36, 38 or 45 is refused.
#[verifier::external_body]
fn uuid_parse_bytes(s: &str) -> (r: Result<[u8; 16], uuid::Error>)
    ensures
        uuid_parse_str(s@) is Some ==> r is Ok && r->Ok_0@ == uuid_parse_str(s@)->0,
        uuid_parse_str(s@) is None ==> r is Err,
        forall|b: Seq<u8>| b.len() == 16 && s@ == spec_uuid_hyphenated(b) ==> r is Ok && r->Ok_0@ == b,
        !(s@.len() == 32 || s@.len() == 36 || s@.len() == 38 || s@.len() == 45) && s.is_ascii() ==> r is Err,
{
    uuid::Uuid::parse_str(s).map(|u| *u.as_bytes())
}

/// `uuid::Uuid::new_v4`, returning its bytes: random, with the version
/// nibble set to 4 and the RFC 4122 variant bits set. Which random bytes
/// come back is not stated.
#[verifier::external_body]
fn uuid_new_v4_bytes() -> (r: [u8; 16])
    ensures
        r[6] / 16 == 4,
        r[8] / 64 == 2,
{
    *uuid::Uuid::new_v4().as_bytes()
}

/// The `Display` form of `uuid::Uuid`: hyphenated lower-case hex.
#[verifier::external_body]
fn uuid_hyphenated_string(b: &[u8; 16]) -> (r: String)
    ensures
        r@ == spec_uuid_hyphenated(b@),
{
    uuid::Uuid::from_bytes(*b).to_string()
}

/// Whether every byte of `u` is zero.
pub open spec fn spec_is_nil(u: UUID) -> bool {
    forall|i: int| 0 <= i < 16 ==> u.0[i] == 0
}

impl UUID {
    /// A fresh random (version 4) identifier.
    pub fn new() -> (r: Self)
        ensures
            r.0[6] / 16 == 4,
            r.0[8] / 64 == 2,
    {
        UUID(uuid_new_v4_bytes())
    }

    /// Parse any form `uuid` accepts.
    pub fn parse(s: &str) -> (r: Result<Self, uuid::Error>)
        ensures
            uuid_parse_str(s@) is Some ==> (r matches Ok(u) && u.0@ == uuid_parse_str(s@)->0),
            uuid_parse_str(s@) is None ==> r is Err,
            forall|b: Seq<u8>| b.len() == 16 && s@ == spec_uuid_hyphenated(b) ==> (r matches Ok(u) && u.0@ == b),
            !(s@.len() == 32 || s@.len() == 36 || s@.len() == 38 || s@.len() == 45) && s.is_ascii() ==> r is Err,
    {
        match uuid_parse_bytes(s) {
            Ok(b) => Ok(UUID(b)),
            Err(e) => Err(e),
        }
    }

    /// The 16 bytes.
    pub fn as_bytes(&self) -> (r: &[u8; 16])
        ensures
            *r == self.0,
    {
        &self.0
    }

    /// The identifier with these bytes.
    pub fn from_bytes(bytes: [u8; 16]) -> (r: Self)
        ensures
            r.0 == bytes,
    {
        UUID(bytes)
    }

    /// The nil identifier: every byte zero.
    pub fn zero() -> (r: Self)
        ensures
            spec_is_nil(r),
            r.0@ == Seq::new(16, |i: int| 0u8),
    {
        let r = UUID([0u8; 16]);
        assert(r.0@ =~= Seq::new(16, |i: int| 0u8));
        r
    }

    /// Whether every byte is zero.
    pub fn is_zero(&self) -> (r: bool)
        ensures
            r == (forall|i: int| 0 <= i < 16 ==> self.0[i] == 0),
    {
        let mut i: usize = 0;
        while i < 16
            invariant
                i <= 16,
                forall|j: int| 0 <= j < i ==> self.0[j] == 0,
            decreases 16 - i,
        {
            if self.0[i] != 0 {
                return false;
            }
            i = i + 1;
        }
        true
    }

    /// The hyphenated lower-case form, as `Display` writes it.
    pub fn to_string(&self) -> (r: String)
        ensures
            r@ == spec_uuid_hyphenated(self.0@),
    {
        uuid_hyphenated_string(&self.0)
    }
}

impl Default for UUID {
    fn default() -> (r: Self)
        ensures
            r.0@ == Seq::new(16, |i: int| 0u8),
    {
        let r = UUID([0u8; 16]);
        assert(r.0@ =~= Seq::new(16, |i: int| 0u8));
        r
    }
}

impl std::str::FromStr for UUID {
    type Err = uuid::Error;

    fn from_str(s: &str) -> (r: Result<Self, Self::Err>)
        ensures
            uuid_parse_str(s@) is Some ==> (r matches Ok(u) && u.0@ == uuid_parse_str(s@)->0),
            uuid_parse_str(s@) is None ==> r is Err,
            forall|b: Seq<u8>| b.len() == 16 && s@ == spec_uuid_hyphenated(b) ==> (r matches Ok(u) && u.0@ == b),
    {
        UUID::parse(s)
    }
}

} // verus!
