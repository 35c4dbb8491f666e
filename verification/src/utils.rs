//! Shared utilities: the opaque-token generator and the transport codec.

pub mod dicom;
pub mod multipart;

use vstd::prelude::*;

verus! {

/// A character a generated token may hold: lowercase hex or a hyphen.
pub open spec fn token_char(c: char) -> bool {
    ('0' <= c && c <= '9') || ('a' <= c && c <= 'f') || c == '-'
}

/// The shape of a generated token: a hyphenated UUID, 36 characters of
/// lowercase hex and hyphens.
pub open spec fn uuid_like(s: Seq<char>) -> bool {
    s.len() == 36 && forall|i: int| 0 <= i < s.len() ==> token_char(#[trigger] s[i])
}

/// Relies on uuid: `Uuid::new_v4` rendered through `Display` gives the
/// lowercase hyphenated form, 36 characters of hex digits and hyphens.
/// Nothing else is assumed of the randomly drawn value. The call aborts
/// only if the operating system's randomness source fails: an
/// environmental condition, independent of any input.
#[verifier::external_body]
pub(crate) fn fresh_token() -> (r: String)
    ensures
        uuid_like(r@),
{
    uuid::Uuid::new_v4().to_string()
}

} // verus!
