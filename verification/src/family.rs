//! Family names that do not collide.
//!
//! Every style sheet gets a family name of its own, so that several of them
//! can share a page. The names come from the `short-uuid` crate.

use vstd::prelude::*;

verus! {

/// The characters of a family name: the digits and letters of the 58-character
/// alphabet that leaves out `0`, `l`, `I` and `O`.
pub open spec fn family_alphabet() -> Seq<char> {
    "123456789abcdefghijkmnopqrstuvwxyzABCDEFGHJKLMNPQRSTUVWXYZ"@
}

/// Whether `name` has the shape of a generated family name: 22 characters of
/// the family alphabet.
pub open spec fn is_family_name(name: Seq<char>) -> bool {
    &&& name.len() == 22
    &&& forall|i: int| 0 <= i < name.len() ==> family_alphabet().contains(#[trigger] name[i])
}

/// Makes a fresh name with `short_uuid::ShortUuid::generate` and writes it
/// out through its `Display`.
///
/// Trusted: the crate writes a random UUID in base 58 with its
/// `FLICKR_BASE_58` alphabet and pads it to 22 characters. The name depends on
/// chance, so only its shape is stated: two calls may or may not agree.
#[verifier::external_body]
pub(crate) fn fresh_family_name() -> (name: String)
    ensures
        is_family_name(name@),
{
    short_uuid::ShortUuid::generate().to_string()
}

} // verus!
