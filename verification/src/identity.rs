//! The identity of a player or of a world.
//!
//! Identities are `candid::Principal` values. The library never looks inside
//! one: it stores them, hands them back, and asks whether two of them are the
//! same.

use crate::vec_map::MapKey;
use candid::Principal;
use vstd::prelude::*;

verus! {

/// `candid::Principal`, carried through as an opaque value.
#[verifier::external_type_specification]
#[verifier::external_body]
pub struct ExPrincipal(Principal);

/// `Principal`'s `==`. The type derives `PartialEq`, and so does the one
/// field that it wraps, over a length and a byte buffer; nothing else is in a
/// principal. So `==` holds exactly of two principals that are the same
/// value. This is believed, not proved.
#[verifier::external_body]
fn principal_eq(a: &Principal, b: &Principal) -> (same: bool)
    ensures
        same == (*a == *b),
{
    a == b
}

/// `Principal::anonymous()`, the identity of a caller that gave none. Nothing
/// is claimed of the value.
#[verifier::external_body]
pub(crate) fn anonymous_principal() -> (nobody: Principal) {
    Principal::anonymous()
}

impl MapKey for Principal {
    fn same_key(&self, other: &Self) -> (same: bool) {
        principal_eq(self, other)
    }
}

/// Whether `who` occurs in `list`.
pub fn contains_principal(list: &Vec<Principal>, who: &Principal) -> (found: bool)
    ensures
        found == list@.contains(*who),
{
    let mut i: usize = 0;
    while i < list.len()
        invariant
            i <= list.len(),
            forall|j: int| 0 <= j < i ==> list@[j] != *who,
        decreases list.len() - i,
    {
        if principal_eq(&list[i], who) {
            return true;
        }
        i += 1;
    }
    false
}

} // verus!
