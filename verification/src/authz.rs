//! The ownership authorizer: the one rule deciding whether an authenticated
//! identity may mutate a resource. Ownership only — no role grants a bypass.

use vstd::prelude::*;

verus! {

/// Whether an identity may mutate a resource owned by `owner_id`.
pub open spec fn spec_authorize(identity_id: u128, owner_id: u128) -> bool {
    identity_id == owner_id
}

/// Allows a mutation exactly when the resource's owning identity is the
/// authenticated identity.
pub fn authorize_mutation(identity_id: u128, owner_id: u128) -> (allow: bool)
    ensures
        allow == spec_authorize(identity_id, owner_id),
{
    identity_id == owner_id
}

/// The ownership law: for a resource owned by identity `a`, the mutation is
/// allowed for `a` and denied for every other identity `b`.
pub proof fn lemma_ownership_decides(a: u128, b: u128)
    requires
        b != a,
    ensures
        spec_authorize(a, a),
        !spec_authorize(b, a),
{
}

} // verus!
