use vstd::prelude::*;

use crate::visit::Timestamp;

verus! {

/// A user of the visit log: pure identity. A user only scopes a visit set
/// and carries no accounting state of its own.
pub struct User {
    pub id: i32,
    pub username: String,
    pub created_at: Timestamp,
    pub updated_at: Timestamp,
}

/// A user as a caller supplies it, before the store assigns an identity.
pub struct NewUser {
    pub username: String,
}

} // verus!
