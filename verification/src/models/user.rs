//! Users: present in the data model, without operations of their own yet.

use vstd::prelude::*;

verus! {

/// An account known to the system.
#[derive(Debug)]
pub struct User {
    pub id: i64,
    pub email: String,
    pub role: UserRole,
}

/// The privilege level of a user.
#[derive(Clone, Copy, Debug, PartialEq, Eq, Structural)]
pub enum UserRole {
    Admin,
    User,
}

} // verus!
